use mth_lang::cursor::{Cursor, FileContext};

fn make_cursor(src: &str) -> Cursor<'_> {
    Cursor::new(src)
}

#[test]
fn tests_cursor_basic_iteration() {
    let mut c = make_cursor("abc");

    assert_eq!(c.cur_char(), Some('a'));
    assert_eq!(c.remainder(), "abc");
    assert_eq!(c.ctx().line, 1);
    assert_eq!(c.ctx().col, 1);

    // consume first char
    assert_eq!(c.next(), Some('b'));
    assert_eq!(c.cur_char(), Some('b'));
    assert_eq!(c.remainder(), "bc");
    assert_eq!(c.ctx().line, 1);
    assert_eq!(c.ctx().col, 2);

    // consume second char
    assert_eq!(c.next(), Some('c'));
    assert_eq!(c.cur_char(), Some('c'));
    assert_eq!(c.remainder(), "c");
    assert_eq!(c.ctx().line, 1);
    assert_eq!(c.ctx().col, 3);

    // consume last char
    assert_eq!(c.next(), None);
    assert_eq!(c.cur_char(), None);
    assert_eq!(c.remainder(), "");
    assert_eq!(c.ctx().line, 1);
    assert_eq!(c.ctx().col, 4); // advanced past last char

    // end of input
    assert_eq!(c.next(), None);
    assert_eq!(c.cur_char(), None);
    assert_eq!(c.remainder(), "");
}

#[test]
fn tests_cursor_newline_handling() {
    let mut c = make_cursor("ab\ncd");

    // consume a, b
    assert_eq!(c.cur_char(), Some('a'));
    assert_eq!(c.next(), Some('b'));
    assert_eq!(c.ctx().line, 1);
    assert_eq!(c.ctx().col, 2);

    // consume newline
    c.next();
    assert_eq!(c.cur_char(), Some('\n'));
    assert_eq!(c.ctx().line, 2);
    assert_eq!(c.ctx().col, 0); // reset on newline

    // consume c, d
    assert_eq!(c.next(), Some('c'));
    assert_eq!(c.next(), Some('d'));
    assert_eq!(c.ctx().line, 2);
    assert_eq!(c.ctx().col, 2);

    assert_eq!(c.next(), None);
    assert_eq!(c.ctx().line, 2);
    assert_eq!(c.ctx().col, 3);
}

#[test]
fn tests_cursor_advance_function() {
    let mut c = make_cursor("rust");
    c.advance(2);
    assert_eq!(c.cur_char(), Some('s'));
    assert_eq!(c.remainder(), "st");
    assert_eq!(c.ctx().col, 3);
}

#[test]
fn tests_cursor_empty_input() {
    let mut c = make_cursor("");
    assert_eq!(c.cur_char(), None);
    assert_eq!(c.remainder(), "");
    assert_eq!(c.ctx().line, 1);
    assert_eq!(c.ctx().col, 1);
    assert_eq!(c.next(), None);
    assert_eq!(c.ctx().line, 1);
    assert_eq!(c.ctx().col, 2);
}

#[test]
fn cursor_cursor_basic_iteration() {
    let mut c = make_cursor("abc");

    assert_eq!(c.cur_char(), Some('a'));
    assert_eq!(c.remainder(), "abc");
    assert_eq!(c.ctx().line, 1);
    assert_eq!(c.ctx().col, 1);

    // consume first char
    assert_eq!(c.next(), Some('b'));
    assert_eq!(c.cur_char(), Some('b'));
    assert_eq!(c.remainder(), "bc");
    assert_eq!(c.ctx().line, 1);
    assert_eq!(c.ctx().col, 2);

    // consume second char
    assert_eq!(c.next(), Some('c'));
    assert_eq!(c.cur_char(), Some('c'));
    assert_eq!(c.remainder(), "c");
    assert_eq!(c.ctx().line, 1);
    assert_eq!(c.ctx().col, 3);

    // consume last char
    assert_eq!(c.next(), None);
    assert_eq!(c.cur_char(), None);
    assert_eq!(c.remainder(), "");
    assert_eq!(c.ctx().line, 1);
    assert_eq!(c.ctx().col, 4); // advanced past last char

    // end of input
    assert_eq!(c.next(), None);
    assert_eq!(c.cur_char(), None);
    assert_eq!(c.remainder(), "");
}

#[test]
fn cursor_cursor_newline_handling() {
    let mut c = make_cursor("ab\ncd");

    // consume a, b
    assert_eq!(c.cur_char(), Some('a'));
    assert_eq!(c.next(), Some('b'));
    assert_eq!(c.ctx().line, 1);
    assert_eq!(c.ctx().col, 2);

    // consume newline
    c.next();
    assert_eq!(c.cur_char(), Some('\n'));
    assert_eq!(c.ctx().line, 2);
    assert_eq!(c.ctx().col, 0); // reset on newline

    // consume c, d
    assert_eq!(c.next(), Some('c'));
    assert_eq!(c.next(), Some('d'));
    assert_eq!(c.ctx().line, 2);
    assert_eq!(c.ctx().col, 2);

    assert_eq!(c.next(), None);
    assert_eq!(c.ctx().line, 2);
    assert_eq!(c.ctx().col, 3);
}

#[test]
fn cursor_cursor_advance_function() {
    let mut c = make_cursor("rust");
    c.advance(2);
    assert_eq!(c.cur_char(), Some('s'));
    assert_eq!(c.remainder(), "st");
    assert_eq!(c.ctx().col, 3);
}

#[test]
fn cursor_cursor_empty_input() {
    let mut c = make_cursor("");
    assert_eq!(c.cur_char(), None);
    assert_eq!(c.remainder(), "");
    assert_eq!(c.ctx().line, 1);
    assert_eq!(c.ctx().col, 1);
    assert_eq!(c.next(), None);
    assert_eq!(c.ctx().line, 1);
    assert_eq!(c.ctx().col, 2);
}

#[test]
fn cursor_keeps_source_and_default_context() {
    let mut c = make_cursor("héllo");
    assert_eq!(c.ctx(), FileContext::default());
    assert_eq!(c.next(), Some('é'));
    assert_eq!(c.remainder(), "éllo");
    assert_eq!(c.source(), "héllo");
    c.advance(10);
    assert_eq!(c.remainder(), "");
    assert_eq!(c.cur_char(), None);
}

#[test]
fn cursor_copy_backtracks() {
    let c = make_cursor("xy");
    let mut d = c;
    d.next();
    assert_eq!(c.cur_char(), Some('x'));
    assert_eq!(d.cur_char(), Some('y'));
}
