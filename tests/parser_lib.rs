use mth_lang::combinators::{between, choice_f, delimited1, many0, or, preceded, some, terminated, then_append};
use mth_lang::cursor::Cursor;
use mth_lang::error::PResult;
use mth_lang::helpers::{digit, ident, tok, whitespace};
use mth_lang::primitives::{chr, chr_take_while, keyword, okparser, optional, pmap, satisfy};

fn make_cursor(s: &str) -> Cursor<'_> {
    Cursor::new(s)
}

#[test]
fn test_satisfy() {
    let src = make_cursor("abc");
    println!("{}:{}", src.ctx().line, src.ctx().col);
    let (src, ch) = satisfy(|c| c == 'a', src).unwrap();
    assert_eq!(ch, 'a');
    println!("{}:{}", src.ctx().line, src.ctx().col);
    println!("{}", src.remainder());
    assert_eq!(src.cur_char(), Some('b'));

    let err = satisfy(|c| c == 'x', src).unwrap_err();
    assert!(err.msg.contains("Predicate failed"));
    assert_eq!(src.cur_char(), Some('b'));
}

#[test]
fn test_chr_success_and_fail() {
    let src = make_cursor("abc");
    let (src, ch) = chr('a', src).unwrap();
    assert_eq!(ch, 'a');
    assert_eq!(src.cur_char(), Some('b'));

    let err = chr('x', src).unwrap_err();
    assert!(err.msg.contains("Expected 'x'"));
}

#[test]
fn test_digit_and_some() {
    let src = make_cursor("123xyz");
    let (src, digits) = some(|c| digit(10, c), src).unwrap();
    assert_eq!(String::from_iter(digits), "123");
    assert_eq!(src.cur_char(), Some('x'));
}

#[test]
fn test_whitespace_and_tok() {
    let src = make_cursor("   a");
    let (src, ch) = tok(|c| chr('a', c), src).unwrap();
    assert_eq!(ch, 'a');
    assert_eq!(src.cur_char(), None);
}

#[test]
fn test_optional_success_and_none() {
    let src = make_cursor("x");
    let (src, maybe) = optional(|c| chr('x', c), src).unwrap();
    assert_eq!(maybe, Some('x'));
    assert_eq!(src.cur_char(), None);

    let src = make_cursor("y");
    let (src, maybe) = optional(|c| chr('x', c), src).unwrap();
    assert_eq!(maybe, None);
    assert_eq!(src.cur_char(), Some('y'));
}

#[test]
fn test_choice_macro() {
    let src = make_cursor("a");
    let p: Vec<fn(Cursor<'_>) -> PResult<'_, char>> =
        vec![|c| chr('x', c), |c| chr('a', c), |c| chr('z', c)];
    let (_, ch) = choice_f(&p, src).unwrap();
    assert_eq!(ch, 'a');
}

#[test]
fn test_many0_and_some() {
    let src = make_cursor("aaa!");
    let (src, out) = many0(|c| chr('a', c), src).unwrap();
    assert_eq!(out, vec!['a', 'a', 'a']);
    assert_eq!(src.cur_char(), Some('!'));

    let src = make_cursor("!");
    let (src, out) = many0(|c| chr('a', c), src).unwrap();
    assert!(out.is_empty());
    assert_eq!(src.cur_char(), Some('!'));

    let src = make_cursor("bb");
    let (src, out) = some(|c| chr('b', c), src).unwrap();
    assert_eq!(out, vec!['b', 'b']);
    assert_eq!(src.cur_char(), None);
}

#[test]
fn test_ident() {
    let src = make_cursor("hello123 world");
    let (src, name) = ident(src).unwrap();
    assert_eq!(name, "hello123");
    assert_eq!(src.cur_char(), Some(' '));
}

#[test]
fn test_pmap() {
    let src = make_cursor("a");
    let (_, v) = pmap(|c| chr('a', c), |c: char| c.to_ascii_uppercase(), src).unwrap();
    assert_eq!(v, 'A');
}

#[test]
fn test_okparser_and_parse_macro() {
    let src = make_cursor("");
    let (_, v) = okparser(123, src)
        .map_err(|e| e.context("Failed to run okparser"))
        .unwrap();
    assert_eq!(v, 123);
}

#[test]
fn test_digit_failure() {
    let src = make_cursor("abc");
    let err = digit(10, src).unwrap_err();
    assert!(err.msg.contains("Predicate failed"));
}

#[test]
fn digit_in_other_bases() {
    assert!(digit(16, make_cursor("f")).is_ok());
    assert!(digit(16, make_cursor("g")).is_err());
    assert!(digit(2, make_cursor("2")).is_err());
    assert!(digit(36, make_cursor("Z")).is_ok());
}

#[test]
fn chr_error_names_both_characters() {
    let err = chr('x', make_cursor("abc")).unwrap_err();
    assert_eq!(err.msg, "[chr] Expected 'x', found 'a'");
    let err = chr('x', make_cursor("")).unwrap_err();
    assert_eq!(err.msg, "[chr] Unexpected EOF, expected 'x'");
}

#[test]
fn satisfy_at_end_of_input() {
    let err = satisfy(|_| true, make_cursor("")).unwrap_err();
    assert!(err.msg.contains("Unexpected EOF"));
}

#[test]
fn error_position_and_context() {
    let src = make_cursor("ab\ncd");
    let (src, _) = keyword("ab", src).unwrap();
    let (src, _) = whitespace(src).unwrap();
    let err = chr('x', src).unwrap_err();
    assert_eq!((err.ctx.line, err.ctx.col), (2, 1));
    let err = err.context("outer");
    assert!(err.msg.starts_with("outer: [chr]"));
    assert_eq!(err.describe(), format!("Error: {}\n   2:1", err.msg));
}

#[test]
fn keyword_matches_whole_text_only() {
    let (rest, found) = keyword("::", make_cursor(":: int")).unwrap();
    assert_eq!(found, "::");
    assert_eq!(rest.remainder(), " int");
    assert!(keyword("::", make_cursor(": :")).is_err());
    assert!(keyword("int", make_cursor("in")).is_err());
}

#[test]
fn take_while_stops_at_first_refusal() {
    let (rest, taken) = chr_take_while(|c| c.is_ascii_digit(), make_cursor("42ab")).unwrap();
    assert_eq!(taken, "42");
    assert_eq!(rest.remainder(), "ab");
    let (rest, taken) = chr_take_while(|c| c == 'z', make_cursor("ab")).unwrap();
    assert_eq!(taken, "");
    assert_eq!(rest.remainder(), "ab");
}

#[test]
fn whitespace_skips_unicode_spaces() {
    let (rest, ()) = whitespace(make_cursor(" \t\n\u{2003}x")).unwrap();
    assert_eq!(rest.remainder(), "x");
    assert_eq!(rest.ctx().line, 2);
}

#[test]
fn ident_accepts_unicode_letters_and_underscores() {
    let (rest, name) = ident(make_cursor("été_2 x")).unwrap();
    assert_eq!(name, "été_2");
    assert_eq!(rest.remainder(), " x");
    assert!(ident(make_cursor("2x")).is_err());
    assert!(ident(make_cursor("_x")).is_err());
}

#[test]
fn or_tries_second_on_same_input() {
    let (rest, c) = or(|c| chr('x', c), |c| chr('a', c), make_cursor("ab")).unwrap();
    assert_eq!(c, 'a');
    assert_eq!(rest.remainder(), "b");
}

#[test]
fn sequencing_combinators() {
    let (rest, c) = preceded(|c| chr('(', c), |c| chr('a', c), make_cursor("(a)")).unwrap();
    assert_eq!((c, rest.remainder()), ('a', ")"));
    let (rest, c) = terminated(|c| chr('a', c), |c| chr(';', c), make_cursor("a;b")).unwrap();
    assert_eq!((c, rest.remainder()), ('a', "b"));
    let (rest, c) = between(|c| chr('a', c), |c| chr('(', c), |c| chr(')', c), make_cursor("(a)!")).unwrap();
    assert_eq!((c, rest.remainder()), ('a', "!"));
    assert!(between(|c| chr('a', c), |c| chr('(', c), |c| chr(')', c), make_cursor("(a")).is_err());
}

#[test]
fn choice_reports_last_error() {
    let p: Vec<fn(Cursor<'_>) -> PResult<'_, char>> = vec![|c| chr('x', c), |c| chr('y', c)];
    let err = choice_f(&p, make_cursor("a")).unwrap_err();
    assert!(err.msg.contains("Expected 'y'"));
    let none: Vec<fn(Cursor<'_>) -> PResult<'_, char>> = vec![];
    let err = choice_f(&none, make_cursor("a")).unwrap_err();
    assert_eq!(err.msg, "no matching parser");
}

#[test]
fn repetition_stops_without_progress() {
    let (rest, out) = many0(|c| okparser(1, c), make_cursor("abc")).unwrap();
    assert!(out.is_empty());
    assert_eq!(rest.remainder(), "abc");
    let (rest, out) = some(|c| okparser(1, c), make_cursor("abc")).unwrap();
    assert_eq!(out, vec![1]);
    assert_eq!(rest.remainder(), "abc");
    assert!(some(|c| chr('b', c), make_cursor("a")).is_err());
}

#[test]
fn delimited_items() {
    let src = Cursor::new("a, b, c");
    let (_, result) = delimited1(|c| tok(ident, c), |c| tok(|d| chr(',', d), c), src).unwrap();
    assert_eq!(result, vec!["a", "b", "c"]);
    let (rest, result) = delimited1(|c| tok(ident, c), |c| tok(|d| chr(',', d), c), Cursor::new("a b")).unwrap();
    assert_eq!(result, vec!["a"]);
    assert_eq!(rest.remainder(), " b");
    assert!(delimited1(|c| tok(ident, c), |c| tok(|d| chr(',', d), c), Cursor::new("a, ")).is_err());
}

#[test]
fn then_append_adds_last_item() {
    let (_, v) = then_append(|c| many0(|d| chr('a', d), c), |c| chr('b', c), make_cursor("aab")).unwrap();
    assert_eq!(v, vec!['a', 'a', 'b']);
}
