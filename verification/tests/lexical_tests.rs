use helix_ls::lexical::{bracket_context, field_access_context, line_span, word_at};
use helix_ls::model::EntityKind;

fn chars(s: &str) -> Vec<char> {
    s.chars().collect()
}

fn text(v: &[char]) -> String {
    v.iter().collect()
}

#[test]
fn word_at_middle_of_word() {
    let line = chars("let user_1 = AddN");
    assert_eq!(word_at(&line, 6), Some((4, 10)));
}

#[test]
fn word_at_start_of_word() {
    let line = chars("let user_1 = AddN");
    assert_eq!(word_at(&line, 4), Some((4, 10)));
}

#[test]
fn word_at_just_after_word_attaches_left() {
    let line = chars("let user_1 = AddN");
    // cursor on the space right after `user_1` still reports the word
    assert_eq!(word_at(&line, 10), Some((4, 10)));
}

#[test]
fn word_at_on_delimiter_is_none() {
    let line = chars("a = b");
    assert_eq!(word_at(&line, 2), None);
}

#[test]
fn word_at_past_end_is_none() {
    let line = chars("abc");
    assert_eq!(word_at(&line, 3), None);
    assert_eq!(word_at(&line, 10), None);
}

#[test]
fn word_at_digits_and_underscore_are_word_characters() {
    let line = chars("x9_y+z");
    assert_eq!(word_at(&line, 2), Some((0, 4)));
}

#[test]
fn line_span_finds_each_line() {
    let buf = chars("first\nsecond\nthird");
    assert_eq!(line_span(&buf, 0), Some((0, 5)));
    assert_eq!(line_span(&buf, 1), Some((6, 12)));
    assert_eq!(line_span(&buf, 2), Some((13, 18)));
    assert_eq!(line_span(&buf, 3), None);
}

#[test]
fn line_span_strips_carriage_return() {
    let buf = chars("one\r\ntwo");
    assert_eq!(line_span(&buf, 0), Some((0, 3)));
    assert_eq!(line_span(&buf, 1), Some((5, 8)));
}

#[test]
fn line_span_empty_buffer_has_no_lines() {
    let buf = chars("");
    assert_eq!(line_span(&buf, 0), None);
}

#[test]
fn bracket_context_finds_enclosing_type() {
    let line = chars("AddN<Person>");
    let (kind, name) = bracket_context(&line, line.len()).unwrap();
    assert_eq!(kind, EntityKind::Node);
    assert_eq!(text(&name), "Person");
}

#[test]
fn bracket_context_picks_rightmost_occurrence() {
    let line = chars("AddN<Person> AddE<Follows>");
    let (kind, name) = bracket_context(&line, line.len()).unwrap();
    assert_eq!(kind, EntityKind::Edge);
    assert_eq!(text(&name), "Follows");
}

#[test]
fn bracket_context_tolerates_unclosed_bracket() {
    let line = chars("x <- AddV<Docu");
    let (kind, name) = bracket_context(&line, line.len()).unwrap();
    assert_eq!(kind, EntityKind::Vector);
    assert_eq!(text(&name), "Docu");
}

#[test]
fn bracket_context_rejects_non_identifier() {
    let line = chars("N<a b>");
    assert!(bracket_context(&line, line.len()).is_none());
}

#[test]
fn bracket_context_empty_name_is_no_context() {
    let line = chars("AddN<>");
    assert!(bracket_context(&line, line.len()).is_none());
}

#[test]
fn field_access_inside_unclosed_block() {
    let line = chars("user::{name");
    assert!(field_access_context(&line, line.len()));
}

#[test]
fn field_access_after_closed_block_is_over() {
    let line = chars("user::{name} ");
    assert!(!field_access_context(&line, line.len()));
}

#[test]
fn field_access_without_opener_is_false() {
    let line = chars("user.name");
    assert!(!field_access_context(&line, line.len()));
}

#[test]
fn field_access_reopened_block_counts() {
    let line = chars("a::{x}::{y");
    assert!(field_access_context(&line, line.len()));
}

#[test]
fn lexical_context_combines_all_three() {
    let line = chars("AddN<Person>::{name");
    let ctx = helix_ls::lexical::lexical_context_at(&line, 17);
    assert_eq!(ctx.word, Some((15, 19)));
    let (kind, name) = ctx.bracket.unwrap();
    assert_eq!(kind, EntityKind::Node);
    assert_eq!(text(&name), "Person");
    assert!(ctx.field_access);
}

#[test]
fn lexical_context_on_plain_text() {
    let line = chars("hello");
    let ctx = helix_ls::lexical::lexical_context_at(&line, 2);
    assert_eq!(ctx.word, Some((0, 5)));
    assert!(ctx.bracket.is_none());
    assert!(!ctx.field_access);
}
