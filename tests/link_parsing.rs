use wikilink_lsp::link::parse_wiki_link;

fn token(start: usize, end: usize, target: &str, alias: Option<&str>) -> Option<(usize, usize, String, Option<String>)> {
    Some((start, end, target.to_string(), alias.map(|a| a.to_string())))
}

#[test]
fn link_without_alias() {
    assert_eq!(parse_wiki_link("[[a/b]]", 2), token(0, 7, "a/b", None));
}

#[test]
fn link_with_alias() {
    assert_eq!(parse_wiki_link("[[a/b|Display]]", 2), token(0, 15, "a/b", Some("Display")));
}

#[test]
fn cursor_before_opening_marker_finds_nothing() {
    assert_eq!(parse_wiki_link("text [[x]] more", 2), None);
}

#[test]
fn cursor_inside_second_link_gets_that_link() {
    // Offset 8 is the `y` of the second link.
    assert_eq!(parse_wiki_link("[[x]] [[y]]", 8), token(6, 11, "y", None));
}

#[test]
fn cursor_between_two_links_finds_nothing() {
    assert_eq!(parse_wiki_link("[[x]]  [[y]]", 6), None);
    assert_eq!(parse_wiki_link("[[x]] [[y]]", 5), None);
    assert_eq!(parse_wiki_link("a [[x]] b ]]", 9), None);
}

#[test]
fn cursor_after_last_closing_marker_finds_nothing() {
    assert_eq!(parse_wiki_link("[[x]] tail", 8), None);
}

#[test]
fn found_link_encloses_cursor() {
    let line = "see [[notes/one|One]] and [[two]]";
    for col in 0..=line.chars().count() {
        if let Some((start, end, _, _)) = parse_wiki_link(line, col) {
            assert!(start + 2 <= col && col + 2 <= end);
        }
    }
}

#[test]
fn parsing_twice_gives_the_same_result() {
    let line = "x [[a|b]] y";
    assert_eq!(parse_wiki_link(line, 4), parse_wiki_link(line, 4));
    assert_eq!(parse_wiki_link(line, 4), token(2, 9, "a", Some("b")));
}

#[test]
fn empty_link_gives_empty_target() {
    assert_eq!(parse_wiki_link("[[]]", 2), token(0, 4, "", None));
    assert_eq!(parse_wiki_link("[[|alias]]", 2), token(0, 10, "", Some("alias")));
}

#[test]
fn target_and_alias_are_trimmed() {
    assert_eq!(parse_wiki_link("[[  a b \t|  shown  ]]", 5), token(0, 21, "a b", Some("shown")));
}

#[test]
fn alias_is_everything_after_first_bar() {
    assert_eq!(parse_wiki_link("[[a|b|c]]", 3), token(0, 9, "a", Some("b|c")));
}

#[test]
fn cursor_at_closing_marker_still_finds_link() {
    assert_eq!(parse_wiki_link("[[ab]]", 4), token(0, 6, "ab", None));
    assert_eq!(parse_wiki_link("[[ab]]", 5), None);
}

#[test]
fn cursor_past_end_finds_nothing() {
    assert_eq!(parse_wiki_link("[[a]]", 9), None);
}

#[test]
fn offsets_count_characters() {
    assert_eq!(parse_wiki_link("é [[ü]]", 4), token(2, 7, "ü", None));
}

#[test]
fn line_without_links_finds_nothing() {
    assert_eq!(parse_wiki_link("", 0), None);
    assert_eq!(parse_wiki_link("plain text", 3), None);
}
