use wikilink_lsp::files::{
    completion_detail, completion_insert_text, completion_label, find_by_path, find_by_virtual_path,
    link_target, FileInfo,
};
use wikilink_lsp::headings::{document_headings, extract_headings};
use wikilink_lsp::labels::reference_label;
use wikilink_lsp::lines::line_at;
use wikilink_lsp::preview::{fenced_markdown, hover_preview_text, preview_source};
use wikilink_lsp::query::{matches_folded, symbol_matches};

fn info(vp: &str, title: &str, path: &str) -> FileInfo {
    FileInfo { virtual_path: vp.to_string(), title: title.to_string(), path: path.to_string() }
}

fn corpus() -> Vec<FileInfo> {
    vec![
        info("notes/a", "Alpha", "/w/a.md"),
        info("notes/b", "Beta", "/w/b.md"),
        info("notes/a", "Alpha again", "/w/a2.md"),
    ]
}

#[test]
fn lookup_by_virtual_path_takes_first() {
    let infos = corpus();
    assert_eq!(find_by_virtual_path(&infos, "notes/a"), Some(0));
    assert_eq!(find_by_virtual_path(&infos, "notes/b"), Some(1));
    assert_eq!(find_by_virtual_path(&infos, "notes/c"), None);
    assert_eq!(find_by_virtual_path(&Vec::new(), "notes/a"), None);
}

#[test]
fn lookup_by_local_path() {
    let infos = corpus();
    assert_eq!(find_by_path(&infos, "/w/a2.md"), Some(2));
    assert_eq!(find_by_path(&infos, "/w/z.md"), None);
}

#[test]
fn link_under_cursor_resolves_to_document() {
    let infos = corpus();
    assert_eq!(link_target("go to [[ notes/b |Beta]] now", 9, &infos), Some(1));
    assert_eq!(link_target("go to [[notes/x]] now", 9, &infos), None);
    assert_eq!(link_target("no link here", 3, &infos), None);
}

#[test]
fn completion_texts() {
    let f = info("notes/a", "Alpha", "/w/a.md");
    assert_eq!(completion_insert_text(&f), "notes/a|Alpha");
    assert_eq!(completion_label(&f), "Alpha (notes/a)");
    assert_eq!(completion_detail(&f), "Insert wiki-link for file: notes/a");
}

#[test]
fn headings_are_extracted_with_line_numbers() {
    let text = "# Title\ntext\n  ## Sub  \n#\r\n### \nnot # heading\n";
    assert_eq!(
        extract_headings(text),
        vec![(0, "Title".to_string()), (2, "Sub".to_string())]
    );
    assert_eq!(extract_headings(""), vec![]);
}

#[test]
fn document_headings_keep_empty_names_and_widths() {
    let text = "# One\r\nbody\n   ##  Two  \n#";
    let hs = document_headings(text);
    assert_eq!(hs.len(), 3);
    assert_eq!((hs[0].line, hs[0].name.as_str(), hs[0].width), (0, "One", 5));
    assert_eq!((hs[1].line, hs[1].name.as_str(), hs[1].width), (2, "Two", 12));
    assert_eq!((hs[2].line, hs[2].name.as_str(), hs[2].width), (3, "", 1));
}

#[test]
fn heading_width_counts_bytes() {
    let hs = document_headings("# é");
    assert_eq!(hs[0].width, 4);
    assert_eq!(hs[0].name, "é");
}

#[test]
fn preview_keeps_first_lines() {
    let text: String = (0..25).map(|i| format!("line {}\n", i)).collect();
    let expected: Vec<String> = (0..20).map(|i| format!("line {}", i)).collect();
    assert_eq!(preview_source(&text), expected.join("\n"));
    assert_eq!(preview_source("a\r\nb"), "a\nb");
    assert_eq!(preview_source(""), "");
}

#[test]
fn hover_text_is_fenced_and_wrapped() {
    assert_eq!(hover_preview_text("hello"), "```markdown\nhello\n```");
    assert_eq!(fenced_markdown("x"), "```markdown\nx\n```");
    let long = "word ".repeat(30);
    let shown = hover_preview_text(&long);
    let body = shown.trim_start_matches("```markdown\n").trim_end_matches("\n```");
    assert!(body.lines().count() > 1);
    assert!(body.lines().all(|l| l.chars().count() <= 80));
}

#[test]
fn symbol_query_ignores_case() {
    assert!(symbol_matches("Hello World", "WORLD"));
    assert!(symbol_matches("anything", ""));
    assert!(!symbol_matches("abc", "x"));
    assert!(!symbol_matches("ab", "abc"));
    assert!(matches_folded("hello", "ell"));
    assert!(!matches_folded("hello", "ELL"));
    assert!(matches_folded("", ""));
}

#[test]
fn reference_labels() {
    assert_eq!(reference_label(0), "Referenced 0 times");
    assert_eq!(reference_label(7), "Referenced 7 times");
    assert_eq!(reference_label(12045), "Referenced 12045 times");
}

#[test]
fn lines_are_picked_by_number() {
    assert_eq!(line_at("a\r\nb\n\nc", 0), Some("a".to_string()));
    assert_eq!(line_at("a\r\nb\n\nc", 2), Some("".to_string()));
    assert_eq!(line_at("a\r\nb\n\nc", 3), Some("c".to_string()));
    assert_eq!(line_at("a\r\nb\n\nc", 4), None);
    assert_eq!(line_at("a\n", 1), None);
    assert_eq!(line_at("a\r", 0), Some("a\r".to_string()));
}
