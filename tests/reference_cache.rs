use wikilink_lsp::cache::{QueryStep, ReferenceCache};
use wikilink_lsp::search::{count_lines, search_outcome, search_pattern};

const W: u64 = 1_000;

fn is_search(step: &QueryStep) -> bool {
    matches!(step, QueryStep::Search(_))
}

#[test]
fn unseen_identifier_is_searched_once() {
    let mut cache = ReferenceCache::new(W);
    let step = cache.begin_query("notes/a", 10);
    match step {
        QueryStep::Search(p) => assert_eq!(p, search_pattern("notes/a")),
        QueryStep::Cached(_) => panic!("an unseen identifier was served from the cache"),
    }
    assert_eq!(cache.finish_query("notes/a", 10, Some(4)), 4);
    assert!(matches!(cache.begin_query("notes/a", 11), QueryStep::Cached(4)));
}

#[test]
fn fresh_count_is_served_without_search() {
    let mut cache = ReferenceCache::new(W);
    assert!(is_search(&cache.begin_query("a", 100)));
    assert_eq!(cache.finish_query("a", 100, Some(7)), 7);
    assert!(matches!(cache.begin_query("a", 100), QueryStep::Cached(7)));
    assert!(matches!(cache.begin_query("a", 100 + W - 1), QueryStep::Cached(7)));
    assert_eq!(cache.cached("a", 500), Some(7));
}

#[test]
fn stale_count_is_searched_and_replaced() {
    let mut cache = ReferenceCache::new(W);
    cache.finish_query("a", 100, Some(7));
    assert!(is_search(&cache.begin_query("a", 100 + W)));
    assert_eq!(cache.finish_query("a", 100 + W, Some(9)), 9);
    assert!(matches!(cache.begin_query("a", 100 + W + 1), QueryStep::Cached(9)));
}

#[test]
fn failed_search_gives_zero_and_caches_nothing() {
    let mut cache = ReferenceCache::new(W);
    assert_eq!(cache.finish_query("a", 5, None), 0);
    assert!(is_search(&cache.begin_query("a", 6)));
    assert_eq!(cache.finish_query("a", 6, Some(2)), 2);
    assert!(matches!(cache.begin_query("a", 7), QueryStep::Cached(2)));
}

#[test]
fn failed_refresh_keeps_earlier_entry() {
    let mut cache = ReferenceCache::new(W);
    cache.finish_query("a", 0, Some(3));
    assert_eq!(cache.finish_query("a", W + 5, None), 0);
    assert_eq!(cache.cached("a", W - 1), Some(3));
}

#[test]
fn identifiers_are_cached_apart() {
    let mut cache = ReferenceCache::new(W);
    cache.record("a", 1, 0);
    cache.record("b", 2, 0);
    cache.record("a", 5, 10);
    assert_eq!(cache.cached("a", 20), Some(5));
    assert_eq!(cache.cached("b", 20), Some(2));
    assert_eq!(cache.cached("c", 20), None);
}

#[test]
fn zero_window_never_serves_from_cache() {
    let mut cache = ReferenceCache::new(0);
    cache.record("a", 1, 10);
    assert_eq!(cache.cached("a", 10), None);
    assert_eq!(cache.freshness(), 0);
}

#[test]
fn clock_reading_before_observation_counts_as_fresh() {
    let mut cache = ReferenceCache::new(W);
    cache.record("a", 1, 50);
    assert_eq!(cache.cached("a", 10), Some(1));
}

#[test]
fn pattern_escapes_meta_characters() {
    assert_eq!(search_pattern("a.b"), r"\[\[\s*a\.b(\||\]\])");
    assert_eq!(search_pattern("x*(y)"), r"\[\[\s*x\*\(y\)(\||\]\])");
    assert_eq!(search_pattern("plain/path"), r"\[\[\s*plain/path(\||\]\])");
}

#[test]
fn pattern_matches_identifier_only_literally() {
    let re = regex::Regex::new(&search_pattern("a.b(c)*")).unwrap();
    assert!(re.is_match("see [[a.b(c)*]] here"));
    assert!(re.is_match("see [[ a.b(c)*|alias]] here"));
    assert!(!re.is_match("see [[axbccc]] here"));
    assert!(!re.is_match("see [[a.b(c)*x]] here"));
}

#[test]
fn output_lines_are_counted() {
    assert_eq!(count_lines(b""), 0);
    assert_eq!(count_lines(b"a:1:[[x]]\nb:2:[[x|y]]\n"), 2);
    assert_eq!(count_lines(b"a\nb"), 2);
    assert_eq!(count_lines(b"\n\n"), 2);
    assert_eq!(count_lines(b"one"), 1);
}

#[test]
fn search_exit_codes_decide_outcome() {
    assert_eq!(search_outcome(Some(0), b"a\nb\n"), Some(2));
    assert_eq!(search_outcome(Some(1), b""), Some(0));
    assert_eq!(search_outcome(Some(2), b"a\n"), None);
    assert_eq!(search_outcome(None, b"a\n"), None);
}

#[test]
fn served_count_lasts_until_its_own_window_ends() {
    let mut cache = ReferenceCache::new(W);
    cache.finish_query("a", 0, Some(6));
    assert!(matches!(cache.begin_query("a", W - 10), QueryStep::Cached(6)));
    assert!(matches!(cache.begin_query("a", W - 1), QueryStep::Cached(6)));
    assert!(is_search(&cache.begin_query("a", W)));
}
