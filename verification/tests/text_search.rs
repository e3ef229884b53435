use gcore::content::{SearchQuery, SearchQueryBuilder};
use gcore::text_search::{find_matches, find_regex_matches, find_text_matches, matches_file_patterns, span_matches, text_matches};

const CONTENT: &str = "alpha beta\nbeta gamma\r\ndelta beta";

fn query(text: &str, case_sensitive: bool, context: Option<usize>) -> SearchQuery {
    let mut q = SearchQueryBuilder::new(text).build();
    q.case_sensitive = case_sensitive;
    match context {
        Some(n) => {
            q.include_context = true;
            q.context_lines = n;
        }
        None => q.include_context = false,
    }
    q
}

#[test]
fn every_occurrence_with_line_and_column() {
    let ms = text_matches(CONTENT, "beta", false, 0);
    let found: Vec<(usize, usize, usize)> = ms.iter().map(|m| (m.position, m.line_number, m.column_number)).collect();
    assert_eq!(found, vec![(6, 1, 7), (11, 1, 11), (29, 3, 7)]);
    assert!(ms.iter().all(|m| m.text == "beta" && m.context_before.is_none() && m.context_after.is_none()));
}

#[test]
fn context_lines_around_matches() {
    let ms = text_matches(CONTENT, "beta", true, 1);
    assert_eq!(ms[0].context_before, Some("alpha beta".to_string()));
    assert_eq!(ms[0].context_after, Some("beta gamma\ndelta beta".to_string()));
    assert_eq!(ms[1].context_before, Some("alpha beta".to_string()));
    assert_eq!(ms[1].context_after, Some("delta beta".to_string()));
    assert_eq!(ms[2].context_before, Some("beta gamma\ndelta beta".to_string()));
    assert_eq!(ms[2].context_after, None);
}

#[test]
fn overlapping_occurrences_are_all_found() {
    let ms = text_matches("aaaa", "aa", false, 0);
    let positions: Vec<usize> = ms.iter().map(|m| m.position).collect();
    assert_eq!(positions, vec![0, 1, 2]);
    assert!(text_matches("abc", "zz", false, 0).is_empty());
}

#[test]
fn offsets_count_bytes() {
    let ms = text_matches("héllo wörld", "llo", false, 0);
    assert_eq!(ms.len(), 1);
    assert_eq!(ms[0].position, 3);
    assert_eq!(ms[0].column_number, 4);
}

#[test]
fn query_search_respects_case() {
    let q = query("BETA", false, None);
    let ms = find_text_matches("Beta beta", &q).unwrap();
    assert_eq!(ms.len(), 2);
    assert_eq!(ms[0].text, "beta");
    let q = query("BETA", true, None);
    assert!(find_text_matches("Beta beta", &q).unwrap().is_empty());
    let q = query("beta", true, Some(2));
    let ms = find_text_matches(CONTENT, &q).unwrap();
    assert_eq!(ms.len(), 3);
    assert_eq!(ms[2].context_before, Some("alpha beta\nbeta gamma\ndelta beta".to_string()));
}

#[test]
fn searches_that_cannot_be_made() {
    assert!(find_text_matches("anything", &query("", true, None)).is_none());
    assert!(find_text_matches("héllo", &query("é", true, None)).is_none());
    assert!(find_text_matches("hello", &query("é", true, None)).unwrap().is_empty());
    assert!(find_text_matches("x", &query("x", true, Some(usize::MAX))).is_none());
}

fn strings(items: &[&str]) -> Vec<String> {
    items.iter().map(|s| s.to_string()).collect()
}

#[test]
fn file_patterns_exclude_first_then_include() {
    let none: Vec<String> = Vec::new();
    assert_eq!(matches_file_patterns("src/main.rs", &none, &none), Ok(true));
    assert_eq!(matches_file_patterns("src/main.rs", &strings(&["\\.rs$"]), &none), Ok(true));
    assert_eq!(matches_file_patterns("src/main.py", &strings(&["\\.rs$"]), &none), Ok(false));
    assert_eq!(matches_file_patterns("target/main.rs", &strings(&["\\.rs$"]), &strings(&["^target/"])), Ok(false));
    assert_eq!(matches_file_patterns("src/main.rs", &strings(&["\\.rs$"]), &strings(&["("])), Err("(".to_string()));
    assert_eq!(matches_file_patterns("src/main.rs", &strings(&["[", "rs"]), &none), Err("[".to_string()));
    assert_eq!(matches_file_patterns("src/main.rs", &strings(&["rs", "["]), &none), Ok(true));
}

fn regex_query(pattern: &str, case_sensitive: bool, context: Option<usize>) -> SearchQuery {
    let mut q = query(pattern, case_sensitive, context);
    q.use_regex = true;
    q
}

#[test]
fn regex_matches_with_positions() {
    let q = regex_query(r"b\w+a", true, None);
    let ms = find_regex_matches(CONTENT, &q).unwrap();
    let found: Vec<(&str, usize, usize, usize)> =
        ms.iter().map(|m| (m.text.as_str(), m.position, m.line_number, m.column_number)).collect();
    assert_eq!(found, vec![("beta", 6, 1, 7), ("beta", 11, 1, 11), ("beta", 29, 3, 7)]);
}

#[test]
fn regex_matches_lowercased_content_and_context() {
    let q = regex_query("gam+a", false, Some(1));
    let ms = find_regex_matches("Alpha\nGAMMA ray\nend", &q).unwrap();
    assert_eq!(ms.len(), 1);
    assert_eq!(ms[0].text, "gamma");
    assert_eq!((ms[0].position, ms[0].line_number, ms[0].column_number), (6, 1, 6));
    assert_eq!(ms[0].context_before, Some("alpha".to_string()));
    assert_eq!(ms[0].context_after, Some("end".to_string()));
}

#[test]
fn regex_that_does_not_compile_finds_nothing() {
    assert!(find_regex_matches(CONTENT, &regex_query("(unclosed", true, None)).is_none());
}

#[test]
fn spans_must_fall_between_characters() {
    let ms = span_matches("héllo", &vec![(0, 1), (3, 6)], false, 0).unwrap();
    assert_eq!(ms[0].text, "h");
    assert_eq!(ms[1].text, "llo");
    assert_eq!(ms[1].position, 3);
    assert!(span_matches("héllo", &vec![(2, 3)], false, 0).is_none());
    assert!(span_matches("héllo", &vec![(3, 1)], false, 0).is_none());
    assert!(span_matches("héllo", &vec![(0, 7)], false, 0).is_none());
}

#[test]
fn search_dispatches_on_regex_flag() {
    let plain = query("a.", true, None);
    assert!(find_matches("a. ab", &plain).unwrap().len() == 1);
    let mut re = plain.clone();
    re.use_regex = true;
    assert_eq!(find_matches("a. ab", &re).unwrap().len(), 2);
    assert_eq!(find_text_matches("a. ab", &plain).unwrap().len(), 1);
}
