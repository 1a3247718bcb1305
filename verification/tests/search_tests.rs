use minigrep::config::Config;
use minigrep::search::search;

fn request(query: &str, case_sensitive: bool) -> Config {
    Config { query: query.to_string(), filename: String::new(), case_sensitive }
}

const POEM: &str = "Rust:\nsafe, fast, productive.\nPick three.";

#[test]
fn one_result_case_sensitive() {
    let matches = search(&request("duct", true), POEM);
    assert_eq!(matches, vec!["safe, fast, productive.".to_string()]);
}

#[test]
fn case_insensitive_finds_case_variant() {
    let matches = search(&request("RUST", false), POEM);
    assert_eq!(matches, vec!["Rust:".to_string()]);
}

#[test]
fn case_sensitive_misses_case_variant() {
    let matches = search(&request("RUST", true), POEM);
    assert!(matches.is_empty());
}

#[test]
fn substring_drawn_from_a_line_is_found() {
    let content = "the quick brown fox\njumps over\nthe lazy dog";
    let matches = search(&request("over", true), content);
    assert_eq!(matches, vec!["jumps over".to_string()]);
}

#[test]
fn matches_keep_original_line_order() {
    let content = "one match\nno hit here\nanother match\nmatch again";
    let matches = search(&request("match", true), content);
    assert_eq!(
        matches,
        vec!["one match".to_string(), "another match".to_string(), "match again".to_string()]
    );
}

#[test]
fn empty_query_returns_every_line_in_order() {
    let matches = search(&request("", true), POEM);
    assert_eq!(
        matches,
        vec!["Rust:".to_string(), "safe, fast, productive.".to_string(), "Pick three.".to_string()]
    );
    let matches = search(&request("", false), POEM);
    assert_eq!(
        matches,
        vec!["Rust:".to_string(), "safe, fast, productive.".to_string(), "Pick three.".to_string()]
    );
}

#[test]
fn search_is_deterministic() {
    let first = search(&request("t", false), POEM);
    let second = search(&request("t", false), POEM);
    assert_eq!(first, second);
}

#[test]
fn insensitive_uppercased_query_is_a_superset() {
    let content = "Safe and sound\nsafe harbor\nSAFE MODE\nnothing here";
    let sensitive = search(&request("safe", true), content);
    let insensitive = search(&request("SAFE", false), content);
    assert_eq!(sensitive, vec!["safe harbor".to_string()]);
    for line in &sensitive {
        assert!(insensitive.contains(line));
    }
    assert_eq!(
        insensitive,
        vec!["Safe and sound".to_string(), "safe harbor".to_string(), "SAFE MODE".to_string()]
    );
}

#[test]
fn insensitive_match_reports_the_original_line_text() {
    let matches = search(&request("pick", false), POEM);
    assert_eq!(matches, vec!["Pick three.".to_string()]);
}

#[test]
fn no_match_yields_an_empty_result() {
    let matches = search(&request("absent", true), POEM);
    assert!(matches.is_empty());
}

#[test]
fn empty_content_has_no_lines() {
    let matches = search(&request("", true), "");
    assert!(matches.is_empty());
}

#[test]
fn trailing_newline_does_not_open_an_empty_line() {
    let matches = search(&request("", true), "alpha\nbeta\n");
    assert_eq!(matches, vec!["alpha".to_string(), "beta".to_string()]);
}

#[test]
fn blank_interior_lines_are_kept() {
    let matches = search(&request("", true), "alpha\n\nbeta");
    assert_eq!(matches, vec!["alpha".to_string(), "".to_string(), "beta".to_string()]);
}

#[test]
fn lone_newline_is_one_empty_line() {
    let matches = search(&request("", true), "\n");
    assert_eq!(matches, vec!["".to_string()]);
}

#[test]
fn query_spanning_a_newline_never_matches() {
    let matches = search(&request("alpha\nbeta", true), "alpha\nbeta");
    assert!(matches.is_empty());
}

#[test]
fn folding_is_ascii_only() {
    let matches = search(&request("\u{e4}", false), "\u{c4}pfel");
    assert!(matches.is_empty());
}
