use minigrep::config::Config;
use minigrep::config::ConfigError;

fn args(strs: &[&str]) -> Vec<String> {
    strs.iter().map(|s| s.to_string()).collect()
}

#[test]
fn build_fails_with_no_positional_arguments() {
    let r = Config::build(&args(&["prog"]), false);
    assert!(matches!(r, Err(ConfigError::InsufficientArguments)));
}

#[test]
fn build_fails_with_one_positional_argument() {
    let r = Config::build(&args(&["prog", "only-one"]), false);
    assert!(matches!(r, Err(ConfigError::InsufficientArguments)));
}

#[test]
fn build_succeeds_with_query_and_path() {
    let config = Config::build(&args(&["prog", "to", "poem.txt"]), false).unwrap();
    assert_eq!(config.query, "to");
    assert_eq!(config.filename, "poem.txt");
    assert!(config.case_sensitive);
}

#[test]
fn build_injects_the_case_insensitive_flag() {
    let config = Config::build(&args(&["prog", "to", "poem.txt"]), true).unwrap();
    assert!(!config.case_sensitive);
}

#[test]
fn build_ignores_extra_arguments() {
    let config = Config::build(&args(&["prog", "to", "poem.txt", "extra"]), false).unwrap();
    assert_eq!(config.query, "to");
    assert_eq!(config.filename, "poem.txt");
}

#[test]
fn build_accepts_an_empty_query() {
    let config = Config::build(&args(&["prog", "", "poem.txt"]), false).unwrap();
    assert_eq!(config.query, "");
}
