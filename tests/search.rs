use myvec::config::matching_lines;
use myvec::{search, search_case_insensitive, Config};

#[test]
fn one_result() {
    let query = "duct";
    let contents = "\
Rust:
safe, fast, productive.
Pick three.";

    assert_eq!(vec!["safe, fast, productive."], search(query, contents));
}

#[test]
fn case_sensitive() {
    let query = "duct";
    let contents = "\
Rust:
safe, fast, productive.
Pick three.
Duct tape.";

    assert_eq!(vec!["safe, fast, productive."], search(query, contents));
}

#[test]
fn case_insensitive() {
    let query = "rUsT";
    let contents = "\
Rust:
safe, fast, productive.
Pick three.
Trust me.";

    assert_eq!(vec!["Rust:", "Trust me."], search_case_insensitive(query, contents));
}

#[test]
fn search_on_empty_text_finds_nothing() {
    assert!(search("a", "").is_empty());
    assert!(search_case_insensitive("a", "").is_empty());
}

#[test]
fn search_splits_crlf_and_keeps_empty_lines() {
    let contents = "ab\r\n\ncab\nx";
    assert_eq!(vec!["ab", "cab"], search("ab", contents));
    assert_eq!(vec!["ab", "", "cab", "x"], search("", contents));
}

#[test]
fn search_case_insensitive_lowers_the_lines_too() {
    assert_eq!(vec!["DUCT tape", "duct"], search_case_insensitive("Duct", "DUCT tape\nduct\nduck"));
    assert!(search("Duct", "DUCT tape\nduct\nduck").is_empty());
}

fn args(words: &[&str]) -> Vec<String> {
    words.iter().map(|w| w.to_string()).collect()
}

#[test]
fn build_needs_three_arguments() {
    let r = Config::build(&args(&["prog", "q"]), None);
    assert_eq!(r.err(), Some("not enough arguments"));
}

#[test]
fn build_reads_query_and_path() {
    let c = Config::build(&args(&["prog", "q", "poem.txt"]), None).ok().unwrap();
    assert_eq!(c.query, "q");
    assert_eq!(c.file_path, "poem.txt");
    assert!(!c.ignore_case);
}

#[test]
fn build_takes_ignore_word_from_fourth_argument() {
    for w in ["ig", "igc", "ignore", "ignore_case", "IGNORE_CASE"] {
        let c = Config::build(&args(&["prog", "q", "f", w]), None).ok().unwrap();
        assert!(c.ignore_case);
    }
    let c = Config::build(&args(&["prog", "q", "f", "other"]), None).ok().unwrap();
    assert!(!c.ignore_case);
}

#[test]
fn build_lets_the_variable_decide() {
    let c = Config::build(&args(&["prog", "q", "f", "ig"]), Some("0")).ok().unwrap();
    assert!(!c.ignore_case);
    let c = Config::build(&args(&["prog", "q", "f"]), Some("1")).ok().unwrap();
    assert!(c.ignore_case);
    let c = Config::build(&args(&["prog", "q", "f"]), Some("")).ok().unwrap();
    assert!(c.ignore_case);
}

#[test]
fn matching_lines_follows_the_setting() {
    let contents = "Rust:\nTrust me.\nrusty";
    let exact = Config { query: "rust".to_string(), file_path: String::new(), ignore_case: false };
    assert_eq!(vec!["Trust me.", "rusty"], matching_lines(&exact, contents));
    let folded = Config { query: "rust".to_string(), file_path: String::new(), ignore_case: true };
    assert_eq!(vec!["Rust:", "Trust me.", "rusty"], matching_lines(&folded, contents));
}
