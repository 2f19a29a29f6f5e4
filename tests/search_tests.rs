use minigrep::{search, search_with, select_by_keys, split_lines, Config};

#[test]
fn search_case_sensitive_no_result() {
    let query = "ductivity";
    let contents = "\
        Rust:\n\
        safe, fast, productive.\n\
        Pick three.";

    assert_eq!(search(query, contents), vec![] as Vec<&str>);
    assert_eq!(search(query, contents), <Vec<&str>>::new());
    assert_eq!(search(query, contents), Vec::new() as Vec<&str>);
}

#[test]
fn search_case_sensitive_one_result() {
    let query = "st";
    let contents = "\
        RUST:\n\
        safe, fast, productive.\n\
        Pick three.\n\
        Duct tape.";

    assert_eq!(search(query, contents), vec!["safe, fast, productive."]);
}

#[test]
fn search_case_sensitive_more_results() {
    let query = "st";
    let contents = "\
            Rust:\n\
            safe, fast, productive.\n\
            Pick three.";

    assert_eq!(
        search(query, contents),
        vec!["Rust:", "safe, fast, productive."]
    );
}

#[test]
fn search_case_insensitive() {
    let query = "rUsT";
    let contents = "\
        Rust:\n\
        safe, fast, productive.\n\
        Pick three.\n\
        Trust me.";

    assert_eq!(
        minigrep::search_case_insensitive(query, contents),
        vec!["Rust:", "Trust me."]
    );
}

#[test]
fn insensitive_no_result() {
    let contents = "Rust:\nsafe, fast, productive.\nPick three.";
    assert_eq!(
        minigrep::search_case_insensitive("ductivity", contents),
        Vec::<&str>::new()
    );
}

#[test]
fn empty_text_has_no_matches() {
    assert_eq!(search("x", ""), Vec::<&str>::new());
    assert_eq!(search("", ""), Vec::<&str>::new());
    assert_eq!(minigrep::search_case_insensitive("x", ""), Vec::<&str>::new());
}

#[test]
fn whole_line_query_matches_once() {
    assert_eq!(search("Pick three.", "Pick three."), vec!["Pick three."]);
    let contents = "Rust:\nPick three.\nTrust me.";
    assert_eq!(search("Pick three.", contents), vec!["Pick three."]);
}

#[test]
fn empty_query_matches_every_line() {
    assert_eq!(search("", "a\n\nb\n"), vec!["a", "", "b"]);
}

#[test]
fn line_endings() {
    assert_eq!(split_lines("a\r\nb\nc"), vec!["a", "b", "c"]);
    assert_eq!(split_lines("a\n"), vec!["a"]);
    assert_eq!(split_lines("\n"), vec![""]);
    assert_eq!(split_lines("a\r"), vec!["a\r"]);
    assert_eq!(split_lines("a\n\nb"), vec!["a", "", "b"]);
    assert_eq!(split_lines(""), Vec::<&str>::new());
    assert_eq!(split_lines("é\r\nü"), vec!["é", "ü"]);
}

#[test]
fn lines_keep_their_text() {
    assert_eq!(search("fast", "  safe, fast  \r\nno"), vec!["  safe, fast  "]);
}

#[test]
fn insensitive_covers_sensitive_example() {
    let contents = "Rust:\nsafe, fast, productive.\nPick three.\nTrust me.";
    let sensitive = search("st", contents);
    let insensitive = minigrep::search_case_insensitive("st", contents);
    assert_eq!(sensitive, vec!["Rust:", "safe, fast, productive.", "Trust me."]);
    for line in &sensitive {
        assert!(insensitive.contains(line));
    }
}

#[test]
fn lowercase_depends_on_context() {
    // A final sigma lowercases differently from a lone one.
    assert_eq!(search("Σ", "AΣ"), vec!["AΣ"]);
    assert_eq!(minigrep::search_case_insensitive("Σ", "AΣ"), Vec::<&str>::new());
}

#[test]
fn repeated_search_is_same() {
    let contents = "Rust:\nsafe, fast, productive.\nPick three.";
    assert_eq!(search("st", contents), search("st", contents));
    assert_eq!(
        minigrep::search_case_insensitive("RU", contents),
        minigrep::search_case_insensitive("RU", contents)
    );
}

#[test]
fn search_with_follows_mode() {
    let contents = "Rust:\nsafe, fast, productive.\nPick three.\nTrust me.";
    let mut config = Config {
        query: "rUsT".to_string(),
        filename: "poem.txt".to_string(),
        case_sensitive: true,
    };
    assert_eq!(search_with(&config, contents), Vec::<&str>::new());
    config.case_sensitive = false;
    assert_eq!(search_with(&config, contents), vec!["Rust:", "Trust me."]);
}

#[test]
fn select_by_keys_uses_keys() {
    let lines = vec!["One", "Two", "Three"];
    let keys = vec!["one".to_string(), "two".to_string(), "three".to_string()];
    assert_eq!(select_by_keys("o", &lines, &keys), vec!["One", "Two"]);
    assert_eq!(select_by_keys("T", &lines, &keys), Vec::<&str>::new());
}
