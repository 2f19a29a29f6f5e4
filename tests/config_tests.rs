use minigrep::{Config, ConfigError};

fn args(items: &[&str]) -> Vec<String> {
    items.iter().map(|s| s.to_string()).collect()
}

#[test]
fn config_new_valid_input() {
    assert_eq!(
        Config::new(args(&["minigrep", "nobody", "poem.txt"]), false),
        Ok(Config {
            query: "nobody".to_string(),
            filename: "poem.txt".to_string(),
            case_sensitive: true
        })
    );
}

#[test]
fn config_new_missing_query() {
    let vec: Vec<_> = vec!["minigrep".to_string()];
    assert_eq!(
        Config::new(vec, false).map_err(|e| e.message()),
        Err("Didn't get a query string")
    );
}

#[test]
fn config_new_missing_file_name() {
    let vec: Vec<_> = vec!["minigrep".to_string(), "nobody".to_string()];
    assert_eq!(
        Config::new(vec, false).map_err(|e| e.message()),
        Err("Didn't get a file name")
    );
}

#[test]
fn config_case_insensitive_flag() {
    let config = Config::new(args(&["minigrep", "to", "poem.txt", "extra"]), true).unwrap();
    assert!(!config.case_sensitive);
    assert_eq!(config.query, "to");
    assert_eq!(config.filename, "poem.txt");
}

#[test]
fn config_errors_by_kind() {
    assert_eq!(Config::new(vec![], false), Err(ConfigError::MissingQuery));
    assert_eq!(Config::new(args(&["minigrep"]), false), Err(ConfigError::MissingQuery));
    assert_eq!(Config::new(args(&["minigrep", ""]), false), Err(ConfigError::MissingFilename));
    assert_eq!(
        Config::new(args(&["minigrep", "", "poem.txt"]), false),
        Err(ConfigError::MissingQuery)
    );
    assert_eq!(Config::new(args(&["minigrep", "", ""]), false), Err(ConfigError::MissingQuery));
    assert_eq!(
        Config::new(args(&["minigrep", "nobody"]), true),
        Err(ConfigError::MissingFilename)
    );
    assert_eq!(
        Config::new(args(&["minigrep", "nobody", ""]), false),
        Err(ConfigError::MissingFilename)
    );
}
