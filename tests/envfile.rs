use std::collections::HashMap;
use termhub::envfile::{
    env_file_path, env_parse_result, has_env_file, has_envrc_file, parse_env_file,
    parse_env_pairs, parse_envrc_content, EnvFileKind,
};

#[test]
fn test_parse_env_file() {
    let content = r#"
# Comment line
KEY1=value1
KEY2="quoted value"
KEY3='single quoted'
EMPTY=
WITH_SPACES = spaced value
"#;
    let result = parse_env_file(content);
    assert_eq!(result.get("KEY1"), Some(&"value1".to_string()));
    assert_eq!(result.get("KEY2"), Some(&"quoted value".to_string()));
    assert_eq!(result.get("KEY3"), Some(&"single quoted".to_string()));
    assert_eq!(result.get("EMPTY"), Some(&"".to_string()));
}

#[test]
fn dotenv_trims_key_and_value() {
    let result = parse_env_file("  WITH_SPACES = spaced value  \r\n");
    assert_eq!(result.get("WITH_SPACES"), Some(&"spaced value".to_string()));
    assert_eq!(result.len(), 1);
}

#[test]
fn dotenv_later_key_wins() {
    let result = parse_env_file("A=1\nA=2\n");
    assert_eq!(result.get("A"), Some(&"2".to_string()));
    let pairs = parse_env_pairs("A=1\nA=2");
    assert_eq!(pairs, vec![("A".to_string(), "1".to_string()), ("A".to_string(), "2".to_string())]);
}

#[test]
fn dotenv_skips_comments_blank_and_malformed_lines() {
    let result = parse_env_file("# X=1\n\n   \nNOEQUALS\n=novalue\nB=2");
    let mut expected = HashMap::new();
    expected.insert("B".to_string(), "2".to_string());
    assert_eq!(result, expected);
}

#[test]
fn dotenv_empty_input() {
    assert!(parse_env_file("").is_empty());
    assert!(parse_env_pairs("\n\n").is_empty());
}

#[test]
fn dotenv_escapes_become_characters() {
    let result = parse_env_file("M=\"line1\\nline2\\tend\"");
    assert_eq!(result.get("M"), Some(&"line1\nline2\tend".to_string()));
}

#[test]
fn dotenv_value_keeps_later_equals_signs() {
    let result = parse_env_file("URL=a=b=c");
    assert_eq!(result.get("URL"), Some(&"a=b=c".to_string()));
}

#[test]
fn dotenv_lone_quote_is_kept() {
    let result = parse_env_file("Q=\"\nR='abc\"");
    assert_eq!(result.get("Q"), Some(&"\"".to_string()));
    assert_eq!(result.get("R"), Some(&"'abc\"".to_string()));
}

#[test]
fn envrc_reads_exports_and_reports_directives() {
    let (pairs, errors) = parse_envrc_content(
        "# comment\nexport A=1\nexport B=\"two words\"\nC=3\nsource_env ../.envrc\nuse nix\nexport =x\n",
    );
    assert_eq!(
        pairs,
        vec![("A".to_string(), "1".to_string()), ("B".to_string(), "two words".to_string())]
    );
    assert_eq!(
        errors,
        vec![
            "Unsupported direnv directive: source_env ../.envrc".to_string(),
            "Unsupported direnv directive: use nix".to_string(),
        ]
    );
}

#[test]
fn envrc_does_not_unescape() {
    let (pairs, errors) = parse_envrc_content("export P='a\\nb'");
    assert_eq!(pairs, vec![("P".to_string(), "a\\nb".to_string())]);
    assert!(errors.is_empty());
}

#[test]
fn parse_result_for_missing_file() {
    let r = env_parse_result(EnvFileKind::Dotenv, None);
    assert_eq!(r.source, ".env");
    assert!(r.env_vars.is_empty());
    assert!(r.errors.is_empty());
}

#[test]
fn parse_result_for_failed_read() {
    let r = env_parse_result(EnvFileKind::Envrc, Some(Err("denied".to_string())));
    assert_eq!(r.source, ".envrc");
    assert!(r.env_vars.is_empty());
    assert_eq!(r.errors, vec!["Failed to read .envrc: denied".to_string()]);
}

#[test]
fn parse_result_for_contents() {
    let r = env_parse_result(EnvFileKind::Envrc, Some(Ok("export K=v\nuse flake\n".to_string())));
    assert_eq!(r.env_vars.get("K"), Some(&"v".to_string()));
    assert_eq!(r.errors, vec!["Unsupported direnv directive: use flake".to_string()]);
    let d = env_parse_result(EnvFileKind::Dotenv, Some(Ok("K=v\nuse flake\n".to_string())));
    assert_eq!(d.env_vars.get("K"), Some(&"v".to_string()));
    assert!(d.errors.is_empty());
}

#[test]
fn env_file_paths_join_directory_and_name() {
    assert_eq!(env_file_path("/tmp/project", EnvFileKind::Dotenv), "/tmp/project/.env");
    assert_eq!(env_file_path("/tmp/project/", EnvFileKind::Envrc), "/tmp/project/.envrc");
}

#[test]
fn env_files_absent_in_missing_directory() {
    assert!(!has_env_file("/nonexistent/termhub/dir"));
    assert!(!has_envrc_file("/nonexistent/termhub/dir"));
}
