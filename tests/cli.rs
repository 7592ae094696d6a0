use lazy_locker::cli::{
    env_lines, flag_value, get_passphrase, has_flag, import_entries, init_step, parse_cli_args,
    parse_env_format, remove_token, token_value, InitStep, OutputFormat,
};
use lazy_locker::config::{AnalyzerSettings, Config};
use lazy_locker::error::VaultError;
use lazy_locker::store::SecretsStore;

fn test_key() -> [u8; 32] {
    [0x42u8; 32]
}

fn value_of<'a>(all: &'a [(String, String)], name: &str) -> Option<&'a String> {
    all.iter().rev().find(|(n, _)| n == name).map(|(_, v)| v)
}

fn strings(v: &[&str]) -> Vec<String> {
    v.iter().map(|s| s.to_string()).collect()
}

#[test]
fn test_parse_env_format() {
    let content = r#"
# Comment
DATABASE_URL=postgres://localhost/db
API_KEY="sk-123456"
SECRET='my_secret'
EMPTY=

SPACES = value with spaces
"#;

    let secrets = parse_env_format(content);

    assert_eq!(
        value_of(&secrets, "DATABASE_URL"),
        Some(&"postgres://localhost/db".to_string())
    );
    assert_eq!(value_of(&secrets, "API_KEY"), Some(&"sk-123456".to_string()));
    assert_eq!(value_of(&secrets, "SECRET"), Some(&"my_secret".to_string()));
    assert_eq!(value_of(&secrets, "EMPTY"), Some(&"".to_string()));
    assert_eq!(
        value_of(&secrets, "SPACES"),
        Some(&"value with spaces".to_string())
    );
}

#[test]
fn test_output_format_from_args() {
    assert_eq!(OutputFormat::from_args(false, false), OutputFormat::Human);
    assert_eq!(OutputFormat::from_args(true, false), OutputFormat::Json);
    assert_eq!(OutputFormat::from_args(false, true), OutputFormat::Env);
    assert_eq!(OutputFormat::from_args(true, true), OutputFormat::Json);
}

#[test]
fn test_default_config() {
    let config = Config::default();
    assert!(config.analyzer.enabled);
    assert_eq!(config.analyzer.timeout_ms, 500);
    assert_eq!(config.analyzer.max_files, 1000);
    assert!(config.analyzer.ignore_dirs.contains(&"node_modules".into()));
    assert!(config.analyzer.ignore_dirs.contains(&".venv".into()));
}

#[test]
fn test_should_analyze_depth() {
    let settings = AnalyzerSettings::default();

    assert!(!settings.should_analyze("/home", None));
    assert!(!settings.should_analyze("/home/user", None));

    assert!(settings.should_analyze("/home/user/project", None));
    assert!(settings.should_analyze("/home/user/project/src", None));
}

#[test]
fn test_should_analyze_disabled() {
    let mut settings = AnalyzerSettings::default();
    settings.enabled = false;

    assert!(!settings.should_analyze("/home/user/project", None));
}

#[test]
fn should_analyze_skips_home_and_skip_paths() {
    let mut settings = AnalyzerSettings::default();
    assert!(!settings.should_analyze("/home/user/project", Some("/home/user/project/")));
    settings.skip_paths = vec!["/srv".to_string(), "tmp".to_string()];
    assert!(!settings.should_analyze("/srv/a/b/c", None));
    assert!(!settings.should_analyze("/a/b/c/tmp", None));
    assert!(settings.should_analyze("/a/b/c/d", None));
}

#[test]
fn env_import_example_from_stdin() {
    let pairs = parse_env_format("A=1\nB=\"two\"\n# comment\n");
    assert_eq!(
        pairs,
        vec![
            ("A".to_string(), "1".to_string()),
            ("B".to_string(), "two".to_string())
        ]
    );
}

#[test]
fn env_lines_without_equals_or_name_are_skipped() {
    let pairs = parse_env_format("NOEQUALS\n=value\n  # indented comment\r\nK = 'v'\r\nQ=\"\nR=a=b\nK=later");
    assert_eq!(
        pairs,
        vec![
            ("K".to_string(), "v".to_string()),
            ("Q".to_string(), "\"".to_string()),
            ("R".to_string(), "a=b".to_string()),
            ("K".to_string(), "later".to_string()),
        ]
    );
    assert!(parse_env_format("").is_empty());
}

#[test]
fn cli_args_split_into_positional_and_flags() {
    let args = strings(&["add", "NAME", "--expires", "30", "--stdin", "--passphrase", "p", "VALUE", "--force"]);
    let (pos, flags) = parse_cli_args(&args);
    assert_eq!(pos, strings(&["add", "NAME", "VALUE"]));
    assert_eq!(flags.len(), 4);
    assert_eq!(flag_value(&flags, "expires"), Some(Some("30".to_string())));
    assert_eq!(flag_value(&flags, "stdin"), Some(None));
    assert_eq!(flag_value(&flags, "passphrase"), Some(Some("p".to_string())));
    assert!(has_flag(&flags, "force"));
    assert!(!has_flag(&flags, "json"));
    let (_, flags) = parse_cli_args(&strings(&["--json", "--json", "x", "----env"]));
    assert_eq!(flag_value(&flags, "json"), Some(Some("x".to_string())));
    assert!(has_flag(&flags, "env"));
}

#[test]
fn passphrase_argument_wins_over_environment() {
    assert_eq!(get_passphrase(Some("arg"), Some("env".to_string())), Ok("arg".to_string()));
    assert_eq!(get_passphrase(None, Some("env".to_string())), Ok("env".to_string()));
    assert_eq!(get_passphrase(None, None), Err(VaultError::BadArgument));
}

#[test]
fn init_refuses_existing_locker_without_force() {
    assert_eq!(init_step(false, false), InitStep::Create);
    assert_eq!(init_step(true, true), InitStep::Replace);
    assert_eq!(init_step(true, false), InitStep::Refuse);
}

#[test]
fn token_get_reports_missing_expired_and_value() {
    let key = test_key();
    let mut store = SecretsStore::new();
    let t = 1_000_000i64;
    store.add_secret_at("API_KEY".to_string(), "sk-abc".to_string(), Some(30), t, &key).unwrap();
    store.add_secret_at("OLD".to_string(), "x".to_string(), Some(0), t - 1, &key).unwrap();
    assert_eq!(token_value(&store, "API_KEY", &key, t), Ok("sk-abc".to_string()));
    assert_eq!(token_value(&store, "OLD", &key, t), Err(VaultError::Expired));
    assert_eq!(token_value(&store, "NOPE", &key, t), Err(VaultError::NotFound));
    assert_eq!(token_value(&store, "API_KEY", &[1u8; 32], t), Err(VaultError::Crypto));
}

#[test]
fn export_env_skips_expired_in_name_order() {
    let key = test_key();
    let mut store = SecretsStore::new();
    let t = 1_000_000i64;
    store.add_secret_at("B".to_string(), "two".to_string(), None, t, &key).unwrap();
    store.add_secret_at("A".to_string(), "1".to_string(), None, t, &key).unwrap();
    store.add_secret_at("C".to_string(), "gone".to_string(), Some(0), t - 1, &key).unwrap();
    assert_eq!(env_lines(&store, &key, t), Ok(strings(&["A=1", "B=two"])));
    assert_eq!(env_lines(&store, &[9u8; 32], t), Err(VaultError::Crypto));
}

#[test]
fn import_stores_pairs_in_order() {
    let key = test_key();
    let mut store = SecretsStore::new();
    let pairs = parse_env_format("A=1\nB=2\nA=3\n");
    assert_eq!(import_entries(&mut store, &pairs, Some(2), 100, &key), Ok(3));
    assert_eq!(store.secrets.len(), 2);
    assert_eq!(store.decrypt_secret("A", &key), Ok("3".to_string()));
    assert_eq!(store.get_secret("B").unwrap().expires_at, Some(100 + 2 * 86400));
}

#[test]
fn remove_missing_token_is_not_found() {
    let key = test_key();
    let mut store = SecretsStore::new();
    store.add_secret("A".to_string(), "1".to_string(), None, &key).unwrap();
    assert_eq!(remove_token(&mut store, "B"), Err(VaultError::NotFound));
    assert_eq!(remove_token(&mut store, "A"), Ok(()));
    assert!(store.secrets.is_empty());
}
