use imap_fetcher::error_imap::ClientError;
use imap_fetcher::input::{normalize_input, prompt_imap_config, validate_email, validate_password, ImapConfig};

#[test]
fn default_config() {
    let c = ImapConfig::new();
    assert!(c.email.is_empty() && c.password.is_empty() && c.dir_path.is_empty());
    assert_eq!(c.max_concurrent, 5);
    assert_eq!(ImapConfig::determine_optimal_concurrency(), 5);
}

#[test]
fn email_checks() {
    assert!(validate_email("someone@example.com").is_ok());
    assert!(matches!(validate_email(""), Err(ClientError::EmptyInput { field }) if field == "email"));
    assert!(matches!(validate_email("someone.example.com"), Err(ClientError::InputError(m)) if m == "Invalid email format"));
    assert!(matches!(validate_email("someone@example"), Err(ClientError::InputError(_))));
}

#[test]
fn password_checks() {
    assert!(validate_password("x").is_ok());
    assert!(matches!(validate_password(""), Err(ClientError::EmptyInput { field }) if field == "password"));
}

#[test]
fn config_from_answers() {
    let c = prompt_imap_config("a@b.c".to_string(), "pw".to_string(), "/tmp/mail".to_string()).ok().unwrap();
    assert_eq!(c.email, "a@b.c");
    assert_eq!(c.password, "pw");
    assert_eq!(c.dir_path, "/tmp/mail");
    assert_eq!(c.max_concurrent, 5);
    assert!(matches!(
        prompt_imap_config("a@b.c".to_string(), String::new(), "/tmp".to_string()),
        Err(ClientError::EmptyInput { field }) if field == "password"
    ));
    assert!(matches!(
        prompt_imap_config("ab".to_string(), String::new(), "/tmp".to_string()),
        Err(ClientError::InputError(_))
    ));
}

#[test]
fn typed_input_loses_its_white_space() {
    assert_eq!(normalize_input("  me@example.com \n").unwrap(), "me@example.com");
    assert_eq!(normalize_input("a b\tc\u{3000}d").unwrap(), "abcd");
    assert!(matches!(normalize_input(" \t\r\n"), Err(ClientError::EmptyInput { field }) if field == "input"));
    assert!(matches!(normalize_input(""), Err(ClientError::EmptyInput { .. })));
}

#[test]
fn unicode_white_space_is_removed() {
    assert_eq!(normalize_input("a\u{a0}b\u{2028}c\u{85}d\u{200b}e").unwrap(), "abcd\u{200b}e");
}
