use core::time::Duration;
use email::configuration::EmailClientSettings;
use email::configuration::Environment;
use email::secret::SecretString;

fn email_client_settings(sender: &str) -> EmailClientSettings {
    EmailClientSettings {
        base_url: String::from("https://provider.example"),
        sender_email: String::from(sender),
        authorization_token: SecretString::new(String::from("fake-authorization-token")),
        timeout_milliseconds: 10000,
    }
}

#[test]
fn environment_names_round_trip() {
    assert_eq!(Environment::Local.as_str(), "local");
    assert_eq!(Environment::Production.as_str(), "production");
    assert!(matches!(Environment::parse("local"), Ok(Environment::Local)));
    assert!(matches!(Environment::parse("production"), Ok(Environment::Production)));
}

#[test]
fn environment_parsing_ignores_ascii_case() {
    assert!(matches!(Environment::parse("LOCAL"), Ok(Environment::Local)));
    assert!(matches!(Environment::parse("Production"), Ok(Environment::Production)));
}

#[test]
fn environment_parsing_ignores_surrounding_whitespace() {
    assert!(matches!(Environment::parse("  local\n"), Ok(Environment::Local)));
    assert!(matches!(Environment::parse("\tPRODUCTION "), Ok(Environment::Production)));
}

#[test]
fn environment_parsing_trims_unicode_whitespace() {
    assert!(matches!(Environment::parse(" local\u{a0}"), Ok(Environment::Local)));
    assert!(matches!(Environment::parse("\u{2003}production\u{85}"), Ok(Environment::Production)));
}

#[test]
fn unknown_environments_are_rejected() {
    assert!(Environment::parse("staging").is_err());
    assert!(Environment::parse("").is_err());
}

#[test]
fn unknown_environment_errors_name_the_input() {
    let error = Environment::parse(" staging ").unwrap_err();
    assert_eq!(error, "staging is not a supported environment. Use either `local` or `production`.");
}

#[test]
fn a_valid_sender_address_is_accepted() {
    let settings = email_client_settings("postmaster@there.example");
    let sender = settings.sender_email().expect("a valid sender");
    assert_eq!(sender.as_str(), "postmaster@there.example");
}

#[test]
fn an_invalid_sender_address_is_rejected() {
    let settings = email_client_settings("not-an-email");
    assert!(settings.sender_email().is_err());
}

#[test]
fn the_timeout_comes_from_the_configured_milliseconds() {
    let settings = email_client_settings("postmaster@there.example");
    assert_eq!(settings.timeout_duration(), Duration::from_millis(10000));
}

#[test]
fn secrets_reveal_their_value_only_through_the_accessor() {
    let secret = SecretString::new(String::from("p4ssw0rd"));
    assert_eq!(secret.expose_secret(), "p4ssw0rd");
}
