use email::domain::SubscriberEmail;
use email::domain::SubscriberName;

#[test]
fn a_valid_name_is_parsed_successfully() {
    let name = SubscriberName::parse(String::from("le guin")).expect("a valid name");
    assert_eq!(name.as_str(), "le guin");
}

#[test]
fn a_256_char_long_name_is_valid() {
    let raw = "a".repeat(256);
    let name = SubscriberName::parse(raw.clone()).expect("a valid name");
    assert_eq!(name.as_str(), raw.as_str());
}

#[test]
fn a_name_longer_than_256_chars_is_rejected() {
    let raw = "a".repeat(257);
    assert!(SubscriberName::parse(raw).is_err());
}

#[test]
fn whitespace_only_names_are_rejected() {
    assert!(SubscriberName::parse(String::from(" \t\r\n ")).is_err());
}

#[test]
fn empty_string_is_rejected() {
    assert!(SubscriberName::parse(String::new()).is_err());
}

#[test]
fn names_containing_an_invalid_character_are_rejected() {
    for forbidden in ["/", "(", ")", "\"", "<", ">", "\\", "{", "}"] {
        let raw = format!("le{}guin", forbidden);
        assert!(SubscriberName::parse(raw).is_err());
    }
}

#[test]
fn names_containing_a_control_character_are_rejected() {
    assert!(SubscriberName::parse(String::from("le\u{7}guin")).is_err());
    assert!(SubscriberName::parse(String::from("le\u{7f}guin")).is_err());
}

#[test]
fn names_of_only_unicode_whitespace_are_rejected() {
    assert!(SubscriberName::parse(String::from("\u{a0}")).is_err());
    assert!(SubscriberName::parse(String::from("\u{2003}\u{2003}")).is_err());
    assert!(SubscriberName::parse(String::from(" \u{a0}\u{3000}\u{85} ")).is_err());
}

#[test]
fn name_errors_name_the_input() {
    let error = SubscriberName::parse(String::from("le/guin")).unwrap_err();
    assert_eq!(error, "le/guin is not a valid subscriber name.");
}

#[test]
fn email_errors_name_the_input() {
    let error = SubscriberEmail::parse(String::from("ursula-at-gmail.com")).unwrap_err();
    assert_eq!(error, "ursula-at-gmail.com is not a valid subscriber email.");
}

#[test]
fn unicode_names_are_accepted() {
    let name = SubscriberName::parse(String::from("Ursula Kröber Le Guin")).expect("a valid name");
    assert_eq!(name.as_str(), "Ursula Kröber Le Guin");
}

#[test]
fn a_valid_email_is_parsed_successfully() {
    let email =
        SubscriberEmail::parse(String::from("ursula_le_guin@gmail.com")).expect("a valid email");
    assert_eq!(email.as_str(), "ursula_le_guin@gmail.com");
}

#[test]
fn empty_email_is_rejected() {
    assert!(SubscriberEmail::parse(String::new()).is_err());
}

#[test]
fn email_missing_at_symbol_is_rejected() {
    assert!(SubscriberEmail::parse(String::from("ursula_le_guin.gmail.com")).is_err());
}

#[test]
fn email_missing_domain_dot_is_rejected() {
    assert!(SubscriberEmail::parse(String::from("ursula@gmail")).is_err());
}

#[test]
fn email_missing_local_part_is_rejected() {
    assert!(SubscriberEmail::parse(String::from("@gmail.com")).is_err());
}

#[test]
fn email_with_two_at_symbols_is_rejected() {
    assert!(SubscriberEmail::parse(String::from("ursula@le@gmail.com")).is_err());
}
