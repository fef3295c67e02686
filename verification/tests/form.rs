use email::email_client::SendEvent;
use email::routes::subscriptions::parse_form_body;
use email::routes::subscriptions::subscribe;
use email::store::SubscriberStatus;
use email::store::SubscriberStore;
use email::urlencoded::percent_decode;

#[test]
fn a_valid_body_binds_both_fields() {
    let form = parse_form_body("name=le%20guin&email=ursula_le_guin%40gmail.com")
        .expect("a valid body");
    assert_eq!(form.name, "le guin");
    assert_eq!(form.email, "ursula_le_guin@gmail.com");
}

#[test]
fn field_order_does_not_matter() {
    let form = parse_form_body("email=ursula_le_guin%40gmail.com&name=le%20guin")
        .expect("a valid body");
    assert_eq!(form.name, "le guin");
    assert_eq!(form.email, "ursula_le_guin@gmail.com");
}

#[test]
fn a_body_missing_the_email_field_is_rejected() {
    assert!(parse_form_body("name=le%20guin").is_none());
}

#[test]
fn a_body_missing_the_name_field_is_rejected() {
    assert!(parse_form_body("email=ursula_le_guin%40gmail.com").is_none());
}

#[test]
fn an_empty_body_is_rejected() {
    assert!(parse_form_body("").is_none());
}

#[test]
fn a_duplicate_field_is_rejected() {
    assert!(parse_form_body("name=a&name=b&email=ursula_le_guin%40gmail.com").is_none());
}

#[test]
fn an_invalid_percent_escape_is_rejected() {
    assert!(parse_form_body("name=le%2xguin&email=ursula_le_guin%40gmail.com").is_none());
    assert!(parse_form_body("name=le%2&email=ursula_le_guin%40gmail.com").is_none());
}

#[test]
fn unknown_fields_are_ignored() {
    let form = parse_form_body("hp=&name=le+guin&email=ursula_le_guin%40gmail.com")
        .expect("a valid body");
    assert_eq!(form.name, "le guin");
    assert_eq!(form.email, "ursula_le_guin@gmail.com");
}

#[test]
fn plus_decodes_to_a_space() {
    assert_eq!(percent_decode("le+guin").unwrap(), "le guin");
}

#[test]
fn percent_escapes_decode_to_their_character() {
    assert_eq!(percent_decode("a%20b%41%2f").unwrap(), "a bA/");
    assert_eq!(percent_decode("plain").unwrap(), "plain");
}

#[test]
fn the_raw_body_of_the_reference_scenario_reaches_the_store() {
    let mut store = SubscriberStore::new();
    let form = parse_form_body("name=le%20guin&email=ursula_le_guin%40gmail.com");
    let status = subscribe(&mut store, form, SendEvent::Responded(200));
    assert_eq!(status, 200);
    let saved = store.subscriber_at(0);
    assert_eq!(saved.email, "ursula_le_guin@gmail.com");
    assert_eq!(saved.name, "le guin");
    assert!(matches!(saved.status, SubscriberStatus::PendingConfirmation));
}

#[test]
fn a_body_with_a_missing_field_is_answered_400_and_nothing_is_stored() {
    let mut store = SubscriberStore::new();
    let form = parse_form_body("name=le%20guin");
    let status = subscribe(&mut store, form, SendEvent::Responded(200));
    assert_eq!(status, 400);
    assert_eq!(store.subscriber_count(), 0);
    assert_eq!(store.token_count(), 0);
}
