use email::email_client::SendEvent;
use email::hex::hex32_of;
use email::routes::subscriptions::FormData;
use email::routes::subscriptions::confirmation_link;
use email::routes::subscriptions::generate_subscription_token;
use email::routes::subscriptions::parse_subscriber_form;
use email::routes::subscriptions::subscribe;
use email::startup::ApplicationBaseUrl;
use email::store::SubscriberStatus;
use email::store::SubscriberStore;

fn valid_form() -> FormData {
    FormData { name: String::from("le guin"), email: String::from("ursula_le_guin@gmail.com") }
}

#[test]
fn subscribe_returns_200_for_valid_form_data() {
    let mut store = SubscriberStore::new();
    let status = subscribe(&mut store, Some(valid_form()), SendEvent::Responded(200));
    assert_eq!(status, 200);

    assert_eq!(store.subscriber_count(), 1);
    let saved = store.subscriber_at(0);
    assert_eq!(saved.email, "ursula_le_guin@gmail.com");
    assert_eq!(saved.name, "le guin");
    assert!(matches!(saved.status, SubscriberStatus::PendingConfirmation));

    assert_eq!(store.token_count(), 1);
    let token = store.token_at(0);
    assert_eq!(token.subscriber_id, saved.id);
    assert_eq!(token.subscription_token.len(), 32);
}

#[test]
fn subscribe_returns_400_when_data_is_missing() {
    let mut store = SubscriberStore::new();
    let status = subscribe(&mut store, None, SendEvent::Responded(200));
    assert_eq!(status, 400);
    assert_eq!(store.subscriber_count(), 0);
    assert_eq!(store.token_count(), 0);
}

#[test]
fn subscribe_returns_400_for_an_invalid_email() {
    let mut store = SubscriberStore::new();
    let form = FormData {
        name: String::from("le guin"),
        email: String::from("definitely-not-an-email"),
    };
    let status = subscribe(&mut store, Some(form), SendEvent::Responded(200));
    assert_eq!(status, 400);
    assert_eq!(store.subscriber_count(), 0);
}

#[test]
fn subscribe_returns_400_for_an_empty_name() {
    let mut store = SubscriberStore::new();
    let form = FormData { name: String::new(), email: String::from("ursula_le_guin@gmail.com") };
    let status = subscribe(&mut store, Some(form), SendEvent::Responded(200));
    assert_eq!(status, 400);
    assert_eq!(store.subscriber_count(), 0);
}

#[test]
fn subscribe_returns_500_when_the_provider_rejects_the_email() {
    let mut store = SubscriberStore::new();
    let status = subscribe(&mut store, Some(valid_form()), SendEvent::Responded(500));
    assert_eq!(status, 500);
    // The pending subscriber and its token stay in place.
    assert_eq!(store.subscriber_count(), 1);
    assert_eq!(store.token_count(), 1);
    assert!(matches!(store.subscriber_at(0).status, SubscriberStatus::PendingConfirmation));
}

#[test]
fn subscribe_returns_500_when_the_send_times_out() {
    let mut store = SubscriberStore::new();
    let status = subscribe(&mut store, Some(valid_form()), SendEvent::TimedOut);
    assert_eq!(status, 500);
    assert_eq!(store.subscriber_count(), 1);
}

#[test]
fn parse_subscriber_form_keeps_both_fields() {
    let parsed = parse_subscriber_form(valid_form()).expect("a valid form");
    assert_eq!(parsed.name.as_str(), "le guin");
    assert_eq!(parsed.email.as_str(), "ursula_le_guin@gmail.com");
}

#[test]
fn parse_subscriber_form_rejects_a_forbidden_name() {
    let form = FormData {
        name: String::from("le (guin)"),
        email: String::from("ursula_le_guin@gmail.com"),
    };
    assert!(parse_subscriber_form(form).is_err());
}

#[test]
fn hex_rendering_is_exact_and_least_significant_first() {
    assert_eq!(hex32_of(0), "0".repeat(32));
    assert_eq!(hex32_of(1), format!("1{}", "0".repeat(31)));
    assert_eq!(hex32_of(0xab), format!("ba{}", "0".repeat(30)));
    assert_eq!(hex32_of(u128::MAX), "f".repeat(32));
}

#[test]
fn the_name_error_comes_before_the_email_error() {
    let form = FormData { name: String::from("{bad}"), email: String::from("also-bad") };
    let error = parse_subscriber_form(form).unwrap_err();
    assert_eq!(error, "{bad} is not a valid subscriber name.");
}

#[test]
fn subscription_tokens_are_32_hex_chars() {
    let token = generate_subscription_token();
    assert_eq!(token.len(), 32);
    assert!(token.chars().all(|c| c.is_ascii_hexdigit() && !c.is_ascii_uppercase()));
}

#[test]
fn confirmation_links_embed_base_url_and_token() {
    let base_url = ApplicationBaseUrl(String::from("https://there.example"));
    let link = confirmation_link(&base_url, "abc123");
    assert_eq!(link, "https://there.example/subscriptions/confirm?subscription_token=abc123");
}
