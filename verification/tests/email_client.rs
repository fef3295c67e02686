use core::time::Duration;
use email::domain::SubscriberEmail;
use email::email_client::EmailClient;
use email::email_client::SendError;
use email::email_client::SendEvent;
use email::email_client::json_escape;
use email::email_client::send_email_result;
use email::secret::SecretString;

fn email_client(base_url: &str) -> EmailClient {
    EmailClient::new(
        String::from(base_url),
        SubscriberEmail::parse(String::from("sender@there.example")).unwrap(),
        SecretString::new(String::from("fake-authorization-token")),
        Duration::from_millis(200),
    )
}

#[test]
fn send_email_fires_a_request_to_base_url() {
    let client = email_client("https://provider.example");
    let recipient = SubscriberEmail::parse(String::from("to@there.example")).unwrap();
    let request = client.build_send_email_request(&recipient, "Hi", "<p>Body</p>", "Body");
    assert_eq!(request.url, "https://provider.example/email");
    assert_eq!(
        request.body,
        "{\"From\":\"sender@there.example\",\"To\":\"to@there.example\",\"Subject\":\"Hi\",\
         \"HtmlBody\":\"<p>Body</p>\",\"TextBody\":\"Body\"}"
    );
}

#[test]
fn request_bodies_escape_json_special_characters() {
    let client = email_client("https://provider.example");
    let recipient = SubscriberEmail::parse(String::from("to@there.example")).unwrap();
    let request = client.build_send_email_request(&recipient, "A \"quoted\" subject", "a\\b", "line\nbreak\u{1}");
    assert_eq!(
        request.body,
        "{\"From\":\"sender@there.example\",\"To\":\"to@there.example\",\
         \"Subject\":\"A \\\"quoted\\\" subject\",\"HtmlBody\":\"a\\\\b\",\
         \"TextBody\":\"line\\nbreak\\u0001\"}"
    );
}

#[test]
fn json_escape_handles_all_special_characters() {
    assert_eq!(json_escape("plain"), "plain");
    assert_eq!(json_escape("a\"b"), "a\\\"b");
    assert_eq!(json_escape("a\\b"), "a\\\\b");
    assert_eq!(json_escape("a\nb\rc\td"), "a\\nb\\rc\\td");
    assert_eq!(json_escape("\u{0}\u{1f}"), "\\u0000\\u001f");
}

#[test]
fn send_email_succeeds_if_the_server_returns_200() {
    let outcome = send_email_result(SendEvent::Responded(200));
    assert!(outcome.is_ok());
}

#[test]
fn send_email_fails_if_the_server_returns_500() {
    let outcome = send_email_result(SendEvent::Responded(500));
    assert_eq!(outcome, Err(SendError::ProviderRejected(500)));
}

#[test]
fn send_email_times_out_if_the_server_takes_too_long() {
    let outcome = send_email_result(SendEvent::TimedOut);
    assert_eq!(outcome, Err(SendError::Timeout));
}

#[test]
fn transport_failures_are_reported() {
    let outcome = send_email_result(SendEvent::TransportFailed);
    assert_eq!(outcome, Err(SendError::Transport));
}

#[test]
fn only_2xx_statuses_count_as_success() {
    assert_eq!(send_email_result(SendEvent::Responded(199)), Err(SendError::ProviderRejected(199)));
    assert!(send_email_result(SendEvent::Responded(204)).is_ok());
    assert!(send_email_result(SendEvent::Responded(299)).is_ok());
    assert_eq!(send_email_result(SendEvent::Responded(300)), Err(SendError::ProviderRejected(300)));
}

#[test]
fn the_client_keeps_its_configuration() {
    let client = email_client("https://provider.example");
    assert_eq!(client.sender().as_str(), "sender@there.example");
    assert_eq!(client.authorization_token().expose_secret(), "fake-authorization-token");
    assert_eq!(client.timeout(), Duration::from_millis(200));
}
