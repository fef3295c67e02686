use email::email_client::SendEvent;
use email::routes::subscriptions::FormData;
use email::routes::subscriptions::subscribe;
use email::routes::subscriptions_confirm::Parameters;
use email::routes::subscriptions_confirm::confirm_subscription;
use email::store::SubscriberStatus;
use email::store::SubscriberStore;

fn store_with_one_pending_subscriber() -> SubscriberStore {
    let mut store = SubscriberStore::new();
    let form = FormData {
        name: String::from("le guin"),
        email: String::from("ursula_le_guin@gmail.com"),
    };
    let status = subscribe(&mut store, Some(form), SendEvent::Responded(200));
    assert_eq!(status, 200);
    store
}

#[test]
fn confirmation_without_token_is_rejected_with_a_400() {
    let mut store = store_with_one_pending_subscriber();
    let status = confirm_subscription(&mut store, None);
    assert_eq!(status, 400);
    assert!(matches!(store.subscriber_at(0).status, SubscriberStatus::PendingConfirmation));
}

#[test]
fn confirmation_with_unknown_token_is_unauthorized() {
    let mut store = store_with_one_pending_subscriber();
    let parameters = Parameters { subscription_token: String::from("not-an-issued-token") };
    let status = confirm_subscription(&mut store, Some(parameters));
    assert_eq!(status, 401);
    // No status change happened.
    assert!(matches!(store.subscriber_at(0).status, SubscriberStatus::PendingConfirmation));
}

#[test]
fn confirmation_with_issued_token_confirms_the_subscriber() {
    let mut store = store_with_one_pending_subscriber();
    let token = store.token_at(0).subscription_token.clone();
    let status = confirm_subscription(&mut store, Some(Parameters { subscription_token: token }));
    assert_eq!(status, 200);
    let saved = store.subscriber_at(0);
    assert_eq!(saved.email, "ursula_le_guin@gmail.com");
    assert!(matches!(saved.status, SubscriberStatus::Confirmed));
}

#[test]
fn repeating_a_confirmation_is_idempotent() {
    let mut store = store_with_one_pending_subscriber();
    let token = store.token_at(0).subscription_token.clone();
    let first = confirm_subscription(
        &mut store,
        Some(Parameters { subscription_token: token.clone() }),
    );
    let second = confirm_subscription(&mut store, Some(Parameters { subscription_token: token }));
    assert_eq!(first, 200);
    assert_eq!(second, 200);
    assert!(matches!(store.subscriber_at(0).status, SubscriberStatus::Confirmed));
    assert_eq!(store.subscriber_count(), 1);
    assert_eq!(store.token_count(), 1);
}

#[test]
fn confirmation_only_touches_the_matching_subscriber() {
    let mut store = store_with_one_pending_subscriber();
    let other = FormData { name: String::from("sparrowhawk"), email: String::from("ged@roke.example") };
    assert_eq!(subscribe(&mut store, Some(other), SendEvent::Responded(204)), 200);

    let first_token = store.token_at(0).subscription_token.clone();
    let status = confirm_subscription(
        &mut store,
        Some(Parameters { subscription_token: first_token }),
    );
    assert_eq!(status, 200);
    assert!(matches!(store.subscriber_at(0).status, SubscriberStatus::Confirmed));
    assert!(matches!(store.subscriber_at(1).status, SubscriberStatus::PendingConfirmation));
}
