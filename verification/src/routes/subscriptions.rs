//! The intake handler: validated intake of a new subscriber, persisted
//! pending state, token issuance, and the response decision.
//!
//! The pipeline is Received, Validated, Persisted, TokenIssued,
//! NotificationSent, Responded. A validation failure answers 400 before
//! anything is persisted; a persistence failure answers 500; a failed
//! notification answers 500 but leaves the pending subscriber and its
//! token in place, so only a new signup attempt can recover the
//! subscriber. The outbound HTTP exchange itself is the host's job; the
//! handler takes what the host observed as an event.

use crate::domain::NewSubscriber;
use crate::domain::SubscriberEmail;
use crate::domain::SubscriberName;
use crate::domain::valid_subscriber_email;
use crate::domain::valid_subscriber_name;
use crate::email_client::SendError;
use crate::email_client::SendEvent;
use crate::email_client::send_email_result;
use crate::email_client::spec_send_email_result;
use crate::hex::hex32_of;
use crate::hex::is_hex_digit_char;
use crate::random::random_u128;
use crate::startup::ApplicationBaseUrl;
use crate::store::StoreError;
use crate::store::SubscriberStore;
use crate::urlencoded::decoded_pair;
use crate::urlencoded::percent_decode;
use crate::urlencoded::split_form_segments;
use crate::urlencoded::split_segment_pair;
use crate::urlencoded::split_segments;
use vstd::prelude::*;

verus! {

/// The raw, untrusted form fields of a subscription request.
pub struct FormData {
    pub name: String,
    pub email: String,
}

/// Parses raw form fields into a validated subscriber. Succeeds exactly
/// when both fields satisfy their grammars, and keeps both texts
/// unchanged; on failure it carries the first failing parse's error, the
/// name being checked before the email.
pub fn parse_subscriber_form(form: FormData) -> (r: Result<NewSubscriber, String>)
    ensures
        r is Ok <==> valid_subscriber_name(form.name@) && valid_subscriber_email(form.email@),
        r is Ok ==> r->Ok_0.name@ == form.name@ && r->Ok_0.email@ == form.email@,
        r is Err ==> r->Err_0@ == (if !valid_subscriber_name(form.name@) {
            form.name@ + (" is not a valid subscriber name.")@
        } else {
            form.email@ + (" is not a valid subscriber email.")@
        }),
{
    let name = match SubscriberName::parse(form.name) {
        Ok(name) => name,
        Err(e) => {
            return Err(e);
        },
    };
    let email = match SubscriberEmail::parse(form.email) {
        Ok(email) => email,
        Err(e) => {
            return Err(e);
        },
    };
    Ok(NewSubscriber { email, name })
}

/// A fresh confirmation token: the exact hexadecimal rendering
/// (`hex32_of`) of one draw from a cryptographically secure random source,
/// so the token keeps all 128 drawn bits and is not guessable. Which value
/// was drawn cannot be promised, so the contract gives the shape alone.
pub fn generate_subscription_token() -> (t: String)
    ensures
        t@.len() == 32,
        forall|i: int| 0 <= i < t@.len() ==> is_hex_digit_char(t@[i]),
{
    hex32_of(random_u128())
}

/// The confirmation link sent to a new subscriber: the public base URL
/// followed by the confirmation route and the token as its query
/// parameter.
pub fn confirmation_link(base_url: &ApplicationBaseUrl, subscription_token: &str) -> (r: String)
    ensures
        r@ == base_url.0@ + ("/subscriptions/confirm?subscription_token=")@ + subscription_token@,
{
    let mut out = base_url.0.clone();
    out.append("/subscriptions/confirm?subscription_token=");
    out.append(subscription_token);
    out
}

/// What happened at each stage of the intake pipeline, as its handler
/// sees it.
pub enum IntakeEvent {
    /// The form fields were missing or failed validation.
    InvalidForm,
    /// A persistence step failed.
    StoreFailed(StoreError),
    /// The confirmation email could not be sent.
    SendFailed(SendError),
    /// Every step succeeded.
    Completed,
}

/// The one place intake outcomes are turned into HTTP status codes:
/// an invalid form is the client's fault (400); a store or send failure
/// is answered 500; success is answered 200.
pub fn intake_status(event: &IntakeEvent) -> (status: u16)
    ensures
        match event {
            IntakeEvent::InvalidForm => status == 400,
            IntakeEvent::StoreFailed(_) => status == 500,
            IntakeEvent::SendFailed(_) => status == 500,
            IntakeEvent::Completed => status == 200,
        },
{
    match event {
        IntakeEvent::InvalidForm => 400,
        IntakeEvent::StoreFailed(_) => 500,
        IntakeEvent::SendFailed(_) => 500,
        IntakeEvent::Completed => 200,
    }
}

/// The form fields are present and both pass validation.
pub open spec fn spec_valid_subscription_form(form: Option<FormData>) -> bool {
    match form {
        Some(f) => valid_subscriber_name(f.name@) && valid_subscriber_email(f.email@),
        None => false,
    }
}

/// The whole intake pipeline against a store. `form` is `None` when the
/// request body did not bind to the two form fields; `send_event` is what
/// the host observed when it dispatched the confirmation email.
///
/// Exactly the invalid inputs are answered 400, and they leave the store
/// untouched. A valid input always appends one pending record carrying the
/// given name and email; its confirmation token is stored unless the
/// fresh token collides with a stored one, which is answered 500. The
/// answer is 200 exactly when the record and token are in place and the
/// provider accepted the email; a failed send is answered 500 but keeps
/// record and token.
pub fn subscribe(
    store: &mut SubscriberStore,
    form: Option<FormData>,
    send_event: SendEvent,
) -> (status: u16)
    requires
        old(store).wf(),
    ensures
        final(store).wf(),
        status == 200 || status == 400 || status == 500,
        (status == 400) <==> !spec_valid_subscription_form(form),
        !spec_valid_subscription_form(form) ==> final(store)@.subscribers
            == old(store)@.subscribers && final(store)@.tokens == old(store)@.tokens,
        spec_valid_subscription_form(form) ==> {
            &&& final(store)@.subscribers.len() == old(store)@.subscribers.len() + 1
            &&& (forall|i: int|
                0 <= i < old(store)@.subscribers.len()
                    ==> final(store)@.subscribers[i] == old(store)@.subscribers[i])
            &&& final(store)@.subscribers.last().name == form.unwrap().name@
            &&& final(store)@.subscribers.last().email == form.unwrap().email@
            &&& final(store)@.subscribers.last().status is PendingConfirmation
            &&& final(store)@.tokens.len() <= old(store)@.tokens.len() + 1
            &&& (forall|i: int|
                0 <= i < old(store)@.tokens.len()
                    ==> final(store)@.tokens[i] == old(store)@.tokens[i])
            &&& (final(store)@.tokens.len() == old(store)@.tokens.len() + 1
                ==> final(store)@.tokens.last().subscriber_id
                    == final(store)@.subscribers.last().id
                    && final(store)@.tokens.last().subscription_token.len() == 32)
        },
        (status == 200) <==> (spec_valid_subscription_form(form) && final(store)@.tokens.len()
            == old(store)@.tokens.len() + 1 && spec_send_email_result(send_event) is Ok),
{
    let form_data = match form {
        Some(form_data) => form_data,
        None => {
            return intake_status(&IntakeEvent::InvalidForm);
        },
    };
    let new_subscriber = match parse_subscriber_form(form_data) {
        Ok(new_subscriber) => new_subscriber,
        Err(_) => {
            return intake_status(&IntakeEvent::InvalidForm);
        },
    };
    let subscriber_id = store.insert_subscriber(&new_subscriber);
    let subscription_token = generate_subscription_token();
    match store.store_token(subscriber_id, subscription_token) {
        Ok(()) => {},
        Err(e) => {
            return intake_status(&IntakeEvent::StoreFailed(e));
        },
    }
    match send_email_result(send_event) {
        Ok(()) => intake_status(&IntakeEvent::Completed),
        Err(e) => intake_status(&IntakeEvent::SendFailed(e)),
    }
}

} // verus!

verus! {

/// The decoded key of one segment, when the segment decodes at all.
pub open spec fn decoded_key(p: Seq<char>) -> Option<Seq<char>> {
    match decoded_pair(p) {
        Some(kv) => Some(kv.0),
        None => None,
    }
}

/// Every segment of the body decodes.
pub open spec fn form_decodes(s: Seq<char>) -> bool {
    forall|i: int|
        0 <= i < split_segments(s).len() ==> decoded_pair(#[trigger] split_segments(s)[i]) is Some
}

/// Segment `i` carries `key`, and no other segment does.
pub open spec fn unique_key_at(s: Seq<char>, key: Seq<char>, i: int) -> bool {
    &&& 0 <= i < split_segments(s).len()
    &&& decoded_key(split_segments(s)[i]) == Some(key)
    &&& forall|j: int|
        0 <= j < split_segments(s).len() && j != i ==> decoded_key(#[trigger] split_segments(s)[j])
            != Some(key)
}

/// Exactly one segment carries `key`.
pub open spec fn has_unique_key(s: Seq<char>, key: Seq<char>) -> bool {
    exists|i: int| unique_key_at(s, key, i)
}

/// Some segment decodes to exactly this key and value.
pub open spec fn has_form_value(s: Seq<char>, key: Seq<char>, value: Seq<char>) -> bool {
    exists|i: int|
        0 <= i < split_segments(s).len() && decoded_pair(#[trigger] split_segments(s)[i]) == Some(
            (key, value),
        )
}

/// A body binds to the form exactly when every segment decodes and the
/// `name` and `email` keys each occur exactly once; other keys are
/// ignored.
pub open spec fn spec_form_body_valid(s: Seq<char>) -> bool {
    &&& form_decodes(s)
    &&& has_unique_key(s, ("name")@)
    &&& has_unique_key(s, ("email")@)
}

/// Binds a raw urlencoded body to the form fields: `Some` exactly on the
/// bodies `spec_form_body_valid` accepts, carrying the decoded values of
/// the unique `name` and `email` keys.
pub fn parse_form_body(body: &str) -> (r: Option<FormData>)
    ensures
        r is Some <==> spec_form_body_valid(body@),
        r is Some ==> has_form_value(body@, ("name")@, r.unwrap().name@) && has_form_value(
            body@,
            ("email")@,
            r.unwrap().email@,
        ),
{
    proof {
        reveal_strlit("name");
        reveal_strlit("email");
        assert(("name")@.len() != ("email")@.len());
    }
    let segments = split_form_segments(body);
    let n = segments.len();
    let name_key = String::from_str("name");
    let email_key = String::from_str("email");
    let mut name_value: Option<String> = None;
    let mut email_value: Option<String> = None;
    let ghost segs = split_segments(body@);
    let ghost mut name_idx: int = 0;
    let ghost mut email_idx: int = 0;
    let mut i: usize = 0;
    while i < n
        invariant
            0 <= i <= n,
            n == segs.len(),
            segs == split_segments(body@),
            segments@.len() == segs.len(),
            forall|k: int| 0 <= k < segs.len() ==> #[trigger] segments@[k]@ == segs[k],
            name_key@ == ("name")@,
            email_key@ == ("email")@,
            ("name")@ != ("email")@,
            forall|j: int| 0 <= j < i ==> decoded_pair(#[trigger] segs[j]) is Some,
            match name_value {
                Some(nv) => 0 <= name_idx < i && decoded_pair(segs[name_idx]) == Some(
                    (("name")@, nv@),
                ) && forall|j: int|
                    0 <= j < i && j != name_idx ==> decoded_key(#[trigger] segs[j]) != Some(
                        ("name")@,
                    ),
                None => forall|j: int|
                    0 <= j < i ==> decoded_key(#[trigger] segs[j]) != Some(("name")@),
            },
            match email_value {
                Some(ev) => 0 <= email_idx < i && decoded_pair(segs[email_idx]) == Some(
                    (("email")@, ev@),
                ) && forall|j: int|
                    0 <= j < i && j != email_idx ==> decoded_key(#[trigger] segs[j]) != Some(
                        ("email")@,
                    ),
                None => forall|j: int|
                    0 <= j < i ==> decoded_key(#[trigger] segs[j]) != Some(("email")@),
            },
        decreases n - i,
    {
        let kv = split_segment_pair(segments[i].as_str());
        let dk = match percent_decode(kv.0.as_str()) {
            Some(dk) => dk,
            None => {
                proof {
                    assert(decoded_pair(segs[i as int]) is None);
                }
                return None;
            },
        };
        let dv = match percent_decode(kv.1.as_str()) {
            Some(dv) => dv,
            None => {
                proof {
                    assert(decoded_pair(segs[i as int]) is None);
                }
                return None;
            },
        };
        proof {
            assert(decoded_pair(segs[i as int]) == Some((dk@, dv@)));
        }
        if dk.eq(&name_key) {
            if name_value.is_some() {
                proof {
                    assert(decoded_key(segs[name_idx]) == Some(("name")@));
                    assert(decoded_key(segs[i as int]) == Some(("name")@));
                    assert forall|k: int| !unique_key_at(body@, ("name")@, k) by {
                        if k == name_idx {
                            assert(decoded_key(segs[i as int]) == Some(("name")@));
                        } else {
                            assert(decoded_key(segs[name_idx]) == Some(("name")@));
                        }
                    }
                }
                return None;
            }
            name_value = Some(dv);
            proof {
                name_idx = i as int;
            }
        } else if dk.eq(&email_key) {
            if email_value.is_some() {
                proof {
                    assert(decoded_key(segs[email_idx]) == Some(("email")@));
                    assert(decoded_key(segs[i as int]) == Some(("email")@));
                    assert forall|k: int| !unique_key_at(body@, ("email")@, k) by {
                        if k == email_idx {
                            assert(decoded_key(segs[i as int]) == Some(("email")@));
                        } else {
                            assert(decoded_key(segs[email_idx]) == Some(("email")@));
                        }
                    }
                }
                return None;
            }
            email_value = Some(dv);
            proof {
                email_idx = i as int;
            }
        } else {
            proof {
                assert(decoded_key(segs[i as int]) == Some(dk@));
            }
        }
        i += 1;
    }
    let name = match name_value {
        Some(name) => name,
        None => {
            proof {
                assert forall|k: int| !unique_key_at(body@, ("name")@, k) by {}
            }
            return None;
        },
    };
    let email = match email_value {
        Some(email) => email,
        None => {
            proof {
                assert forall|k: int| !unique_key_at(body@, ("email")@, k) by {}
            }
            return None;
        },
    };
    proof {
        assert(unique_key_at(body@, ("name")@, name_idx));
        assert(unique_key_at(body@, ("email")@, email_idx));
        assert(decoded_pair(segs[name_idx]) == Some((("name")@, name@)));
        assert(decoded_pair(segs[email_idx]) == Some((("email")@, email@)));
    }
    Some(FormData { name, email })
}

} // verus!
