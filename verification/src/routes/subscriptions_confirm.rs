//! The confirmation handler: resolves a confirmation token and moves the
//! matching subscriber to `Confirmed`.
//!
//! The pipeline is TokenReceived, Resolved, then Confirmed or Rejected. A
//! missing or malformed query parameter is answered 400; an unknown token
//! 401; a store failure 500; success 200. Confirming twice is idempotent.

use crate::store::StoreError;
use crate::store::SubscriberStore;
use crate::store::has_token;
use crate::store::spec_confirm;
use vstd::prelude::*;

verus! {

/// The query parameters of a confirmation request.
pub struct Parameters {
    pub subscription_token: String,
}

/// What happened at each stage of the confirmation pipeline, as its
/// handler sees it.
pub enum ConfirmationEvent {
    /// The query parameter was missing or malformed.
    MissingToken,
    /// No stored token matches the presented one.
    UnknownToken,
    /// A persistence step failed.
    StoreFailed(StoreError),
    /// The subscriber was marked confirmed.
    Confirmed,
}

/// The one place confirmation outcomes are turned into HTTP status codes:
/// a missing token is the client's fault (400); an unknown token is
/// rejected as unauthorized (401); a store failure is answered 500;
/// success is answered 200.
pub fn confirmation_status(event: &ConfirmationEvent) -> (status: u16)
    ensures
        match event {
            ConfirmationEvent::MissingToken => status == 400,
            ConfirmationEvent::UnknownToken => status == 401,
            ConfirmationEvent::StoreFailed(_) => status == 500,
            ConfirmationEvent::Confirmed => status == 200,
        },
{
    match event {
        ConfirmationEvent::MissingToken => 400,
        ConfirmationEvent::UnknownToken => 401,
        ConfirmationEvent::StoreFailed(_) => 500,
        ConfirmationEvent::Confirmed => 200,
    }
}

/// The whole confirmation pipeline against a store. `parameters` is
/// `None` when the query string did not bind to the token parameter.
///
/// A missing parameter is answered 400 and an unknown token 401, both
/// leaving the store untouched. A known token is answered 200: every
/// record with the token's subscriber id is confirmed, everything else,
/// the token table included, is untouched. Repeating the call with the
/// same token is answered 200 again and changes nothing more.
pub fn confirm_subscription(
    store: &mut SubscriberStore,
    parameters: Option<Parameters>,
) -> (status: u16)
    requires
        old(store).wf(),
    ensures
        final(store).wf(),
        final(store)@.tokens == old(store)@.tokens,
        status == 200 || status == 400 || status == 401,
        match parameters {
            None => status == 400 && final(store)@.subscribers == old(store)@.subscribers,
            Some(p) => {
                if has_token(old(store)@.tokens, p.subscription_token@) {
                    &&& status == 200
                    &&& exists|i: int|
                        0 <= i < old(store)@.tokens.len()
                            && #[trigger] old(store)@.tokens[i].subscription_token
                            == p.subscription_token@ && final(store)@.subscribers =~= spec_confirm(
                            old(store)@.subscribers,
                            old(store)@.tokens[i].subscriber_id,
                        )
                } else {
                    status == 401 && final(store)@.subscribers == old(store)@.subscribers
                }
            },
        },
{
    let parameters = match parameters {
        Some(parameters) => parameters,
        None => {
            return confirmation_status(&ConfirmationEvent::MissingToken);
        },
    };
    let subscriber_id = match store.get_subscriber_id_from_token(&parameters.subscription_token) {
        Some(subscriber_id) => subscriber_id,
        None => {
            return confirmation_status(&ConfirmationEvent::UnknownToken);
        },
    };
    store.confirm_subscriber(subscriber_id);
    confirmation_status(&ConfirmationEvent::Confirmed)
}

} // verus!
