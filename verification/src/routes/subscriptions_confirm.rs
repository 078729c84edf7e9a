//! Confirming a subscription by its token.

use crate::idempotency::persistence::{HeaderView, Response, ResponseView};
use vstd::prelude::*;
use vstd::string::*;

verus! {

/// The query parameters of a confirmation link.
#[derive(Debug)]
pub struct Parameters {
    pub subscription_token: String,
}

/// Which step of a confirmation failed in the store.
#[derive(Clone, Copy, Debug, PartialEq, Eq, Structural)]
pub enum ConfirmCause {
    TokenLookup,
    SubscriberUpdate,
}

/// Why a subscription was not confirmed.
#[derive(Clone, Copy, Debug, PartialEq, Eq, Structural)]
pub enum ConfirmSubscriberError {
    /// No subscriber has this token.
    UnauthorizedError,
    /// The store failed.
    UnexpectedError(ConfirmCause),
}

/// What a confirmation error says.
pub open spec fn confirm_error_text(error: ConfirmSubscriberError) -> Seq<char> {
    match error {
        ConfirmSubscriberError::UnauthorizedError => "Unauthorized"@,
        ConfirmSubscriberError::UnexpectedError(ConfirmCause::TokenLookup) => {
            "Failed to query the subscription tokens table to get the subscriber_id"@
        },
        ConfirmSubscriberError::UnexpectedError(ConfirmCause::SubscriberUpdate) => {
            "Failed to update subscriptions table to confirm subscriber"@
        },
    }
}

impl ConfirmSubscriberError {
    /// What the error says.
    pub fn message(&self) -> (text: String)
        ensures
            text@ == confirm_error_text(*self),
    {
        match self {
            ConfirmSubscriberError::UnauthorizedError => String::from_str("Unauthorized"),
            ConfirmSubscriberError::UnexpectedError(ConfirmCause::TokenLookup) => String::from_str(
                "Failed to query the subscription tokens table to get the subscriber_id",
            ),
            ConfirmSubscriberError::UnexpectedError(ConfirmCause::SubscriberUpdate) => {
                String::from_str("Failed to update subscriptions table to confirm subscriber")
            },
        }
    }

    /// The status code that reports this error: 401 for an unknown token,
    /// 500 for a failure of the store.
    pub fn status_code(&self) -> (code: u16)
        ensures
            code == match *self {
                ConfirmSubscriberError::UnauthorizedError => 401u16,
                ConfirmSubscriberError::UnexpectedError(_) => 500u16,
            },
    {
        match self {
            ConfirmSubscriberError::UnauthorizedError => 401,
            ConfirmSubscriberError::UnexpectedError(_) => 500,
        }
    }
}

/// The subscriber that a confirmation confirms, given what the lookup of
/// its token brought: the one found, and an error where none has the token
/// or the lookup failed.
pub open spec fn subscriber_to_confirm(lookup: Result<Option<u128>, ConfirmCause>) -> Result<
    u128,
    ConfirmSubscriberError,
> {
    match lookup {
        Ok(Some(subscriber_id)) => Ok(subscriber_id),
        Ok(None) => Err(ConfirmSubscriberError::UnauthorizedError),
        Err(cause) => Err(ConfirmSubscriberError::UnexpectedError(cause)),
    }
}

/// An empty response with status 200.
pub open spec fn ok_view() -> ResponseView {
    ResponseView { status_code: 200, headers: Seq::empty(), body: Seq::empty() }
}

/// Decides a confirmation from the lookup of its token: the subscriber to
/// mark as confirmed, or the error to answer with.
pub fn confirm(lookup: Result<Option<u128>, ConfirmCause>) -> (r: Result<
    u128,
    ConfirmSubscriberError,
>)
    ensures
        r == subscriber_to_confirm(lookup),
{
    match lookup {
        Ok(Some(subscriber_id)) => Ok(subscriber_id),
        Ok(None) => Err(ConfirmSubscriberError::UnauthorizedError),
        Err(cause) => Err(ConfirmSubscriberError::UnexpectedError(cause)),
    }
}

/// An empty response with status 200.
pub fn ok_response() -> (response: Response)
    ensures
        response@ == ok_view(),
        response.wf(),
{
    let response = Response { status_code: 200, headers: Vec::new(), body: Vec::new() };
    assert(response@.headers =~= Seq::<HeaderView>::empty());
    response
}

/// Answers a confirmation once the subscriber's update was tried: 200 where
/// it was written, an unexpected error where it was not.
pub fn confirmed(update: Result<(), ConfirmCause>) -> (r: Result<Response, ConfirmSubscriberError>)
    ensures
        match r {
            Ok(response) => update is Ok && response@ == ok_view(),
            Err(error) => update matches Err(cause) && error
                == ConfirmSubscriberError::UnexpectedError(cause),
        },
{
    match update {
        Ok(()) => Ok(ok_response()),
        Err(cause) => Err(ConfirmSubscriberError::UnexpectedError(cause)),
    }
}

} // verus!
