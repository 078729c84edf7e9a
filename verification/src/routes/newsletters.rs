//! Sending an issue straight to every confirmed subscriber.

use crate::domain::{has_address_shape, well_formed_address};
use crate::idempotency::persistence::Response;
use crate::routes::subscriptions_confirm::{ok_response, ok_view};
use vstd::prelude::*;
use vstd::string::*;

verus! {

/// The two bodies of an issue.
#[derive(Debug)]
pub struct Content {
    pub html: String,
    pub text: String,
}

/// An issue as a client submits it.
#[derive(Debug)]
pub struct BodyData {
    pub title: String,
    pub content: Content,
}

/// Why an issue was not sent out.
#[derive(Debug)]
pub enum PublishError {
    /// Something failed on the way; the text says what.
    UnexpectedError(String),
}

impl View for PublishError {
    type V = Seq<char>;

    open spec fn view(&self) -> Seq<char> {
        match *self {
            PublishError::UnexpectedError(text) => text@,
        }
    }
}

impl PublishError {
    /// The error of a subscriber list that could not be read.
    pub fn subscribers_unavailable() -> (error: PublishError)
        ensures
            error@ == "Failed to get subscribers from the database."@,
    {
        PublishError::UnexpectedError(
            String::from_str("Failed to get subscribers from the database."),
        )
    }

    /// The error of a send to `recipient` that failed.
    pub fn send_failed(recipient: &str) -> (error: PublishError)
        ensures
            error@ == "Failed to send newsletter issue to "@ + recipient@,
    {
        PublishError::UnexpectedError(
            String::from_str("Failed to send newsletter issue to ").concat(recipient),
        )
    }

    /// What the error says.
    pub fn message(&self) -> (text: String)
        ensures
            text@ == self@,
    {
        match self {
            PublishError::UnexpectedError(text) => text.clone(),
        }
    }

    /// The status code that reports this error: 500.
    pub fn status_code(&self) -> (code: u16)
        ensures
            code == 500,
    {
        match self {
            PublishError::UnexpectedError(_) => 500,
        }
    }
}

/// One message for the transport.
#[derive(Debug)]
pub struct OutgoingEmail {
    pub recipient: String,
    pub title: String,
    pub html_content: String,
    pub text_content: String,
}

/// `OutgoingEmail`, as mathematical values.
pub struct EmailView {
    pub recipient: Seq<char>,
    pub title: Seq<char>,
    pub html_content: Seq<char>,
    pub text_content: Seq<char>,
}

impl View for OutgoingEmail {
    type V = EmailView;

    open spec fn view(&self) -> EmailView {
        EmailView {
            recipient: self.recipient@,
            title: self.title@,
            html_content: self.html_content@,
            text_content: self.text_content@,
        }
    }
}

/// The messages that sending `body` to the confirmed subscribers with the
/// addresses `subscribers` takes: one to each well-formed address, in the
/// order of the subscribers, all with the issue's title and bodies. A
/// malformed address is passed over.
pub open spec fn messages_for(body: BodyData, subscribers: Seq<String>) -> Seq<EmailView>
    decreases subscribers.len(),
{
    if subscribers.len() == 0 {
        Seq::empty()
    } else {
        let earlier = messages_for(body, subscribers.drop_last());
        if well_formed_address(subscribers.last()@) {
            earlier.push(
                EmailView {
                    recipient: subscribers.last()@,
                    title: body.title@,
                    html_content: body.content.html@,
                    text_content: body.content.text@,
                },
            )
        } else {
            earlier
        }
    }
}

/// The views of `messages`.
pub open spec fn email_views(messages: Seq<OutgoingEmail>) -> Seq<EmailView> {
    messages.map_values(|message: OutgoingEmail| message@)
}

/// Plans the publication of `body`: the messages to hand to the transport,
/// one after the other. The first send that fails ends the publication with
/// `PublishError::send_failed`; when all are sent the answer is
/// `publish_reply`.
pub fn publish_newsletter(body: &BodyData, subscribers: &Vec<String>) -> (messages: Vec<
    OutgoingEmail,
>)
    ensures
        email_views(messages@) == messages_for(*body, subscribers@),
{
    let mut messages: Vec<OutgoingEmail> = Vec::new();
    let mut i: usize = 0;
    while i < subscribers.len()
        invariant
            i <= subscribers.len(),
            email_views(messages@) == messages_for(*body, subscribers@.take(i as int)),
        decreases subscribers.len() - i,
    {
        let subscriber = &subscribers[i];
        proof {
            assert(subscribers@.take(i + 1).drop_last() =~= subscribers@.take(i as int));
            assert(subscribers@.take(i + 1).last() == subscribers@[i as int]);
        }
        if has_address_shape(subscriber.as_str()) {
            let ghost before = messages@;
            let message = OutgoingEmail {
                recipient: subscriber.clone(),
                title: body.title.clone(),
                html_content: body.content.html.clone(),
                text_content: body.content.text.clone(),
            };
            let ghost added = message@;
            messages.push(message);
            assert(email_views(messages@) =~= email_views(before).push(added));
        }
        i += 1;
    }
    assert(subscribers@.take(subscribers@.len() as int) =~= subscribers@);
    messages
}

/// Answers a publication: 200 when every message was sent, and the error of
/// the failed send otherwise.
pub fn publish_reply(failed_recipient: Option<&str>) -> (r: Result<Response, PublishError>)
    ensures
        match r {
            Ok(response) => failed_recipient is None && response@ == ok_view(),
            Err(error) => failed_recipient matches Some(recipient) && error@
                == "Failed to send newsletter issue to "@ + recipient@,
        },
{
    match failed_recipient {
        None => Ok(ok_response()),
        Some(recipient) => Err(PublishError::send_failed(recipient)),
    }
}

} // verus!
