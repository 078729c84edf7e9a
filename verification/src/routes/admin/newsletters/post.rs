//! The publish request: one issue is created and its deliveries are queued
//! exactly once per idempotency key, however often the request arrives.

use crate::idempotency::key::{acceptable_key, key_error, IdempotencyKey, IdempotencyKeyError};
use crate::idempotency::persistence::{see_other, see_other_view, Response, ResponseView};
use crate::identifiers::new_uuid;
use vstd::prelude::*;
use vstd::string::*;

verus! {

/// The fields of the publish form.
#[derive(Debug)]
pub struct FormData {
    pub title: String,
    pub html_content: String,
    pub text_content: String,
    pub idempotency_key: String,
}

/// `FormData`, as mathematical values.
pub struct FormView {
    pub title: Seq<char>,
    pub html_content: Seq<char>,
    pub text_content: Seq<char>,
    pub idempotency_key: Seq<char>,
}

impl View for FormData {
    type V = FormView;

    open spec fn view(&self) -> FormView {
        FormView {
            title: self.title@,
            html_content: self.html_content@,
            text_content: self.text_content@,
            idempotency_key: self.idempotency_key@,
        }
    }
}

/// Which part of an issue is missing.
#[derive(Clone, Copy, Debug, PartialEq, Eq, Structural)]
pub enum NewsletterError {
    EmptyTitle,
    EmptyHtml,
    EmptyText,
}

/// The text that tells the author what is missing.
pub open spec fn newsletter_error_text(error: NewsletterError) -> Seq<char> {
    match error {
        NewsletterError::EmptyTitle => "Title must not be empty"@,
        NewsletterError::EmptyHtml => "HTML content must not be empty"@,
        NewsletterError::EmptyText => "Text content must not be empty"@,
    }
}

impl NewsletterError {
    /// The text that tells the author what is missing.
    pub fn message(&self) -> (text: String)
        ensures
            text@ == newsletter_error_text(*self),
    {
        match self {
            NewsletterError::EmptyTitle => String::from_str("Title must not be empty"),
            NewsletterError::EmptyHtml => String::from_str("HTML content must not be empty"),
            NewsletterError::EmptyText => String::from_str("Text content must not be empty"),
        }
    }
}

/// An issue needs a title, an HTML body and a text body, none of them
/// empty. The first part that is missing, in that order, is reported.
pub open spec fn newsletter_check(title: Seq<char>, html: Seq<char>, text: Seq<char>) -> Result<
    (),
    NewsletterError,
> {
    if title.len() == 0 {
        Err(NewsletterError::EmptyTitle)
    } else if html.len() == 0 {
        Err(NewsletterError::EmptyHtml)
    } else if text.len() == 0 {
        Err(NewsletterError::EmptyText)
    } else {
        Ok(())
    }
}

/// Checks that no part of the issue is empty.
pub fn validate_newsletter(title: &str, html: &str, text: &str) -> (r: Result<(), NewsletterError>)
    ensures
        r == newsletter_check(title@, html@, text@),
{
    if title.is_empty() {
        Err(NewsletterError::EmptyTitle)
    } else if html.is_empty() {
        Err(NewsletterError::EmptyHtml)
    } else if text.is_empty() {
        Err(NewsletterError::EmptyText)
    } else {
        Ok(())
    }
}

/// How a one-time message is shown to the user.
#[derive(Clone, Copy, Debug, PartialEq, Eq, Structural)]
pub enum FlashLevel {
    Info,
    Error,
}

/// A one-time message for the page that the user sees next.
#[derive(Debug)]
pub struct FlashMessage {
    pub level: FlashLevel,
    pub content: String,
}

/// `FlashMessage`, as mathematical values.
pub struct FlashView {
    pub level: FlashLevel,
    pub content: Seq<char>,
}

impl View for FlashMessage {
    type V = FlashView;

    open spec fn view(&self) -> FlashView {
        FlashView { level: self.level, content: self.content@ }
    }
}

/// The message after a publication.
pub open spec fn success_flash() -> FlashView {
    FlashView { level: FlashLevel::Info, content: "The newsletter issue has been published!"@ }
}

/// The message that says what the form lacks.
pub open spec fn error_flash(error: NewsletterError) -> FlashView {
    FlashView { level: FlashLevel::Error, content: newsletter_error_text(error) }
}

/// The message after a publication.
pub fn success_message() -> (flash: FlashMessage)
    ensures
        flash@ == success_flash(),
{
    FlashMessage {
        level: FlashLevel::Info,
        content: String::from_str("The newsletter issue has been published!"),
    }
}

/// What the handler answers: a response, and the message to show with the
/// next page.
#[derive(Debug)]
pub struct Reply {
    pub response: Response,
    pub flash: FlashMessage,
}

/// `Reply`, as mathematical values.
pub struct ReplyView {
    pub response: ResponseView,
    pub flash: FlashView,
}

impl View for Reply {
    type V = ReplyView;

    open spec fn view(&self) -> ReplyView {
        ReplyView { response: self.response@, flash: self.flash@ }
    }
}

/// Why the handler gives no reply of its own.
#[derive(Clone, Copy, Debug, PartialEq, Eq, Structural)]
pub enum PublishFailure {
    /// The idempotency key is malformed. Nothing was started.
    Validation(IdempotencyKeyError),
    /// Another request holds the key: the caller waits for it to finish.
    ContentionWait,
    /// The store failed. Nothing was committed.
    Unexpected,
}

impl PublishFailure {
    /// The status code that reports this failure to the client: 400 for a
    /// malformed key, 500 for a failure of the store. A contention wait is
    /// no error and has no status code: the request is answered once the
    /// holder of the key has finished.
    pub fn status_code(&self) -> (code: Option<u16>)
        ensures
            code == match *self {
                PublishFailure::Validation(_) => Some(400u16),
                PublishFailure::ContentionWait => None,
                PublishFailure::Unexpected => Some(500u16),
            },
    {
        match self {
            PublishFailure::Validation(_) => Some(400),
            PublishFailure::ContentionWait => None,
            PublishFailure::Unexpected => Some(500),
        }
    }
}

/// What the handler ends with, as mathematical values.
pub open spec fn outcome_view(outcome: Result<Reply, PublishFailure>) -> Result<
    ReplyView,
    PublishFailure,
> {
    match outcome {
        Ok(reply) => Ok(reply@),
        Err(failure) => Err(failure),
    }
}

/// The page that every reply of the handler redirects to.
pub open spec fn form_page() -> ResponseView {
    see_other_view("/admin/newsletters")
}

/// Where the handler stands.
#[derive(Debug)]
pub enum PublishState {
    /// Nothing has arrived yet.
    Received,
    /// The key is being claimed.
    Starting {
        user_id: u128,
        idempotency_key: IdempotencyKey,
        title: String,
        html_content: String,
        text_content: String,
    },
    /// The issue is being written.
    InsertingIssue { user_id: u128, idempotency_key: IdempotencyKey, newsletter_issue_id: u128 },
    /// The deliveries are being queued.
    Enqueueing { user_id: u128, idempotency_key: IdempotencyKey },
    /// The response is being saved and the unit of work committed.
    Saving,
    /// The handler has answered.
    Done,
}

/// `PublishState`, as mathematical values.
pub enum PublishStateView {
    Received,
    Starting {
        user_id: u128,
        idempotency_key: Seq<char>,
        title: Seq<char>,
        html_content: Seq<char>,
        text_content: Seq<char>,
    },
    InsertingIssue { user_id: u128, idempotency_key: Seq<char>, newsletter_issue_id: u128 },
    Enqueueing { user_id: u128, idempotency_key: Seq<char> },
    Saving,
    Done,
}

impl View for PublishState {
    type V = PublishStateView;

    open spec fn view(&self) -> PublishStateView {
        match *self {
            PublishState::Received => PublishStateView::Received,
            PublishState::Starting {
                user_id,
                idempotency_key,
                title,
                html_content,
                text_content,
            } => PublishStateView::Starting {
                user_id,
                idempotency_key: idempotency_key@,
                title: title@,
                html_content: html_content@,
                text_content: text_content@,
            },
            PublishState::InsertingIssue { user_id, idempotency_key, newsletter_issue_id } => {
                PublishStateView::InsertingIssue {
                    user_id,
                    idempotency_key: idempotency_key@,
                    newsletter_issue_id,
                }
            },
            PublishState::Enqueueing { user_id, idempotency_key } => PublishStateView::Enqueueing {
                user_id,
                idempotency_key: idempotency_key@,
            },
            PublishState::Saving => PublishStateView::Saving,
            PublishState::Done => PublishStateView::Done,
        }
    }
}

/// What the outside hands back to the handler.
#[derive(Debug)]
pub enum PublishEvent {
    /// The form arrived, sent by this user.
    Submitted { user_id: u128, form: FormData },
    /// The key was free: a unit of work is open.
    Started,
    /// The action completed before: this is its saved response.
    Rejoined(Response),
    /// The issue is written into the unit of work.
    IssueInserted,
    /// The deliveries are written into the unit of work.
    TasksEnqueued,
    /// The response is saved and the unit of work committed.
    ResponseSaved(Response),
    /// The store failed.
    Fault,
}

/// `PublishEvent`, as mathematical values.
pub enum PublishEventView {
    Submitted { user_id: u128, form: FormView },
    Started,
    Rejoined(ResponseView),
    IssueInserted,
    TasksEnqueued,
    ResponseSaved(ResponseView),
    Fault,
}

impl View for PublishEvent {
    type V = PublishEventView;

    open spec fn view(&self) -> PublishEventView {
        match *self {
            PublishEvent::Submitted { user_id, form } => PublishEventView::Submitted {
                user_id,
                form: form@,
            },
            PublishEvent::Started => PublishEventView::Started,
            PublishEvent::Rejoined(response) => PublishEventView::Rejoined(response@),
            PublishEvent::IssueInserted => PublishEventView::IssueInserted,
            PublishEvent::TasksEnqueued => PublishEventView::TasksEnqueued,
            PublishEvent::ResponseSaved(response) => PublishEventView::ResponseSaved(response@),
            PublishEvent::Fault => PublishEventView::Fault,
        }
    }
}

/// What the handler asks the outside to do next.
#[derive(Debug)]
pub enum PublishAction {
    /// Claim the key in a new unit of work, or read the saved response.
    TryProcessing { user_id: u128, idempotency_key: IdempotencyKey },
    /// Write the issue into the unit of work.
    InsertIssue {
        newsletter_issue_id: u128,
        title: String,
        text_content: String,
        html_content: String,
    },
    /// Write one delivery task per confirmed subscriber into the unit of
    /// work.
    EnqueueDeliveryTasks { newsletter_issue_id: u128 },
    /// Save the response under the key and commit the unit of work.
    SaveResponse { user_id: u128, idempotency_key: IdempotencyKey, response: Response },
    /// Answer the client. A unit of work that is still open is rolled back.
    Finish(Result<Reply, PublishFailure>),
}

/// `PublishAction`, as mathematical values.
pub enum PublishActionView {
    TryProcessing { user_id: u128, idempotency_key: Seq<char> },
    InsertIssue {
        newsletter_issue_id: u128,
        title: Seq<char>,
        text_content: Seq<char>,
        html_content: Seq<char>,
    },
    EnqueueDeliveryTasks { newsletter_issue_id: u128 },
    SaveResponse { user_id: u128, idempotency_key: Seq<char>, response: ResponseView },
    Finish(Result<ReplyView, PublishFailure>),
}

impl View for PublishAction {
    type V = PublishActionView;

    open spec fn view(&self) -> PublishActionView {
        match *self {
            PublishAction::TryProcessing { user_id, idempotency_key } => {
                PublishActionView::TryProcessing { user_id, idempotency_key: idempotency_key@ }
            },
            PublishAction::InsertIssue {
                newsletter_issue_id,
                title,
                text_content,
                html_content,
            } => PublishActionView::InsertIssue {
                newsletter_issue_id,
                title: title@,
                text_content: text_content@,
                html_content: html_content@,
            },
            PublishAction::EnqueueDeliveryTasks { newsletter_issue_id } => {
                PublishActionView::EnqueueDeliveryTasks { newsletter_issue_id }
            },
            PublishAction::SaveResponse { user_id, idempotency_key, response } => {
                PublishActionView::SaveResponse {
                    user_id,
                    idempotency_key: idempotency_key@,
                    response: response@,
                }
            },
            PublishAction::Finish(outcome) => PublishActionView::Finish(outcome_view(outcome)),
        }
    }
}

/// The handler answers with `outcome` and is done.
pub open spec fn finish(outcome: Result<ReplyView, PublishFailure>) -> (
    PublishStateView,
    PublishActionView,
) {
    (PublishStateView::Done, PublishActionView::Finish(outcome))
}

/// The reply after a publication, new or repeated: `response`, with the
/// message of success.
pub open spec fn published(response: ResponseView) -> Result<ReplyView, PublishFailure> {
    Ok(ReplyView { response, flash: success_flash() })
}

/// The reply to a form that lacks a part: back to the form, with the
/// message that says what is missing.
pub open spec fn sent_back(error: NewsletterError) -> Result<ReplyView, PublishFailure> {
    Ok(ReplyView { response: form_page(), flash: error_flash(error) })
}

/// The handler's transition relation: the state and the action that follow
/// from `state` when `event` arrives. `fresh_id` is the identifier that a
/// new issue gets.
pub open spec fn next_publish_step(
    state: PublishStateView,
    event: PublishEventView,
    fresh_id: u128,
) -> (PublishStateView, PublishActionView) {
    match (state, event) {
        (_, PublishEventView::Fault) => finish(Err(PublishFailure::Unexpected)),
        (PublishStateView::Received, PublishEventView::Submitted { user_id, form }) => {
            if acceptable_key(form.idempotency_key) {
                (
                    PublishStateView::Starting {
                        user_id,
                        idempotency_key: form.idempotency_key,
                        title: form.title,
                        html_content: form.html_content,
                        text_content: form.text_content,
                    },
                    PublishActionView::TryProcessing {
                        user_id,
                        idempotency_key: form.idempotency_key,
                    },
                )
            } else {
                finish(Err(PublishFailure::Validation(key_error(form.idempotency_key))))
            }
        },
        (PublishStateView::Starting { .. }, PublishEventView::Rejoined(response)) => finish(
            published(response),
        ),
        (
            PublishStateView::Starting {
                user_id,
                idempotency_key,
                title,
                html_content,
                text_content,
            },
            PublishEventView::Started,
        ) => match newsletter_check(title, html_content, text_content) {
            Err(error) => finish(sent_back(error)),
            Ok(_) => (
                PublishStateView::InsertingIssue {
                    user_id,
                    idempotency_key,
                    newsletter_issue_id: fresh_id,
                },
                PublishActionView::InsertIssue {
                    newsletter_issue_id: fresh_id,
                    title,
                    text_content,
                    html_content,
                },
            ),
        },
        (
            PublishStateView::InsertingIssue { user_id, idempotency_key, newsletter_issue_id },
            PublishEventView::IssueInserted,
        ) => (
            PublishStateView::Enqueueing { user_id, idempotency_key },
            PublishActionView::EnqueueDeliveryTasks { newsletter_issue_id },
        ),
        (
            PublishStateView::Enqueueing { user_id, idempotency_key },
            PublishEventView::TasksEnqueued,
        ) => (
            PublishStateView::Saving,
            PublishActionView::SaveResponse { user_id, idempotency_key, response: form_page() },
        ),
        (PublishStateView::Saving, PublishEventView::ResponseSaved(response)) => finish(
            published(response),
        ),
        _ => finish(Err(PublishFailure::Unexpected)),
    }
}

/// The answer to a form that lacks a part.
fn send_back(error: NewsletterError) -> (reply: Reply)
    ensures
        Ok::<ReplyView, PublishFailure>(reply@) == sent_back(error),
{
    Reply {
        response: see_other("/admin/newsletters"),
        flash: FlashMessage { level: FlashLevel::Error, content: error.message() },
    }
}

/// Advances the handler by one event, with `fresh_id` as the identifier for
/// the issue in case one is created now.
pub fn publish_newsletter_with(state: PublishState, event: PublishEvent, fresh_id: u128) -> (r: (
    PublishState,
    PublishAction,
))
    ensures
        (r.0@, r.1@) == next_publish_step(state@, event@, fresh_id),
        r.1 matches PublishAction::TryProcessing { idempotency_key, .. } ==> idempotency_key.wf(),
        r.1 matches PublishAction::SaveResponse { response, .. } ==> response.wf(),
{
    match (state, event) {
        (_, PublishEvent::Fault) => (
            PublishState::Done,
            PublishAction::Finish(Err(PublishFailure::Unexpected)),
        ),
        (PublishState::Received, PublishEvent::Submitted { user_id, form }) => {
            let FormData { title, html_content, text_content, idempotency_key } = form;
            match IdempotencyKey::try_from(idempotency_key) {
                Ok(idempotency_key) => {
                    let claimed = idempotency_key.duplicate();
                    (
                        PublishState::Starting {
                            user_id,
                            idempotency_key,
                            title,
                            html_content,
                            text_content,
                        },
                        PublishAction::TryProcessing { user_id, idempotency_key: claimed },
                    )
                },
                Err(error) => (
                    PublishState::Done,
                    PublishAction::Finish(Err(PublishFailure::Validation(error))),
                ),
            }
        },
        (PublishState::Starting { .. }, PublishEvent::Rejoined(response)) => (
            PublishState::Done,
            PublishAction::Finish(Ok(Reply { response, flash: success_message() })),
        ),
        (
            PublishState::Starting { user_id, idempotency_key, title, html_content, text_content },
            PublishEvent::Started,
        ) => {
            let checked = validate_newsletter(
                title.as_str(),
                html_content.as_str(),
                text_content.as_str(),
            );
            match checked {
                Err(error) => (PublishState::Done, PublishAction::Finish(Ok(send_back(error)))),
                Ok(()) => (
                    PublishState::InsertingIssue {
                        user_id,
                        idempotency_key,
                        newsletter_issue_id: fresh_id,
                    },
                    PublishAction::InsertIssue {
                        newsletter_issue_id: fresh_id,
                        title,
                        text_content,
                        html_content,
                    },
                ),
            }
        },
        (
            PublishState::InsertingIssue { user_id, idempotency_key, newsletter_issue_id },
            PublishEvent::IssueInserted,
        ) => (
            PublishState::Enqueueing { user_id, idempotency_key },
            PublishAction::EnqueueDeliveryTasks { newsletter_issue_id },
        ),
        (PublishState::Enqueueing { user_id, idempotency_key }, PublishEvent::TasksEnqueued) => (
            PublishState::Saving,
            PublishAction::SaveResponse {
                user_id,
                idempotency_key,
                response: see_other("/admin/newsletters"),
            },
        ),
        (PublishState::Saving, PublishEvent::ResponseSaved(response)) => (
            PublishState::Done,
            PublishAction::Finish(Ok(Reply { response, flash: success_message() })),
        ),
        _ => (PublishState::Done, PublishAction::Finish(Err(PublishFailure::Unexpected))),
    }
}

/// Whether the step from `state` on `event` creates an issue: the key was
/// claimed just now and the form is complete.
pub open spec fn creates_issue(state: PublishStateView, event: PublishEventView) -> bool {
    match (state, event) {
        (
            PublishStateView::Starting { title, html_content, text_content, .. },
            PublishEventView::Started,
        ) => newsletter_check(title, html_content, text_content) is Ok,
        _ => false,
    }
}

/// Whether the step from `state` on `event` creates an issue.
fn step_creates_issue(state: &PublishState, event: &PublishEvent) -> (creates: bool)
    ensures
        creates == creates_issue(state@, event@),
{
    match (state, event) {
        (
            PublishState::Starting { title, html_content, text_content, .. },
            PublishEvent::Started,
        ) => {
            let checked = validate_newsletter(
                title.as_str(),
                html_content.as_str(),
                text_content.as_str(),
            );
            checked.is_ok()
        },
        _ => false,
    }
}

/// Advances the handler by one event. The caller performs the action that
/// comes back and reports what happened as the next event, until the action
/// is a `Finish`. A new random identifier is drawn on the one step that
/// creates the issue, and on no other.
pub fn publish_newsletter(state: PublishState, event: PublishEvent) -> (r: (
    PublishState,
    PublishAction,
))
    ensures
        exists|fresh_id: u128| (r.0@, r.1@) == next_publish_step(state@, event@, fresh_id),
        !creates_issue(state@, event@) ==> forall|any_id: u128|
            (r.0@, r.1@) == #[trigger] next_publish_step(state@, event@, any_id),
        r.1 matches PublishAction::TryProcessing { idempotency_key, .. } ==> idempotency_key.wf(),
        r.1 matches PublishAction::SaveResponse { response, .. } ==> response.wf(),
{
    if step_creates_issue(&state, &event) {
        let fresh_id = new_uuid();
        publish_newsletter_with(state, event, fresh_id)
    } else {
        publish_newsletter_with(state, event, 0)
    }
}

} // verus!
