//! The form on which an issue is written.

use crate::idempotency::key::IdempotencyKey;
use crate::idempotency::persistence::Response;
use crate::identifiers::{hyphenated, hyphenated_text, new_uuid};
use crate::routes::admin::dashboard::{html_response, html_view};
use vstd::prelude::*;
use vstd::string::*;

verus! {

/// The page up to the messages.
pub const FORM_HEAD: &'static str = r#"<!DOCTYPE html>
<html lang="en">
<head>
    <meta http-equiv="content-type" content="text/html; charset=utf-8">
    <title>Newsletters</title>
</head>
<body>
    <p>Issue a new newsletter</p>
    "#;

/// The page between the messages and the idempotency key.
pub const FORM_FIELDS: &'static str = r#"
    <form action="/admin/newsletters" method="post">
        <label>Title:<br>
            <input
                type="text"
                placeholder="Enter the issue title"
                name="title"
            >
        </label>
        <br>
        <label>Plain text content:<br>
            <textarea
                placeholder="Enter the content in plain text"
                name="text_content"
                rows="20"
                cols="50"
            ></textarea>
        </label>
        <br>
        <label>HTML content:<br>
            <textarea
                placeholder="Enter the content in HTML format"
                name="html_content"
                rows="20"
                cols="50"
            ></textarea>
        </label>
        <br>
        <input hidden type="text" name="idempotency_key" value=""#;

/// The page after the idempotency key.
pub const FORM_TAIL: &'static str = r#"">
        <button type="submit">Publish</button>
    </form>
</body>
</html>"#;

/// The messages as HTML: one paragraph in italics per message, each on a
/// line of its own, in the order of the messages.
pub open spec fn messages_html(messages: Seq<String>) -> Seq<char>
    decreases messages.len(),
{
    if messages.len() == 0 {
        Seq::empty()
    } else {
        messages_html(messages.drop_last()) + "<p><i>"@ + messages.last()@ + "</i></p>\n"@
    }
}

/// The form's page with `messages` on it and `idempotency_key` in its
/// hidden field.
pub open spec fn form_page_text(messages: Seq<String>, idempotency_key: Seq<char>) -> Seq<char> {
    FORM_HEAD@ + messages_html(messages) + FORM_FIELDS@ + idempotency_key + FORM_TAIL@
}

/// The idempotency key that the identifier `id` gives: its hyphenated text.
pub fn idempotency_key_for(id: u128) -> (key: IdempotencyKey)
    ensures
        key.wf(),
        key@ == hyphenated_text(id),
        key@.len() == 36,
{
    match IdempotencyKey::try_from(hyphenated(id)) {
        Ok(key) => key,
        Err(_) => vstd::pervasive::unreached(),
    }
}

/// A new random idempotency key for one showing of the form.
pub fn new_idempotency_key() -> (key: IdempotencyKey)
    ensures
        key.wf(),
        key@.len() == 36,
        exists|id: u128| key@ == #[trigger] hyphenated_text(id),
{
    idempotency_key_for(new_uuid())
}

/// Shows the form with `flash_messages` above it and `idempotency_key` in
/// its hidden field. Messages and key are put into the page as they are.
pub fn publish_newsletter_form(
    flash_messages: &Vec<String>,
    idempotency_key: &IdempotencyKey,
) -> (response: Response)
    ensures
        response@ == html_view(form_page_text(flash_messages@, idempotency_key@)),
        response.wf(),
{
    let mut msg_html = String::new();
    let mut i: usize = 0;
    while i < flash_messages.len()
        invariant
            i <= flash_messages.len(),
            msg_html@ == messages_html(flash_messages@.take(i as int)),
        decreases flash_messages.len() - i,
    {
        proof {
            assert(flash_messages@.take(i + 1).drop_last() =~= flash_messages@.take(i as int));
            assert(flash_messages@.take(i + 1).last() == flash_messages@[i as int]);
        }
        msg_html = msg_html.concat("<p><i>").concat(flash_messages[i].as_str()).concat(
            "</i></p>\n",
        );
        i += 1;
    }
    assert(flash_messages@.take(flash_messages@.len() as int) =~= flash_messages@);
    let page = String::from_str(FORM_HEAD).concat(msg_html.as_str()).concat(FORM_FIELDS).concat(
        idempotency_key.as_ref(),
    ).concat(FORM_TAIL);
    html_response(page.as_str())
}

} // verus!
