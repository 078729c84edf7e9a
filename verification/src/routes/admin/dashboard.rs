//! The administrator's dashboard.

use crate::idempotency::persistence::{HeaderPairRecord, HeaderView, Response, ResponseView};
use vstd::prelude::*;
use vstd::string::*;

verus! {

/// The page up to the user's name.
pub const DASHBOARD_HEAD: &'static str = r#"<!DOCTYPE html>
<html lang="en">
<head>
    <meta http-equiv="content-type" content="text/html; charset=utf-8">
    <title>Admin dashboard</title>
</head>
<body>
    <p>Welcome "#;

/// The page after the user's name.
pub const DASHBOARD_TAIL: &'static str = r#"!</p>
    <p>Available actions:</p>
    <ol>
        <li><a href="/admin/newsletters">Send a newsletter issue</a></li>
        <li><a href="/admin/password">Change password</a></li>
        <li>
          <form name="logoutForm" action="/admin/logout" method="post">
            <input type="submit" value="Logout">
          </form>
        </li>
    </ol>
</body>
</html>"#;

/// The response that shows `page` as HTML: status 200, the content type of
/// an HTML page in UTF-8, and the page's bytes.
pub open spec fn html_view(page: Seq<char>) -> ResponseView {
    ResponseView {
        status_code: 200,
        headers: seq![
            HeaderView {
                name: "content-type"@,
                value: "text/html; charset=utf-8".spec_bytes(),
            },
        ],
        body: vstd::utf8::encode_utf8(page),
    }
}

/// Builds the response that shows `page` as HTML.
pub fn html_response(page: &str) -> (response: Response)
    ensures
        response@ == html_view(page@),
        response.wf(),
{
    let mut headers: Vec<HeaderPairRecord> = Vec::new();
    headers.push(
        HeaderPairRecord {
            name: String::from_str("content-type"),
            value: "text/html; charset=utf-8".as_bytes_vec(),
        },
    );
    let response = Response { status_code: 200, headers, body: page.as_bytes_vec() };
    assert(response@.headers =~= html_view(page@).headers);
    response
}

/// The dashboard's page for the user `username`.
pub open spec fn dashboard_page(username: Seq<char>) -> Seq<char> {
    DASHBOARD_HEAD@ + username + DASHBOARD_TAIL@
}

/// Shows the dashboard to the user `username`. The name is put into the
/// page as it is.
pub fn admin_dashboard(username: &str) -> (response: Response)
    ensures
        response@ == html_view(dashboard_page(username@)),
        response.wf(),
{
    let page = String::from_str(DASHBOARD_HEAD).concat(username).concat(DASHBOARD_TAIL);
    html_response(page.as_str())
}

} // verus!
