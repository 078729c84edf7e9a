//! How a response is written into an idempotency record and read back.

use crate::idempotency::key::IdempotencyKey;
use vstd::prelude::*;
use vstd::string::*;

verus! {

/// One header of a response: its name, and its value as raw bytes.
#[derive(Debug)]
pub struct HeaderPairRecord {
    pub name: String,
    pub value: Vec<u8>,
}

/// `HeaderPairRecord`, as mathematical values.
pub struct HeaderView {
    pub name: Seq<char>,
    pub value: Seq<u8>,
}

impl View for HeaderPairRecord {
    type V = HeaderView;

    open spec fn view(&self) -> HeaderView {
        HeaderView { name: self.name@, value: self.value@ }
    }
}

/// The headers of a response, in their order and with their repetitions.
pub open spec fn header_views(headers: Seq<HeaderPairRecord>) -> Seq<HeaderView> {
    headers.map_values(|header: HeaderPairRecord| header@)
}

/// A copy of `bytes`.
pub fn copy_bytes(bytes: &Vec<u8>) -> (copy: Vec<u8>)
    ensures
        copy@ == bytes@,
{
    let mut copy: Vec<u8> = Vec::new();
    let mut i: usize = 0;
    while i < bytes.len()
        invariant
            i <= bytes.len(),
            copy@ == bytes@.take(i as int),
        decreases bytes.len() - i,
    {
        copy.push(bytes[i]);
        assert(copy@ =~= bytes@.take(i + 1));
        i += 1;
    }
    assert(bytes@.take(bytes@.len() as int) =~= bytes@);
    copy
}

/// A copy of `headers`: the same names and values in the same order.
pub fn copy_headers(headers: &Vec<HeaderPairRecord>) -> (copy: Vec<HeaderPairRecord>)
    ensures
        header_views(copy@) == header_views(headers@),
{
    let mut copy: Vec<HeaderPairRecord> = Vec::new();
    let mut i: usize = 0;
    while i < headers.len()
        invariant
            i <= headers.len(),
            header_views(copy@) == header_views(headers@).take(i as int),
        decreases headers.len() - i,
    {
        let header = &headers[i];
        let ghost before = copy@;
        let pair = HeaderPairRecord { name: header.name.clone(), value: copy_bytes(&header.value) };
        assert(pair@ == header_views(headers@)[i as int]);
        copy.push(pair);
        assert(header_views(copy@) =~= header_views(before).push(pair@));
        assert(header_views(copy@) =~= header_views(headers@).take(i + 1));
        i += 1;
    }
    assert(header_views(headers@).take(headers@.len() as int) =~= header_views(headers@));
    copy
}

/// Whether `code` is a status code that a response can carry.
pub open spec fn valid_status(code: u16) -> bool {
    100 <= code < 1000
}

/// Asks `actix_web::http::StatusCode::from_u16` whether it takes `code`. It
/// takes the codes from 100 to 999 and refuses every other.
#[verifier::external_body]
fn status_code_is_valid(code: u16) -> (valid: bool)
    ensures
        valid == valid_status(code),
{
    actix_web::http::StatusCode::from_u16(code).is_ok()
}

/// An HTTP response with its body fully in memory.
#[derive(Debug)]
pub struct Response {
    pub status_code: u16,
    pub headers: Vec<HeaderPairRecord>,
    pub body: Vec<u8>,
}

/// `Response`, as mathematical values.
pub struct ResponseView {
    pub status_code: u16,
    pub headers: Seq<HeaderView>,
    pub body: Seq<u8>,
}

impl View for Response {
    type V = ResponseView;

    open spec fn view(&self) -> ResponseView {
        ResponseView {
            status_code: self.status_code,
            headers: header_views(self.headers@),
            body: self.body@,
        }
    }
}

impl Response {
    /// The status code is one that a response can carry.
    pub open spec fn wf(&self) -> bool {
        valid_status(self.status_code)
    }

    /// Builds a response, unless `status_code` is none that a response can
    /// carry.
    pub fn new(status_code: u16, headers: Vec<HeaderPairRecord>, body: Vec<u8>) -> (response:
        Option<Response>)
        ensures
            response is Some <==> valid_status(status_code),
            response matches Some(r) ==> r.wf() && r@ == (ResponseView {
                status_code,
                headers: header_views(headers@),
                body: body@,
            }),
    {
        if status_code_is_valid(status_code) {
            Some(Response { status_code, headers, body })
        } else {
            None
        }
    }

    /// A copy of this response: same status, headers and body.
    pub fn duplicate(&self) -> (copy: Response)
        ensures
            copy@ == self@,
            copy.wf() == self.wf(),
    {
        Response {
            status_code: self.status_code,
            headers: copy_headers(&self.headers),
            body: copy_bytes(&self.body),
        }
    }
}

/// The redirect that sends the client to `location` with a GET: status 303,
/// one `location` header, no body.
pub open spec fn see_other_view(location: &str) -> ResponseView {
    ResponseView {
        status_code: 303,
        headers: seq![HeaderView { name: "location"@, value: location.spec_bytes() }],
        body: Seq::<u8>::empty(),
    }
}

/// Builds the redirect to `location`.
pub fn see_other(location: &str) -> (response: Response)
    ensures
        response@ == see_other_view(location),
        response.wf(),
{
    let mut headers: Vec<HeaderPairRecord> = Vec::new();
    headers.push(
        HeaderPairRecord { name: String::from_str("location"), value: location.as_bytes_vec() },
    );
    let response = Response { status_code: 303, headers, body: Vec::new() };
    assert(response@.headers =~= see_other_view(location).headers);
    assert(response@.body =~= see_other_view(location).body);
    response
}

/// One row of the idempotency table. While the action runs, the three
/// response fields are unset; they are filled in when it completes.
#[derive(Debug)]
pub struct IdempotencyRecord {
    pub user_id: u128,
    pub idempotency_key: String,
    pub response_status_code: Option<u16>,
    pub response_headers: Option<Vec<HeaderPairRecord>>,
    pub response_body: Option<Vec<u8>>,
}

/// `IdempotencyRecord`, as mathematical values.
pub struct RecordView {
    pub user_id: u128,
    pub key: Seq<char>,
    pub status_code: Option<u16>,
    pub headers: Option<Seq<HeaderView>>,
    pub body: Option<Seq<u8>>,
}

impl View for IdempotencyRecord {
    type V = RecordView;

    open spec fn view(&self) -> RecordView {
        RecordView {
            user_id: self.user_id,
            key: self.idempotency_key@,
            status_code: self.response_status_code,
            headers: match self.response_headers {
                Some(headers) => Some(header_views(headers@)),
                None => None,
            },
            body: match self.response_body {
                Some(body) => Some(body@),
                None => None,
            },
        }
    }
}

/// Why no response could be rebuilt from a record.
#[derive(Clone, Copy, Debug, PartialEq, Eq, Structural)]
pub enum RecordError {
    /// A response field is unset: the action has not completed.
    Incomplete,
    /// The stored status code is none that a response can carry.
    InvalidStatusCode,
}

/// The record of an action that has begun and not completed.
pub open spec fn placeholder(user_id: u128, key: Seq<char>) -> RecordView {
    RecordView { user_id, key, status_code: None, headers: None, body: None }
}

/// The record of an action that completed with `response`.
pub open spec fn completed(user_id: u128, key: Seq<char>, response: ResponseView) -> RecordView {
    RecordView {
        user_id,
        key,
        status_code: Some(response.status_code),
        headers: Some(response.headers),
        body: Some(response.body),
    }
}

/// The response that a record holds.
pub open spec fn saved_response(record: RecordView) -> Result<ResponseView, RecordError> {
    match (record.status_code, record.headers, record.body) {
        (Some(status_code), Some(headers), Some(body)) => if valid_status(status_code) {
            Ok(ResponseView { status_code, headers, body })
        } else {
            Err(RecordError::InvalidStatusCode)
        },
        _ => Err(RecordError::Incomplete),
    }
}

impl IdempotencyRecord {
    /// The record that claims `idempotency_key` for `user_id` while the
    /// action runs.
    pub fn processing(user_id: u128, idempotency_key: &IdempotencyKey) -> (record:
        IdempotencyRecord)
        ensures
            record@ == placeholder(user_id, idempotency_key@),
    {
        IdempotencyRecord {
            user_id,
            idempotency_key: String::from_str(idempotency_key.as_ref()),
            response_status_code: None,
            response_headers: None,
            response_body: None,
        }
    }

    /// Writes `response` into a record for `user_id` and `idempotency_key`:
    /// the status code, each header's name and raw value in the order of the
    /// response, repeated names included, and the whole body.
    pub fn save_response(user_id: u128, idempotency_key: &IdempotencyKey, response: &Response) -> (
        record: IdempotencyRecord)
        ensures
            record@ == completed(user_id, idempotency_key@, response@),
    {
        IdempotencyRecord {
            user_id,
            idempotency_key: String::from_str(idempotency_key.as_ref()),
            response_status_code: Some(response.status_code),
            response_headers: Some(copy_headers(&response.headers)),
            response_body: Some(copy_bytes(&response.body)),
        }
    }

    /// Rebuilds the response that this record holds. A record whose action
    /// has not completed holds none, and a status code that no response can
    /// carry is refused.
    pub fn get_saved_response(&self) -> (response: Result<Response, RecordError>)
        ensures
            match response {
                Ok(r) => saved_response(self@) == Ok::<ResponseView, RecordError>(r@) && r.wf(),
                Err(e) => saved_response(self@) == Err::<ResponseView, RecordError>(e),
            },
    {
        match (&self.response_status_code, &self.response_headers, &self.response_body) {
            (Some(status_code), Some(headers), Some(body)) => {
                match Response::new(*status_code, copy_headers(headers), copy_bytes(body)) {
                    Some(response) => Ok(response),
                    None => Err(RecordError::InvalidStatusCode),
                }
            },
            _ => Err(RecordError::Incomplete),
        }
    }
}

/// Round trip: a response that is written into a record and rebuilt from it
/// comes back with the same status code, the same headers in the same order
/// with every repetition, and the same body.
pub proof fn lemma_saved_response_round_trip(user_id: u128, key: Seq<char>, response: ResponseView)
    requires
        valid_status(response.status_code),
    ensures
        saved_response(completed(user_id, key, response)) == Ok::<ResponseView, RecordError>(
            response,
        ),
        saved_response(placeholder(user_id, key)) == Err::<ResponseView, RecordError>(
            RecordError::Incomplete,
        ),
{
}

} // verus!
