use zero2prod::idempotency::key::IdempotencyKey;
use zero2prod::idempotency::persistence::{
    copy_bytes, copy_headers, see_other, HeaderPairRecord, IdempotencyRecord, RecordError,
    Response,
};
use zero2prod::idempotency::table::IdempotencyTable;

fn key(text: &str) -> IdempotencyKey {
    IdempotencyKey::try_from(text.to_string()).unwrap()
}

fn header(name: &str, value: &[u8]) -> HeaderPairRecord {
    HeaderPairRecord { name: name.to_string(), value: value.to_vec() }
}

fn pairs(headers: &[HeaderPairRecord]) -> Vec<(String, Vec<u8>)> {
    headers.iter().map(|h| (h.name.clone(), h.value.clone())).collect()
}

#[test]
fn a_response_takes_the_status_codes_from_100_to_999() {
    assert!(Response::new(99, vec![], vec![]).is_none());
    assert!(Response::new(100, vec![], vec![]).is_some());
    assert!(Response::new(303, vec![], vec![]).is_some());
    assert!(Response::new(999, vec![], vec![]).is_some());
    assert!(Response::new(1000, vec![], vec![]).is_none());
    assert!(Response::new(0, vec![], vec![]).is_none());
    assert!(Response::new(u16::MAX, vec![], vec![]).is_none());
}

#[test]
fn a_new_response_holds_what_it_was_given() {
    let response =
        Response::new(201, vec![header("x-a", b"1")], b"created".to_vec()).unwrap();
    assert_eq!(response.status_code, 201);
    assert_eq!(pairs(&response.headers), vec![("x-a".to_string(), b"1".to_vec())]);
    assert_eq!(response.body, b"created".to_vec());
}

#[test]
fn a_saved_response_comes_back_as_it_was() {
    let headers = vec![
        header("set-cookie", b"a=1"),
        header("location", b"/admin/newsletters"),
        header("set-cookie", b"b=2"),
        header("x-raw", &[0xff, 0x00, 0x80]),
    ];
    let response = Response::new(303, headers, vec![1, 2, 3, 0, 255]).unwrap();
    let record = IdempotencyRecord::save_response(7, &key("abc"), &response);
    assert_eq!(record.user_id, 7);
    assert_eq!(record.idempotency_key, "abc");
    assert_eq!(record.response_status_code, Some(303));
    let rebuilt = record.get_saved_response().unwrap();
    assert_eq!(rebuilt.status_code, 303);
    assert_eq!(
        pairs(&rebuilt.headers),
        vec![
            ("set-cookie".to_string(), b"a=1".to_vec()),
            ("location".to_string(), b"/admin/newsletters".to_vec()),
            ("set-cookie".to_string(), b"b=2".to_vec()),
            ("x-raw".to_string(), vec![0xff, 0x00, 0x80]),
        ]
    );
    assert_eq!(rebuilt.body, vec![1, 2, 3, 0, 255]);
}

#[test]
fn a_response_without_headers_and_body_comes_back_empty() {
    let response = Response::new(204, vec![], vec![]).unwrap();
    let record = IdempotencyRecord::save_response(1, &key("k"), &response);
    let rebuilt = record.get_saved_response().unwrap();
    assert_eq!(rebuilt.status_code, 204);
    assert!(rebuilt.headers.is_empty());
    assert!(rebuilt.body.is_empty());
}

#[test]
fn a_placeholder_holds_no_response() {
    let record = IdempotencyRecord::processing(3, &key("pending"));
    assert_eq!(record.user_id, 3);
    assert_eq!(record.idempotency_key, "pending");
    assert_eq!(record.response_status_code, None);
    assert!(record.response_headers.is_none());
    assert!(record.response_body.is_none());
    assert_eq!(record.get_saved_response().unwrap_err(), RecordError::Incomplete);
}

#[test]
fn a_record_with_one_field_unset_is_incomplete() {
    let record = IdempotencyRecord {
        user_id: 1,
        idempotency_key: "k".to_string(),
        response_status_code: Some(200),
        response_headers: Some(vec![]),
        response_body: None,
    };
    assert_eq!(record.get_saved_response().unwrap_err(), RecordError::Incomplete);
}

#[test]
fn a_stored_status_code_out_of_range_is_refused() {
    for status in [0u16, 99, 1000, 40000] {
        let record = IdempotencyRecord {
            user_id: 1,
            idempotency_key: "k".to_string(),
            response_status_code: Some(status),
            response_headers: Some(vec![]),
            response_body: Some(vec![]),
        };
        assert_eq!(record.get_saved_response().unwrap_err(), RecordError::InvalidStatusCode);
    }
}

#[test]
fn see_other_redirects_with_a_303() {
    let response = see_other("/admin/newsletters");
    assert_eq!(response.status_code, 303);
    assert_eq!(
        pairs(&response.headers),
        vec![("location".to_string(), b"/admin/newsletters".to_vec())]
    );
    assert!(response.body.is_empty());
}

#[test]
fn a_duplicate_response_holds_what_the_first_holds() {
    let response =
        Response::new(200, vec![header("a", b"1"), header("a", b"2")], b"body".to_vec()).unwrap();
    let copy = response.duplicate();
    assert_eq!(copy.status_code, 200);
    assert_eq!(pairs(&copy.headers), pairs(&response.headers));
    assert_eq!(copy.body, response.body);
}

#[test]
fn copies_keep_order_and_content() {
    assert_eq!(copy_bytes(&vec![3, 1, 2]), vec![3, 1, 2]);
    assert_eq!(copy_bytes(&vec![]), Vec::<u8>::new());
    let headers = vec![header("b", b"2"), header("a", b"1")];
    assert_eq!(pairs(&copy_headers(&headers)), pairs(&headers));
}

#[test]
fn a_placeholder_is_inserted_once_per_caller_and_key() {
    let mut table = IdempotencyTable::new();
    assert_eq!(table.len(), 0);
    assert_eq!(table.insert_placeholder(1, &key("k")), 1);
    assert_eq!(table.insert_placeholder(1, &key("k")), 0);
    assert_eq!(table.len(), 1);
    // Another caller, or another key, is another record.
    assert_eq!(table.insert_placeholder(2, &key("k")), 1);
    assert_eq!(table.insert_placeholder(1, &key("other")), 1);
    assert_eq!(table.len(), 3);
}

#[test]
fn the_table_gives_back_what_was_saved() {
    let mut table = IdempotencyTable::new();
    assert!(table.get_saved_response(&key("k"), 1).unwrap().is_none());
    table.insert_placeholder(1, &key("k"));
    assert_eq!(table.get_saved_response(&key("k"), 1).unwrap_err(), RecordError::Incomplete);
    let response = Response::new(303, vec![header("location", b"/x")], b"hi".to_vec()).unwrap();
    table.save_response(&key("k"), 1, &response);
    let saved = table.get_saved_response(&key("k"), 1).unwrap().unwrap();
    assert_eq!(saved.status_code, 303);
    assert_eq!(pairs(&saved.headers), vec![("location".to_string(), b"/x".to_vec())]);
    assert_eq!(saved.body, b"hi".to_vec());
    // The same key of another caller is untouched.
    assert!(table.get_saved_response(&key("k"), 2).unwrap().is_none());
}

#[test]
fn saving_without_a_record_writes_nothing() {
    let mut table = IdempotencyTable::new();
    let response = Response::new(200, vec![], vec![]).unwrap();
    table.save_response(&key("k"), 1, &response);
    assert_eq!(table.len(), 0);
    assert!(table.get_saved_response(&key("k"), 1).unwrap().is_none());
}

#[test]
fn removing_a_record_frees_its_key() {
    let mut table = IdempotencyTable::new();
    table.insert_placeholder(1, &key("a"));
    table.insert_placeholder(1, &key("b"));
    table.remove(&key("a"), 1);
    assert_eq!(table.len(), 1);
    assert_eq!(table.insert_placeholder(1, &key("a")), 1);
    assert_eq!(table.insert_placeholder(1, &key("b")), 0);
    table.remove(&key("missing"), 1);
    assert_eq!(table.len(), 2);
}
