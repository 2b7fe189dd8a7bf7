use std::collections::HashMap;
use wirekvs::{
    escape_bytes, event_to_bytes, parse_event, percent_encode, DatabaseConfig, Event, Method,
    WireKVS, WireKVSDatabase,
};

#[test]
fn parses_atoms() {
    assert_eq!(parse_event(b"null"), Some(Event::Null));
    assert_eq!(parse_event(b"true"), Some(Event::Bool(true)));
    assert_eq!(parse_event(b"false"), Some(Event::Bool(false)));
    assert_eq!(parse_event(b"42"), Some(Event::Num(b"42".to_vec())));
    assert_eq!(parse_event(b"-3.5e+10"), Some(Event::Num(b"-3.5e+10".to_vec())));
    assert_eq!(parse_event(b"0"), Some(Event::Num(b"0".to_vec())));
    assert_eq!(parse_event(b"\"hi\""), Some(Event::Str(b"hi".to_vec())));
    assert_eq!(parse_event(b"\"\""), Some(Event::Str(b"".to_vec())));
}

#[test]
fn parses_structures_with_whitespace() {
    assert_eq!(parse_event(b" [ ] "), Some(Event::Arr(vec![])));
    assert_eq!(parse_event(b"{ }"), Some(Event::Obj(vec![])));
    assert_eq!(
        parse_event(b" [ 1 , \"a\" , null ] "),
        Some(Event::Arr(vec![
            Event::Num(b"1".to_vec()),
            Event::Str(b"a".to_vec()),
            Event::Null,
        ]))
    );
    assert_eq!(
        parse_event(b"{\"a\": [true, {\"b\": 0}]}"),
        Some(Event::Obj(vec![(
            b"a".to_vec(),
            Event::Arr(vec![
                Event::Bool(true),
                Event::Obj(vec![(b"b".to_vec(), Event::Num(b"0".to_vec()))]),
            ]),
        )]))
    );
}

#[test]
fn keeps_string_escapes_verbatim() {
    assert_eq!(
        parse_event(b"\"a\\n\\\"b\\u00e9\""),
        Some(Event::Str(b"a\\n\\\"b\\u00e9".to_vec()))
    );
}

#[test]
fn rejects_malformed_frames() {
    assert_eq!(parse_event(b""), None);
    assert_eq!(parse_event(b"   "), None);
    assert_eq!(parse_event(b"nul"), None);
    assert_eq!(parse_event(b"truth"), None);
    assert_eq!(parse_event(b"01"), None);
    assert_eq!(parse_event(b"1."), None);
    assert_eq!(parse_event(b"\"unterminated"), None);
    assert_eq!(parse_event(b"\"bad\\x\""), None);
    assert_eq!(parse_event(b"\"ctrl\x01\""), None);
    assert_eq!(parse_event(b"[1,]"), None);
    assert_eq!(parse_event(b"[1 2]"), None);
    assert_eq!(parse_event(b"{\"a\" 1}"), None);
    assert_eq!(parse_event(b"{a: 1}"), None);
    assert_eq!(parse_event(b"{\"a\":1} extra"), None);
    assert_eq!(parse_event(b"[1"), None);
    assert_eq!(parse_event(b"--1"), None);
    assert_eq!(parse_event(b"+1"), None);
    assert_eq!(parse_event(b"1e"), None);
    assert_eq!(parse_event(b"\"bad\\u00g1\""), None);
    assert_eq!(parse_event(b"{\"a\":}"), None);
    assert_eq!(parse_event(b"null null"), None);
}

#[test]
fn parses_deep_nesting_and_number_edge_forms() {
    assert_eq!(
        parse_event(b"[[[0]]]"),
        Some(Event::Arr(vec![Event::Arr(vec![Event::Arr(vec![Event::Num(
            b"0".to_vec()
        )])])]))
    );
    assert_eq!(parse_event(b"0.5"), Some(Event::Num(b"0.5".to_vec())));
    assert_eq!(parse_event(b"-0"), Some(Event::Num(b"-0".to_vec())));
    assert_eq!(parse_event(b"2E8"), Some(Event::Num(b"2E8".to_vec())));
    assert_eq!(parse_event(b"10"), Some(Event::Num(b"10".to_vec())));
}

#[test]
fn serializes_canonically() {
    let e = Event::Obj(vec![
        (b"a".to_vec(), Event::Arr(vec![Event::Num(b"1".to_vec()), Event::Null])),
        (b"b".to_vec(), Event::Str(b"x".to_vec())),
    ]);
    assert_eq!(event_to_bytes(&e), b"{\"a\":[1,null],\"b\":\"x\"}".to_vec());
    assert_eq!(event_to_bytes(&Event::Bool(false)), b"false".to_vec());
}

#[test]
fn serialize_then_parse_returns_the_same_document() {
    let e = Event::Obj(vec![
        (b"type".to_vec(), Event::Str(b"set".to_vec())),
        (
            b"values".to_vec(),
            Event::Arr(vec![
                Event::Num(b"-2.5".to_vec()),
                Event::Bool(true),
                Event::Obj(vec![]),
            ]),
        ),
    ]);
    let bytes = event_to_bytes(&e);
    assert_eq!(parse_event(&bytes), Some(e));
}

#[test]
fn deep_copy_equals_original() {
    let e = Event::Obj(vec![(
        b"k".to_vec(),
        Event::Arr(vec![Event::Str(b"v".to_vec()), Event::Num(b"7".to_vec())]),
    )]);
    assert_eq!(e.dup(), e);
}

#[test]
fn percent_encoding_matches_expected_bytes() {
    assert_eq!(percent_encode(b"abcXYZ019-._~"), b"abcXYZ019-._~".to_vec());
    assert_eq!(percent_encode(b"a key/+"), b"a%20key%2F%2B".to_vec());
    assert_eq!(percent_encode(b"\xff\x00"), b"%FF%00".to_vec());
}

#[test]
fn escaping_protects_quotes_backslashes_and_controls() {
    assert_eq!(escape_bytes(b"plain"), b"plain".to_vec());
    assert_eq!(escape_bytes(b"a\"b\\c\n"), b"a\\\"b\\\\c\\u000A".to_vec());
}

#[test]
fn event_endpoint_url_percent_encodes_the_access_key() {
    let db = WireKVSDatabase::new("my-db".to_string(), "s3cret key/1".to_string());
    assert_eq!(
        db.events_url(),
        b"wss://kvs.wireway.ch/events/my-db?accessKey=s3cret%20key%2F1".to_vec()
    );
}

#[test]
fn entry_requests_carry_method_url_and_credential() {
    let db = WireKVSDatabase::new("my-db".to_string(), "ak".to_string());
    let get = db.get_request("greeting");
    assert_eq!(get.method, Method::Get);
    assert_eq!(get.url, b"https://kvs.wireway.ch/v2/database/my-db/greeting".to_vec());
    assert_eq!(get.auth, "ak".to_string());
    assert!(get.body.is_none());

    let all = db.get_all_entries_request();
    assert_eq!(all.method, Method::Get);
    assert_eq!(all.url, b"https://kvs.wireway.ch/v2/database/my-db".to_vec());

    let set = db.set_request("greeting", &Event::Str(b"Hello!".to_vec()));
    assert_eq!(set.method, Method::Post);
    assert_eq!(set.url, b"https://kvs.wireway.ch/v2/database/my-db/greeting".to_vec());
    assert_eq!(set.body, Some(b"\"Hello!\"".to_vec()));

    let del = db.delete_request("greeting");
    assert_eq!(del.method, Method::Delete);
    assert_eq!(del.url, b"https://kvs.wireway.ch/v2/database/my-db/greeting".to_vec());
    assert!(del.body.is_none());
}

#[test]
fn admin_requests_carry_token_and_flags() {
    let client = WireKVS::new("tok-1".to_string());
    assert_eq!(client.token, "tok-1".to_string());

    let list = client.list_databases_request();
    assert_eq!(list.method, Method::Get);
    assert_eq!(list.url, b"https://kvs.wireway.ch/v2/databases".to_vec());
    assert_eq!(list.auth, "tok-1".to_string());

    let config = DatabaseConfig {
        allow_public_reads: true,
        allow_specific_public_reads: true,
        ..Default::default()
    };
    let create = client.create_database_request("Demo \"DB\"", config);
    assert_eq!(create.method, Method::Post);
    assert_eq!(create.url, b"https://kvs.wireway.ch/v2/database".to_vec());
    let expected_body = "{\"name\":\"Demo \\\"DB\\\"\",\"allowPublicWrites\":false,\"allowPublicReads\":true,\"allowPublicModifications\":false,\"allowSpecificPublicReads\":true}";
    assert_eq!(create.body, Some(expected_body.as_bytes().to_vec()));

    let del = client.delete_database_request("db-9");
    assert_eq!(del.method, Method::Delete);
    assert_eq!(del.url, b"https://kvs.wireway.ch/v2/database/db-9".to_vec());
}

#[test]
fn default_config_has_all_flags_off() {
    let c = DatabaseConfig::default();
    assert!(!c.allow_public_writes);
    assert!(!c.allow_public_reads);
    assert!(!c.allow_public_modifications);
    assert!(!c.allow_specific_public_reads);
}

struct FakeRestExecutor {
    store: HashMap<Vec<u8>, Vec<u8>>,
}

impl FakeRestExecutor {
    fn new() -> Self {
        FakeRestExecutor { store: HashMap::new() }
    }

    fn execute(&mut self, req: &wirekvs::RestRequest) -> Option<Vec<u8>> {
        match req.method {
            Method::Post => {
                let body = req.body.clone().expect("post carries a body");
                self.store.insert(req.url.clone(), body);
                None
            }
            Method::Get => self.store.get(&req.url).cloned(),
            Method::Delete => {
                self.store.remove(&req.url);
                None
            }
        }
    }
}

#[test]
fn set_then_get_returns_the_value_last_written() {
    let mut db = WireKVSDatabase::new("db-7".to_string(), "ak".to_string());
    db.on_connected();
    let mut exec = FakeRestExecutor::new();

    let value = Event::Str(b"42".to_vec());
    exec.execute(&db.set_request("number", &value));
    // Concurrent event traffic on the same handle must not interfere.
    let mut sub = db.subscribe();
    assert!(db.on_frame(b"{\"type\":\"set\",\"key\":\"number\"}"));
    let body = exec
        .execute(&db.get_request("number"))
        .expect("the key was written");
    assert_eq!(parse_event(&body), Some(value));

    exec.execute(&db.set_request("number", &Event::Str(b"43".to_vec())));
    let body = exec
        .execute(&db.get_request("number"))
        .expect("the key was written");
    assert_eq!(parse_event(&body), Some(Event::Str(b"43".to_vec())));

    exec.execute(&db.delete_request("number"));
    assert!(exec.execute(&db.get_request("number")).is_none());
    assert!(matches!(
        db.receive(&mut sub),
        wirekvs::RecvOutcome::Received(_)
    ));
}
