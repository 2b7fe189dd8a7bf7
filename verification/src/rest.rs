use vstd::prelude::*;
use vstd::string::{StrSliceExecFns, StringSliceAdditionalSpecFns};
use vstd::utf8::encode_utf8;
use crate::json::append_bytes;
use crate::urlenc::{pe, percent_encode};

verus! {

broadcast use vstd::std_specs::vec::group_vec_axioms, vstd::seq::group_seq_axioms;

/// HTTP method of a REST call.
#[derive(Clone, Copy, PartialEq, Eq, Structural, Debug)]
pub enum Method {
    Get,
    Post,
    Delete,
}

/// One fully-determined REST call for the external request executor:
/// method, absolute URL, `Authorization` header value, and body.
#[derive(Debug)]
pub struct RestRequest {
    pub method: Method,
    pub url: Vec<u8>,
    pub auth: String,
    pub body: Option<Vec<u8>>,
}

/// Base of every REST URL.
pub open spec fn api_base() -> Seq<u8> {
    ("https://kvs.wireway.ch/v2").spec_bytes()
}

/// URL of one database's entry collection.
pub open spec fn database_path(id: Seq<char>) -> Seq<u8> {
    api_base() + ("/database/").spec_bytes() + encode_utf8(id)
}

/// URL of one entry of one database.
pub open spec fn entry_path(id: Seq<char>, key: Seq<char>) -> Seq<u8> {
    database_path(id) + ("/").spec_bytes() + encode_utf8(key)
}

/// URL of the database listing.
pub open spec fn databases_path() -> Seq<u8> {
    api_base() + ("/databases").spec_bytes()
}

/// URL of the database-creation endpoint.
pub open spec fn create_database_path() -> Seq<u8> {
    api_base() + ("/database").spec_bytes()
}

/// Event endpoint for one database: its identifier in the path and its
/// access key percent-encoded in the query component.
pub open spec fn events_path(id: Seq<char>, access_key: Seq<char>) -> Seq<u8> {
    ("wss://kvs.wireway.ch/events/").spec_bytes() + encode_utf8(id) + (
    "?accessKey=").spec_bytes() + pe(encode_utf8(access_key))
}

/// Build the URL of one database's entry collection.
pub fn database_url(id: &str) -> (r: Vec<u8>)
    ensures
        r@ == database_path(id@),
{
    let mut r = ("https://kvs.wireway.ch/v2").as_bytes_vec();
    let part = ("/database/").as_bytes_vec();
    append_bytes(&mut r, &part);
    let idb = id.as_bytes_vec();
    append_bytes(&mut r, &idb);
    proof {
        assert(r@ =~= database_path(id@));
    }
    r
}

/// Build the URL of one entry of one database.
pub fn entry_url(id: &str, key: &str) -> (r: Vec<u8>)
    ensures
        r@ == entry_path(id@, key@),
{
    let mut r = database_url(id);
    let slash = ("/").as_bytes_vec();
    append_bytes(&mut r, &slash);
    let kb = key.as_bytes_vec();
    append_bytes(&mut r, &kb);
    proof {
        assert(r@ =~= entry_path(id@, key@));
    }
    r
}

/// Build the URL of the database listing.
pub fn databases_url() -> (r: Vec<u8>)
    ensures
        r@ == databases_path(),
{
    let mut r = ("https://kvs.wireway.ch/v2").as_bytes_vec();
    let part = ("/databases").as_bytes_vec();
    append_bytes(&mut r, &part);
    proof {
        assert(r@ =~= databases_path());
    }
    r
}

/// Build the URL of the database-creation endpoint.
pub fn create_database_url() -> (r: Vec<u8>)
    ensures
        r@ == create_database_path(),
{
    let mut r = ("https://kvs.wireway.ch/v2").as_bytes_vec();
    let part = ("/database").as_bytes_vec();
    append_bytes(&mut r, &part);
    proof {
        assert(r@ =~= create_database_path());
    }
    r
}

/// Build the event endpoint URL for one database identity.
pub fn events_url(id: &str, access_key: &str) -> (r: Vec<u8>)
    ensures
        r@ == events_path(id@, access_key@),
{
    let mut r = ("wss://kvs.wireway.ch/events/").as_bytes_vec();
    let idb = id.as_bytes_vec();
    append_bytes(&mut r, &idb);
    let q = ("?accessKey=").as_bytes_vec();
    append_bytes(&mut r, &q);
    let kb = access_key.as_bytes_vec();
    let enc = percent_encode(kb.as_slice());
    append_bytes(&mut r, &enc);
    proof {
        assert(r@ =~= events_path(id@, access_key@));
    }
    r
}

} // verus!
