use vstd::prelude::*;
use vstd::string::{StrSliceExecFns, StringSliceAdditionalSpecFns};
use vstd::utf8::encode_utf8;
use crate::event::{entries_of, Doc, Event};
use crate::handle::WireKVSDatabase;
use crate::json::{esc, escape_bytes, event_to_bytes, ser};
use crate::rest::{create_database_url, database_url, databases_url, Method, RestRequest};

verus! {

broadcast use vstd::std_specs::vec::group_vec_axioms, vstd::seq::group_seq_axioms;

/// Visibility flags of a database to be created; each defaults to false.
#[derive(Clone, Copy, PartialEq, Eq, Structural, Debug)]
pub struct DatabaseConfig {
    pub allow_public_writes: bool,
    pub allow_public_reads: bool,
    pub allow_public_modifications: bool,
    pub allow_specific_public_reads: bool,
}

impl Default for DatabaseConfig {
    /// All flags off.
    fn default() -> (r: Self)
        ensures
            r == (DatabaseConfig {
                allow_public_writes: false,
                allow_public_reads: false,
                allow_public_modifications: false,
                allow_specific_public_reads: false,
            }),
    {
        DatabaseConfig {
            allow_public_writes: false,
            allow_public_reads: false,
            allow_public_modifications: false,
            allow_specific_public_reads: false,
        }
    }
}

/// The document sent to create a database: its display name (escaped
/// into a string body) and the four visibility flags.
pub open spec fn create_database_doc(name_utf8: Seq<u8>, c: DatabaseConfig) -> Doc {
    Doc::Obj(
        seq![
            (("name").spec_bytes(), Doc::Str(esc(name_utf8))),
            (("allowPublicWrites").spec_bytes(), Doc::Bool(c.allow_public_writes)),
            (("allowPublicReads").spec_bytes(), Doc::Bool(c.allow_public_reads)),
            (("allowPublicModifications").spec_bytes(), Doc::Bool(c.allow_public_modifications)),
            (("allowSpecificPublicReads").spec_bytes(), Doc::Bool(c.allow_specific_public_reads)),
        ],
    )
}

/// Client for database-level administrative operations; holds the
/// account token used as the `Authorization` credential.
pub struct WireKVS {
    pub token: String,
}

impl WireKVS {
    /// A client for the given account token.
    pub fn new(token: String) -> (r: Self)
        ensures
            r.token == token,
    {
        WireKVS { token }
    }

    /// REST call listing the account's databases.
    pub fn list_databases_request(&self) -> (r: RestRequest)
        ensures
            r.method == Method::Get,
            r.url@ == crate::rest::databases_path(),
            r.auth@ == self.token@,
            r.body is None,
    {
        RestRequest {
            method: Method::Get,
            url: databases_url(),
            auth: self.token.clone(),
            body: None,
        }
    }

    /// REST call creating a database with the given name and visibility
    /// flags: the body is the canonical frame of the creation document.
    pub fn create_database_request(&self, name: &str, config: DatabaseConfig) -> (r: RestRequest)
        ensures
            r.method == Method::Post,
            r.url@ == crate::rest::create_database_path(),
            r.auth@ == self.token@,
            r.body matches Some(b) && b@ == ser(create_database_doc(encode_utf8(name@), config)),
    {
        let name_bytes = name.as_bytes_vec();
        let mut entries: Vec<(Vec<u8>, Event)> = Vec::new();
        entries.push((("name").as_bytes_vec(), Event::Str(escape_bytes(name_bytes.as_slice()))));
        entries.push(
            (("allowPublicWrites").as_bytes_vec(), Event::Bool(config.allow_public_writes)),
        );
        entries.push(
            (("allowPublicReads").as_bytes_vec(), Event::Bool(config.allow_public_reads)),
        );
        entries.push(
            (
                ("allowPublicModifications").as_bytes_vec(),
                Event::Bool(config.allow_public_modifications),
            ),
        );
        entries.push(
            (
                ("allowSpecificPublicReads").as_bytes_vec(),
                Event::Bool(config.allow_specific_public_reads),
            ),
        );
        let doc = Event::Obj(entries);
        proof {
            crate::event::lemma_entries_of(doc->Obj_0@);
            assert(entries_of(doc->Obj_0@) =~= create_database_doc(
                encode_utf8(name@),
                config,
            )->Obj_0);
        }
        let body = event_to_bytes(&doc);
        RestRequest {
            method: Method::Post,
            url: create_database_url(),
            auth: self.token.clone(),
            body: Some(body),
        }
    }

    /// REST call deleting a database by identifier.
    pub fn delete_database_request(&self, id: &str) -> (r: RestRequest)
        ensures
            r.method == Method::Delete,
            r.url@ == crate::rest::database_path(id@),
            r.auth@ == self.token@,
            r.body is None,
    {
        RestRequest {
            method: Method::Delete,
            url: database_url(id),
            auth: self.token.clone(),
            body: None,
        }
    }

    /// A handle for direct operations on one database.
    pub fn database(&self, id: String, access_key: String) -> (r: WireKVSDatabase)
        ensures
            r.id@ == id@,
            r.access_key@ == access_key@,
            r.state is Connecting,
            r.hub.wf(),
            r.hub@ == (crate::hub::HubModel { hist: Seq::<Doc>::empty(), closed: false }),
    {
        WireKVSDatabase::new(id, access_key)
    }
}

} // verus!
