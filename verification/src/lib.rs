mod client;
mod event;
mod handle;
mod hub;
mod json;
mod rest;
mod urlenc;

pub use client::{create_database_doc, DatabaseConfig, WireKVS};
pub use event::{doc_of, docs_of, entries_of, Doc, Event};
pub use handle::{
    lemma_bad_frame_does_not_stop_delivery, spec_on_frame, ConnectionState, WireKVSDatabase,
};
pub use hub::{
    lemma_closed_receives_closed, lemma_consumers_agree, lemma_no_events_before_attach,
    lemma_ordered_delivery, lemma_overrun_lags, lemma_sub_wf_preserved_by_publish, oldest,
    spec_publish, spec_receive, sub_wf, Hub, HubModel, RecvOutcome, RecvStep, SubModel,
    Subscription, HUB_CAPACITY,
};
pub use json::{esc, escape_bytes, event_to_bytes, parse_event, ser, spec_parse};
pub use rest::{
    api_base, database_path, databases_path, entry_path, events_path, events_url, Method,
    RestRequest,
};
pub use urlenc::{pe, percent_encode};
