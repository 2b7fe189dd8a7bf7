use vstd::prelude::*;
use crate::event::{Doc, Event};
use crate::hub::{spec_publish, sub_wf, Hub, HubModel, RecvOutcome, Subscription};
use crate::json::{event_to_bytes, parse_event, ser, spec_parse};
use crate::rest::{entry_url, database_url, events_url, Method, RestRequest};

verus! {

broadcast use vstd::std_specs::vec::group_vec_axioms, vstd::seq::group_seq_axioms;

/// Connection lifecycle of a handle's transport session.
#[derive(Debug, PartialEq, Eq)]
pub enum ConnectionState {
    /// No connection: the remote side closed, or the handle was shut down.
    Disconnected,
    /// The handshake is in progress.
    Connecting,
    /// The handshake succeeded and the event stream is live.
    Connected,
    /// The handshake failed, with the reason; terminal for this handle.
    Failed(String),
}

/// What one inbound frame does to the hub: a well-formed frame publishes
/// the document it carries, a malformed one changes nothing.
pub open spec fn spec_on_frame(h: HubModel, f: Seq<u8>) -> HubModel {
    match spec_parse(f) {
        Some(d) => spec_publish(h, d),
        None => h,
    }
}

/// A per-database handle: the identity, the connection state of its
/// transport session, and the fan-out hub its receive loop publishes
/// into. The surrounding runtime performs the socket work and feeds
/// every inbound frame to [`WireKVSDatabase::on_frame`]; decisions and
/// delivery all happen here.
pub struct WireKVSDatabase {
    pub id: String,
    pub access_key: String,
    pub state: ConnectionState,
    pub hub: Hub,
}

impl WireKVSDatabase {
    /// A fresh handle: identity bound, hub empty and open, connection
    /// attempt begun (the handshake result is reported through
    /// [`WireKVSDatabase::on_connected`] or
    /// [`WireKVSDatabase::on_connect_failed`]).
    pub fn new(id: String, access_key: String) -> (r: Self)
        ensures
            r.id@ == id@,
            r.access_key@ == access_key@,
            r.state is Connecting,
            r.hub.wf(),
            r.hub@ == (HubModel { hist: Seq::<Doc>::empty(), closed: false }),
    {
        WireKVSDatabase { id, access_key, state: ConnectionState::Connecting, hub: Hub::new() }
    }

    /// The event endpoint URL this handle connects to.
    pub fn events_url(&self) -> (r: Vec<u8>)
        ensures
            r@ == crate::rest::events_path(self.id@, self.access_key@),
    {
        events_url(self.id.as_str(), self.access_key.as_str())
    }

    /// The handshake succeeded: the session is live.
    pub fn on_connected(&mut self)
        requires
            old(self).state is Connecting,
        ensures
            final(self).state is Connected,
            final(self).id == old(self).id,
            final(self).access_key == old(self).access_key,
            final(self).hub == old(self).hub,
    {
        self.state = ConnectionState::Connected;
    }

    /// The handshake failed: terminal for this handle, and the hub is
    /// torn down so subscriptions see `Closed` rather than hanging.
    pub fn on_connect_failed(&mut self, reason: String)
        requires
            old(self).state is Connecting,
            old(self).hub.wf(),
        ensures
            final(self).state matches ConnectionState::Failed(r) && r@ == reason@,
            final(self).id == old(self).id,
            final(self).access_key == old(self).access_key,
            final(self).hub.wf(),
            final(self).hub@ == (HubModel { hist: old(self).hub@.hist, closed: true }),
    {
        self.state = ConnectionState::Failed(reason);
        self.hub.close();
    }

    /// The remote side closed the stream, or the handle is being torn
    /// down: the transport is released by the runtime, and every
    /// outstanding subscription observes `Closed` from now on.
    pub fn close(&mut self)
        requires
            old(self).hub.wf(),
        ensures
            final(self).state is Disconnected,
            final(self).id == old(self).id,
            final(self).access_key == old(self).access_key,
            final(self).hub.wf(),
            final(self).hub@ == (HubModel { hist: old(self).hub@.hist, closed: true }),
    {
        self.state = ConnectionState::Disconnected;
        self.hub.close();
    }

    /// Handle one inbound frame: a well-formed frame is decoded and
    /// published to every subscription; a malformed one is dropped and
    /// the session carries on with the hub unchanged. Returns whether a
    /// document was published.
    pub fn on_frame(&mut self, frame: &[u8]) -> (published: bool)
        requires
            old(self).hub.wf(),
            old(self).hub@.hist.len() < u64::MAX as nat,
            frame@.len() <= (usize::MAX - 2) / 2,
        ensures
            final(self).hub.wf(),
            final(self).hub@ == spec_on_frame(old(self).hub@, frame@),
            final(self).id == old(self).id,
            final(self).access_key == old(self).access_key,
            final(self).state == old(self).state,
            published == (spec_parse(frame@) is Some && !old(self).hub@.closed),
    {
        match parse_event(frame) {
            Some(e) => self.hub.publish(e),
            None => false,
        }
    }

    /// Attach a new subscription: it receives every event published
    /// after this call, in publish order, and none from before.
    pub fn subscribe(&self) -> (s: Subscription)
        requires
            self.hub.wf(),
        ensures
            s@.attach == self.hub@.hist.len(),
            s@.pos == self.hub@.hist.len(),
            s@.seen == Seq::<Doc>::empty(),
            !s@.lagged,
            sub_wf(s@, self.hub@),
    {
        self.hub.subscribe()
    }

    /// One receive step for a subscription of this handle's hub.
    pub fn receive(&self, sub: &mut Subscription) -> (r: RecvOutcome)
        requires
            self.hub.wf(),
            sub_wf(old(sub)@, self.hub@),
        ensures
            (r@, final(sub)@) == crate::hub::spec_receive(self.hub@, old(sub)@),
            sub_wf(final(sub)@, self.hub@),
    {
        self.hub.receive(sub)
    }

    /// REST call reading every entry of this database.
    pub fn get_all_entries_request(&self) -> (r: RestRequest)
        ensures
            r.method == Method::Get,
            r.url@ == crate::rest::database_path(self.id@),
            r.auth@ == self.access_key@,
            r.body is None,
    {
        RestRequest {
            method: Method::Get,
            url: database_url(self.id.as_str()),
            auth: self.access_key.clone(),
            body: None,
        }
    }

    /// REST call reading one entry by key.
    pub fn get_request(&self, key: &str) -> (r: RestRequest)
        ensures
            r.method == Method::Get,
            r.url@ == crate::rest::entry_path(self.id@, key@),
            r.auth@ == self.access_key@,
            r.body is None,
    {
        RestRequest {
            method: Method::Get,
            url: entry_url(self.id.as_str(), key),
            auth: self.access_key.clone(),
            body: None,
        }
    }

    /// REST call writing one entry: the body is the canonical frame of
    /// the value.
    pub fn set_request(&self, key: &str, value: &Event) -> (r: RestRequest)
        ensures
            r.method == Method::Post,
            r.url@ == crate::rest::entry_path(self.id@, key@),
            r.auth@ == self.access_key@,
            r.body matches Some(b) && b@ == ser(value@),
    {
        RestRequest {
            method: Method::Post,
            url: entry_url(self.id.as_str(), key),
            auth: self.access_key.clone(),
            body: Some(event_to_bytes(value)),
        }
    }

    /// REST call deleting one entry by key.
    pub fn delete_request(&self, key: &str) -> (r: RestRequest)
        ensures
            r.method == Method::Delete,
            r.url@ == crate::rest::entry_path(self.id@, key@),
            r.auth@ == self.access_key@,
            r.body is None,
    {
        RestRequest {
            method: Method::Delete,
            url: entry_url(self.id.as_str(), key),
            auth: self.access_key.clone(),
            body: None,
        }
    }
}

/// A malformed frame never stops delivery: after a malformed frame and
/// then a well-formed one carrying `d`, the published history is the
/// original history with exactly `d` appended.
pub proof fn lemma_bad_frame_does_not_stop_delivery(
    h: HubModel,
    bad: Seq<u8>,
    good: Seq<u8>,
    d: Doc,
)
    requires
        spec_parse(bad) is None,
        spec_parse(good) == Some(d),
        !h.closed,
    ensures
        spec_on_frame(spec_on_frame(h, bad), good).hist == h.hist.push(d),
        !spec_on_frame(spec_on_frame(h, bad), good).closed,
{
}

} // verus!
