//! The shared application state: the document registry and the event bus,
//! composed so that registry mutations publish the events the protocol
//! promises.
//!
//! Concurrency discipline: a process embeds one `AppState` behind a mutual
//! exclusion primitive and calls one operation per critical section; every
//! operation here is a single atomic step over the model. Nothing here
//! blocks: file watching, file reads and network writes happen outside,
//! around these calls.

use vstd::prelude::*;
use crate::bus::{
    bus_wf, has_sub, queue_of, spec_poll, spec_publish, BusModel, EventBus, SubModel,
};
use crate::events::{DocumentEvent, EventModel};
use crate::session::SubscriptionSession;
use crate::store::{
    default_position, has_id_in, has_path_in, id_of_path_in, path_of_in, pos_of_in, spec_register,
    spec_remove, spec_update, wf_docs, DocModel, DocumentStore,
};
use crate::utils::doc_id_of;

verus! {

/// The debounce window in milliseconds: bursts of writes to one path
/// within this window collapse into a single file-changed delivery,
/// trailing edge.
pub const DEBOUNCE_WINDOW_MS: u64 = 300;

/// Mathematical model of the whole state: the registry and the bus.
#[verifier::ext_equal]
pub ghost struct AppModel {
    pub docs: Seq<DocModel>,
    pub bus: BusModel,
}

/// The registry and the event bus of one running instance.
pub struct AppState {
    store: DocumentStore,
    bus: EventBus,
}

impl View for AppState {
    type V = AppModel;

    closed spec fn view(&self) -> AppModel {
        AppModel { docs: self.store@, bus: self.bus@ }
    }
}

impl AppState {
    /// The state invariant: registry and bus both well-formed.
    pub open spec fn wf(&self) -> bool {
        wf_docs(self@.docs) && bus_wf(self@.bus)
    }

    /// A fresh state: no documents, no subscriptions.
    pub fn new() -> (s: Self)
        ensures
            s.wf(),
            s@.docs == Seq::<DocModel>::empty(),
            s@.bus.subs == Seq::<SubModel>::empty(),
    {
        AppState { store: DocumentStore::new(), bus: EventBus::new() }
    }

    /// Looks a document id up by path; no mutation.
    pub fn get_id_by_filepath(&self, filepath: &str) -> (r: Option<String>)
        requires
            self.wf(),
        ensures
            r is Some <==> has_path_in(self@.docs, filepath@),
            r matches Some(id) ==> id@ == id_of_path_in(self@.docs, filepath@),
    {
        self.store.get_id_by_filepath(filepath)
    }

    /// Looks a document path up by id; no mutation.
    pub fn get_filepath_by_id(&self, id: &str) -> (r: Option<String>)
        requires
            self.wf(),
        ensures
            r is Some <==> has_id_in(self@.docs, id@),
            r matches Some(p) ==> p@ == path_of_in(self@.docs, id@),
    {
        self.store.get_filepath_by_id(id)
    }

    /// The stored cursor position of a document, or nothing for an unknown
    /// id.
    pub fn get_position(&self, id: &str) -> (r: Option<String>)
        requires
            self.wf(),
        ensures
            r is Some <==> has_id_in(self@.docs, id@),
            r matches Some(p) ==> p@ == pos_of_in(self@.docs, id@),
    {
        self.store.get_position(id)
    }

    /// A point-in-time snapshot of all (id, path) bindings; the order is
    /// not part of the contract.
    pub fn get_all_documents(&self) -> (r: Vec<(String, String)>)
        ensures
            r@.len() == self@.docs.len(),
            forall|i: int|
                0 <= i < self@.docs.len() ==> r.deep_view()[i] == (
                    self@.docs[i].id,
                    self@.docs[i].path,
                ),
    {
        self.store.get_all_documents()
    }

    /// Inserts a document under a fresh id and path; the caller starts the
    /// filesystem watch afterwards (best-effort, outside this state).
    pub fn add_document(&mut self, id: String, filepath: String)
        requires
            old(self).wf(),
            !has_id_in(old(self)@.docs, id@),
            !has_path_in(old(self)@.docs, filepath@),
        ensures
            final(self).wf(),
            final(self)@.docs == old(self)@.docs.push(
                DocModel { id: id@, path: filepath@, position: default_position() },
            ),
            final(self)@.bus == old(self)@.bus,
    {
        self.store.add_document(id, filepath);
    }

    /// Registers a path, idempotently; see `spec_register`. Publishes
    /// nothing: a fresh document has no subscribers yet.
    pub fn register(&mut self, filepath: String) -> (id: String)
        requires
            old(self).wf(),
            !has_path_in(old(self)@.docs, filepath@) ==> !has_id_in(
                old(self)@.docs,
                doc_id_of(filepath@),
            ),
        ensures
            final(self).wf(),
            final(self)@.docs == spec_register(old(self)@.docs, filepath@).0,
            id@ == spec_register(old(self)@.docs, filepath@).1,
            final(self)@.bus == old(self)@.bus,
    {
        self.store.register(filepath)
    }

    /// Removes a document by id, returning its path; safe on unknown ids.
    /// The caller stops the filesystem watch for the returned path.
    pub fn remove_document(&mut self, id: &str) -> (r: Option<String>)
        requires
            old(self).wf(),
        ensures
            final(self).wf(),
            final(self)@.docs == spec_remove(old(self)@.docs, id@).0,
            r.deep_view() == spec_remove(old(self)@.docs, id@).1,
            final(self)@.bus == old(self)@.bus,
    {
        self.store.remove_document(id)
    }

    /// Overwrites the cursor position of a known document and publishes the
    /// position update to every subscription; an unknown id is reported as
    /// not found, with nothing stored and nothing published.
    pub fn update_position(&mut self, id: &str, sourcepos: String) -> (found: bool)
        requires
            old(self).wf(),
        ensures
            final(self).wf(),
            found == has_id_in(old(self)@.docs, id@),
            final(self)@.docs == spec_update(old(self)@.docs, id@, sourcepos@),
            found ==> final(self)@.bus == spec_publish(
                old(self)@.bus,
                EventModel::PositionUpdate { document_id: id@, sourcepos: sourcepos@ },
            ),
            !found ==> final(self)@.bus == old(self)@.bus,
    {
        let ev = DocumentEvent::PositionUpdate {
            document_id: id.to_owned(),
            sourcepos: sourcepos.clone(),
        };
        let found = self.store.update_position(id, sourcepos);
        if found {
            self.bus.publish(&ev);
        }
        found
    }

    /// Routes a debounced filesystem change for a path: if the path is
    /// still registered, a file-changed event is published under its id;
    /// a path no longer registered is dropped silently.
    pub fn on_file_changed(&mut self, path: &str) -> (delivered: bool)
        requires
            old(self).wf(),
        ensures
            final(self).wf(),
            final(self)@.docs == old(self)@.docs,
            delivered == has_path_in(old(self)@.docs, path@),
            delivered ==> final(self)@.bus == spec_publish(
                old(self)@.bus,
                EventModel::FileChanged {
                    document_id: id_of_path_in(old(self)@.docs, path@),
                },
            ),
            !delivered ==> final(self)@.bus == old(self)@.bus,
    {
        match self.store.get_id_by_filepath(path) {
            Some(id) => {
                let ev = DocumentEvent::FileChanged { document_id: id };
                self.bus.publish(&ev);
                true
            },
            None => false,
        }
    }

    /// Whether another session can still be opened (subscription keys are
    /// never reused, so they can in principle run out).
    pub fn can_open_session(&self) -> (r: bool)
        ensures
            r == (self@.bus.next < u64::MAX),
    {
        self.bus.has_fresh_keys()
    }

    /// Opens a subscription session for a document id; nothing for an
    /// unknown id. See `SubscriptionSession::open`.
    pub fn open_session(&mut self, id: &str) -> (r: Option<SubscriptionSession>)
        requires
            old(self).wf(),
            old(self)@.bus.next < u64::MAX,
        ensures
            final(self).wf(),
            final(self)@.docs == old(self)@.docs,
            r is Some <==> has_id_in(old(self)@.docs, id@),
            r matches Some(s) ==> {
                &&& s@.target == id@
                &&& s@.state is Connecting
                &&& s@.snapshot == pos_of_in(old(self)@.docs, id@)
                &&& s@.key == old(self)@.bus.next
                &&& final(self)@.bus.subs == old(self)@.bus.subs.push(
                    SubModel { key: s@.key, events: Seq::empty() },
                )
                &&& has_sub(final(self)@.bus, s@.key)
                &&& queue_of(final(self)@.bus, s@.key) == Seq::<EventModel>::empty()
            },
            r is None ==> final(self)@.bus == old(self)@.bus,
    {
        SubscriptionSession::open(&self.store, &mut self.bus, id)
    }

    /// Takes the oldest undelivered event of a session's subscription, if
    /// any; see `spec_poll`.
    pub fn poll_session(&mut self, session: &SubscriptionSession) -> (r: Option<DocumentEvent>)
        requires
            old(self).wf(),
        ensures
            final(self).wf(),
            final(self)@.docs == old(self)@.docs,
            final(self)@.bus == spec_poll(old(self)@.bus, session@.key).0,
            r.deep_view() == spec_poll(old(self)@.bus, session@.key).1,
    {
        self.bus.poll(session.subscription_key())
    }

    /// Decides what a session does with one bus event; see `spec_action`.
    pub fn session_action(&self, session: &SubscriptionSession, ev: &DocumentEvent) -> (act:
        crate::session::SessionAction)
        requires
            self.wf(),
            session@.state is Streaming,
        ensures
            act@ == crate::session::spec_action(session@.target, self@.docs, ev@),
    {
        session.handle_event(&self.store, ev)
    }

    /// Closes a session, removing its bus subscription; see
    /// `SubscriptionSession::close`.
    pub fn close_session(&mut self, session: &mut SubscriptionSession)
        requires
            old(self).wf(),
            !(old(session)@.state is Closed),
        ensures
            final(self).wf(),
            final(self)@.docs == old(self)@.docs,
            final(session)@.state is Closed,
            final(session)@.target == old(session)@.target,
            final(session)@.key == old(session)@.key,
            !has_sub(final(self)@.bus, old(session)@.key),
    {
        session.close(&mut self.bus);
    }
}

impl Default for AppState {
    /// A fresh state, as `new` builds it.
    fn default() -> (s: Self)
        ensures
            s.wf(),
            s@.docs == Seq::<DocModel>::empty(),
            s@.bus.subs == Seq::<SubModel>::empty(),
    {
        AppState::new()
    }
}

} // verus!

