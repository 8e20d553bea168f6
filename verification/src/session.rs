//! Per-client subscription sessions: the streaming protocol as a state
//! machine.
//!
//! A session is bound to one document id. Opening fails on an unknown id.
//! An open session first emits a snapshot of the current cursor position,
//! then streams: every bus event is filtered to the session's document;
//! matching position updates are forwarded directly, matching file changes
//! ask the caller to re-read the backing file and are answered with the
//! rendered content (or a placeholder on failure). Closing deterministically
//! removes the session's bus subscription.

use vstd::prelude::*;
use crate::bus::{has_sub, idx_of_sub, queue_of, EventBus, SubModel};
use crate::events::{event_doc_id, DocumentEvent, EventModel};
use crate::markdown::{rendered_html_of, try_render_markdown};
use crate::store::{has_id_in, path_of_in, pos_of_in, DocModel, DocumentStore};
use crate::utils::str_eq;
use crate::wire::{html_json, html_payload, position_json, position_payload};

verus! {

/// Seconds of inactivity after which a session's transport sends a
/// liveness probe, keeping intermediaries from timing the connection out.
pub const KEEP_ALIVE_SECS: u64 = 30;

/// The protocol states of a session. `Streaming` is the only state in
/// which bus events are consumed; `Closed` is terminal.
pub enum SessionState {
    Connecting,
    SnapshotSent,
    Streaming,
    Closed,
}

/// The kind of a wire message.
pub enum MessageKind {
    Position,
    FileChanged,
}

/// One outbound message: its kind and its JSON body.
pub struct WireMessage {
    pub kind: MessageKind,
    pub data: String,
}

/// Mathematical model of a wire message.
#[verifier::ext_equal]
pub ghost struct MessageModel {
    pub kind: MessageKind,
    pub data: Seq<char>,
}

impl View for WireMessage {
    type V = MessageModel;

    open spec fn view(&self) -> MessageModel {
        MessageModel { kind: self.kind, data: self.data@ }
    }
}

/// What a session does with one bus event.
pub enum SessionAction {
    /// The event concerns another document: nothing is delivered.
    Ignore,
    /// Deliver this message as it stands.
    Deliver(WireMessage),
    /// Re-read the file at this path and answer with
    /// `file_changed_message`.
    ReadAndRender(String),
}

/// Mathematical model of a session action.
#[verifier::ext_equal]
pub ghost enum ActionModel {
    Ignore,
    Deliver(MessageModel),
    ReadAndRender(Seq<char>),
}

impl View for SessionAction {
    type V = ActionModel;

    open spec fn view(&self) -> ActionModel {
        match self {
            SessionAction::Ignore => ActionModel::Ignore,
            SessionAction::Deliver(m) => ActionModel::Deliver(m@),
            SessionAction::ReadAndRender(p) => ActionModel::ReadAndRender(p@),
        }
    }
}

/// Mathematical model of a session.
#[verifier::ext_equal]
pub ghost struct SessionModel {
    pub target: Seq<char>,
    pub key: u64,
    pub state: SessionState,
    pub snapshot: Seq<char>,
}

/// A live subscription session for one document.
pub struct SubscriptionSession {
    target_id: String,
    sub_key: u64,
    state: SessionState,
    snapshot_pos: String,
}

impl View for SubscriptionSession {
    type V = SessionModel;

    closed spec fn view(&self) -> SessionModel {
        SessionModel {
            target: self.target_id@,
            key: self.sub_key,
            state: self.state,
            snapshot: self.snapshot_pos@,
        }
    }
}

/// The action a session takes on one bus event: events for other documents
/// are ignored; a matching position update is forwarded as a position
/// message; a matching file change asks for the registered file to be
/// re-read, or reports the document gone when it left the registry between
/// publish and delivery.
pub open spec fn spec_action(target: Seq<char>, docs: Seq<DocModel>, ev: EventModel) -> ActionModel {
    if event_doc_id(ev) != target {
        ActionModel::Ignore
    } else {
        match ev {
            EventModel::PositionUpdate { sourcepos, .. } => ActionModel::Deliver(
                MessageModel { kind: MessageKind::Position, data: position_payload(sourcepos) },
            ),
            EventModel::FileChanged { .. } => {
                if has_id_in(docs, target) {
                    ActionModel::ReadAndRender(path_of_in(docs, target))
                } else {
                    ActionModel::Deliver(
                        MessageModel {
                            kind: MessageKind::FileChanged,
                            data: html_payload("<p>Document not found</p>"@),
                        },
                    )
                }
            },
        }
    }
}

/// An event tagged with another document id is never delivered: the
/// session's filter ignores it, whatever the registry holds.
pub proof fn lemma_no_cross_delivery(target: Seq<char>, docs: Seq<DocModel>, ev: EventModel)
    requires
        event_doc_id(ev) != target,
    ensures
        spec_action(target, docs, ev) is Ignore,
{
}

/// The message answering a matched file change, given the outcome of
/// re-reading the backing file: the freshly rendered content, or a
/// placeholder when the read failed. Failure never terminates the session.
pub open spec fn spec_file_changed_data(content: Option<Seq<char>>) -> Seq<char> {
    match content {
        Some(c) => html_payload(rendered_html_of(c)),
        None => html_payload("<p>Error reading file</p>"@),
    }
}

/// Builds the content-changed message from a file read outcome.
pub fn file_changed_message(content: Option<&str>) -> (m: WireMessage)
    ensures
        m@.kind is FileChanged,
        m@.data == spec_file_changed_data(
            match content {
                Some(c) => Some(c@),
                None => None,
            },
        ),
{
    match content {
        Some(c) => match try_render_markdown(c) {
            Ok(h) => WireMessage { kind: MessageKind::FileChanged, data: html_json(h.as_str()) },
            Err(_) => WireMessage {
                kind: MessageKind::FileChanged,
                data: html_json("<p>Error rendering markdown</p>"),
            },
        },
        None => WireMessage {
            kind: MessageKind::FileChanged,
            data: html_json("<p>Error reading file</p>"),
        },
    }
}

impl SubscriptionSession {
    /// Opens a session for a document id: nothing for an unknown id; for a
    /// known one, a fresh bus subscription and the current cursor position
    /// as the snapshot, in the `Connecting` state.
    pub fn open(store: &DocumentStore, bus: &mut EventBus, id: &str) -> (r: Option<
        SubscriptionSession,
    >)
        requires
            store.wf(),
            old(bus).wf(),
            old(bus)@.next < u64::MAX,
        ensures
            final(bus).wf(),
            r is Some <==> has_id_in(store@, id@),
            r matches Some(s) ==> {
                &&& s@.target == id@
                &&& s@.state is Connecting
                &&& s@.snapshot == pos_of_in(store@, id@)
                &&& s@.key == old(bus)@.next
                &&& final(bus)@.subs == old(bus)@.subs.push(
                    SubModel { key: s@.key, events: Seq::empty() },
                )
                &&& final(bus)@.next == old(bus)@.next + 1
                &&& has_sub(final(bus)@, s@.key)
                &&& queue_of(final(bus)@, s@.key) == Seq::<EventModel>::empty()
            },
            r is None ==> final(bus)@ == old(bus)@,
    {
        if store.get_filepath_by_id(id).is_none() {
            return None;
        }
        let snapshot = match store.get_position(id) {
            Some(p) => p,
            None => "1:1-1:1".to_owned(),
        };
        let key = bus.subscribe();
        Some(
            SubscriptionSession {
                target_id: id.to_owned(),
                sub_key: key,
                state: SessionState::Connecting,
                snapshot_pos: snapshot,
            },
        )
    }

    /// Whether the session has reached its terminal state.
    pub fn is_closed(&self) -> (r: bool)
        ensures
            r == (self@.state is Closed),
    {
        match self.state {
            SessionState::Closed => true,
            _ => false,
        }
    }

    /// The bus subscription key this session consumes from.
    pub fn subscription_key(&self) -> (k: u64)
        ensures
            k == self@.key,
    {
        self.sub_key
    }

    /// The one message sent on open: the position snapshot taken when the
    /// session was opened.
    pub fn emit_snapshot(&mut self) -> (m: WireMessage)
        requires
            old(self)@.state is Connecting,
        ensures
            final(self)@ == (SessionModel { state: SessionState::SnapshotSent, ..old(self)@ }),
            m@.kind is Position,
            m@.data == position_payload(old(self)@.snapshot),
    {
        self.state = SessionState::SnapshotSent;
        WireMessage { kind: MessageKind::Position, data: position_json(self.snapshot_pos.as_str()) }
    }

    /// Enters the streaming state, in which bus events are consumed.
    pub fn start_streaming(&mut self)
        requires
            old(self)@.state is SnapshotSent,
        ensures
            final(self)@ == (SessionModel { state: SessionState::Streaming, ..old(self)@ }),
    {
        self.state = SessionState::Streaming;
    }

    /// Decides what to do with one bus event; see `spec_action`.
    pub fn handle_event(&self, store: &DocumentStore, ev: &DocumentEvent) -> (act: SessionAction)
        requires
            store.wf(),
            self@.state is Streaming,
        ensures
            act@ == spec_action(self@.target, store@, ev@),
    {
        let doc_id = ev.document_id();
        if !str_eq(doc_id.as_str(), self.target_id.as_str()) {
            return SessionAction::Ignore;
        }
        match ev {
            DocumentEvent::PositionUpdate { sourcepos, .. } => SessionAction::Deliver(
                WireMessage {
                    kind: MessageKind::Position,
                    data: position_json(sourcepos.as_str()),
                },
            ),
            DocumentEvent::FileChanged { .. } => {
                match store.get_filepath_by_id(self.target_id.as_str()) {
                    Some(p) => SessionAction::ReadAndRender(p),
                    None => SessionAction::Deliver(
                        WireMessage {
                            kind: MessageKind::FileChanged,
                            data: html_json("<p>Document not found</p>"),
                        },
                    ),
                }
            },
        }
    }

    /// Closes the session: its bus subscription is removed, so nothing
    /// keeps consuming bus capacity, and the state is terminally `Closed`.
    pub fn close(&mut self, bus: &mut EventBus)
        requires
            old(bus).wf(),
            !(old(self)@.state is Closed),
        ensures
            final(self)@ == (SessionModel { state: SessionState::Closed, ..old(self)@ }),
            final(bus).wf(),
            !has_sub(final(bus)@, old(self)@.key),
            final(bus)@.next == old(bus)@.next,
            has_sub(old(bus)@, old(self)@.key) ==> final(bus)@.subs == old(bus)@.subs.remove(
                idx_of_sub(old(bus)@, old(self)@.key),
            ),
            !has_sub(old(bus)@, old(self)@.key) ==> final(bus)@ == old(bus)@,
    {
        bus.unsubscribe(self.sub_key);
        self.state = SessionState::Closed;
    }
}

} // verus!
