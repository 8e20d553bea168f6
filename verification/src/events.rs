//! Typed document events carried by the event bus.

use vstd::prelude::*;

verus! {

/// An event concerning one registered document: either its backing file
/// changed on disk, or a caller moved the cursor position.
#[derive(Debug)]
pub enum DocumentEvent {
    FileChanged { document_id: String },
    PositionUpdate { document_id: String, sourcepos: String },
}

/// Mathematical model of a `DocumentEvent`: the same shape over character
/// sequences, so that contracts can speak of event contents by value.
#[verifier::ext_equal]
pub ghost enum EventModel {
    FileChanged { document_id: Seq<char> },
    PositionUpdate { document_id: Seq<char>, sourcepos: Seq<char> },
}

/// The document id an event is tagged with.
pub open spec fn event_doc_id(e: EventModel) -> Seq<char> {
    match e {
        EventModel::FileChanged { document_id } => document_id,
        EventModel::PositionUpdate { document_id, .. } => document_id,
    }
}

impl View for DocumentEvent {
    type V = EventModel;

    open spec fn view(&self) -> EventModel {
        match self {
            DocumentEvent::FileChanged { document_id } => EventModel::FileChanged {
                document_id: document_id@,
            },
            DocumentEvent::PositionUpdate { document_id, sourcepos } => EventModel::PositionUpdate {
                document_id: document_id@,
                sourcepos: sourcepos@,
            },
        }
    }
}

impl DeepView for DocumentEvent {
    type V = EventModel;

    open spec fn deep_view(&self) -> EventModel {
        self.view()
    }
}

impl Clone for DocumentEvent {
    fn clone(&self) -> (r: Self)
        ensures
            r@ == self@,
    {
        match self {
            DocumentEvent::FileChanged { document_id } => DocumentEvent::FileChanged {
                document_id: document_id.clone(),
            },
            DocumentEvent::PositionUpdate { document_id, sourcepos } => {
                DocumentEvent::PositionUpdate {
                    document_id: document_id.clone(),
                    sourcepos: sourcepos.clone(),
                }
            },
        }
    }
}

impl DocumentEvent {
    /// The document id this event is tagged with.
    pub fn document_id(&self) -> (r: &String)
        ensures
            r@ == event_doc_id(self@),
    {
        match self {
            DocumentEvent::FileChanged { document_id } => document_id,
            DocumentEvent::PositionUpdate { document_id, .. } => document_id,
        }
    }
}

} // verus!
