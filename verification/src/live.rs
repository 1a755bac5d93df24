//! A live document as the bridge uses it: the host's document and dispatcher,
//! with the record of every action carried out on it.

use vstd::prelude::*;

use crate::bridge::LiveDocument;
use crate::capture::CaptureAttempt;
use crate::dom::{DocumentModel, SelectorLookup};
use crate::protocol::{ActionRequest, ActionResponse};

verus! {

/// The host's live document, with every action carried out on it so far.
pub struct Dispatching<D> {
    doc: D,
    done: Ghost<Seq<ActionRequest>>,
}

impl<D: LiveDocument> Dispatching<D> {
    /// The actions carried out on the document so far, in order.
    pub closed spec fn dispatched(self) -> Seq<ActionRequest> {
        self.done@
    }

    /// The host's document, with no action carried out yet.
    pub fn new(doc: D) -> (r: Dispatching<D>)
        ensures
            r.dispatched() == Seq::<ActionRequest>::empty(),
    {
        Dispatching { doc, done: Ghost(Seq::empty()) }
    }

    /// The host's document.
    pub fn document(&self) -> &D {
        &self.doc
    }

    /// Gives the host's document back.
    pub fn into_inner(self) -> D {
        self.doc
    }

    /// What inspection reads of the document now.
    pub fn model(&self) -> &DocumentModel {
        self.doc.model()
    }

    /// What the document answers for a selector, given the keys it is
    /// asked by: the CSS query `query` and the element ID `bare_id`; also
    /// gives those keys.
    pub fn lookup_selector(&self, query: &str, bare_id: &str) -> (r: (
        SelectorLookup,
        Ghost<(Seq<char>, Seq<char>)>,
    ))
        ensures
            r.1@ == (query@, bare_id@),
    {
        (self.doc.lookup_selector(query, bare_id), Ghost((query@, bare_id@)))
    }

    /// Carries out `action` on the document, once.
    pub fn dispatch(&mut self, action: &ActionRequest) -> (r: Result<ActionResponse, String>)
        ensures
            final(self).dispatched() == old(self).dispatched().push(*action),
    {
        let r = self.doc.dispatch(action);
        proof {
            self.done@ = self.done@.push(*action);
        }
        r
    }

    /// Renders and stores a capture; no action is carried out.
    pub fn capture(&mut self, node_id: Option<u64>, output_path: &str) -> (r: CaptureAttempt)
        ensures
            final(self).dispatched() == old(self).dispatched(),
    {
        self.doc.capture(node_id, output_path)
    }
}

} // verus!
