//! Identifiers of peers and of identity documents.

use vstd::prelude::*;
use vstd::string::StringExecFns;

verus! {

/// Identifier of a network participant, held in its textual encoding.
#[derive(Debug, PartialEq, Eq, Hash)]
pub struct PeerId {
    pub text: String,
}

impl View for PeerId {
    type V = Seq<char>;

    open spec fn view(&self) -> Seq<char> {
        self.text@
    }
}

impl PeerId {
    /// The peer whose encoding is `text`.
    pub fn new(text: &str) -> (peer: PeerId)
        ensures
            peer@ == text@,
    {
        PeerId { text: String::from_str(text) }
    }

    /// The textual encoding.
    pub fn as_str(&self) -> (text: &str)
        ensures
            text@ == self@,
    {
        self.text.as_str()
    }

    /// Whether two identifiers name the same peer.
    pub fn same(&self, other: &PeerId) -> (same: bool)
        ensures
            same == (self@ == other@),
    {
        self.text == other.text
    }
}

impl Clone for PeerId {
    fn clone(&self) -> (peer: PeerId)
        ensures
            peer == *self,
    {
        PeerId { text: self.text.clone() }
    }
}

/// Identifier of a project or person document, held in its textual encoding.
#[derive(Debug, PartialEq, Eq, Hash)]
pub struct Urn {
    pub id: String,
}

impl View for Urn {
    type V = Seq<char>;

    open spec fn view(&self) -> Seq<char> {
        self.id@
    }
}

impl Urn {
    /// The document identifier whose encoding is `id`.
    pub fn new(id: &str) -> (urn: Urn)
        ensures
            urn@ == id@,
    {
        Urn { id: String::from_str(id) }
    }

    /// The textual encoding.
    pub fn as_str(&self) -> (id: &str)
        ensures
            id@ == self@,
    {
        self.id.as_str()
    }

    /// Whether two identifiers name the same document.
    pub fn same(&self, other: &Urn) -> (same: bool)
        ensures
            same == (self@ == other@),
    {
        self.id == other.id
    }
}

impl Clone for Urn {
    fn clone(&self) -> (urn: Urn)
        ensures
            urn == *self,
    {
        Urn { id: self.id.clone() }
    }
}

} // verus!
