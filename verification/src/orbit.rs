//! The identifier of an orbit, the storage namespace that a token targets.

use vstd::prelude::*;
use vstd::string::*;

verus! {

/// An orbit identifier in its canonical text. Which texts name an orbit is for
/// the host's identifier scheme to say: this type carries the canonical text
/// of an identifier that the host has accepted.
#[derive(Debug, Clone, PartialEq, Eq)]
pub struct OrbitId {
    text: String,
}

impl View for OrbitId {
    type V = Seq<char>;

    closed spec fn view(&self) -> Seq<char> {
        self.text@
    }
}

impl OrbitId {
    /// The identifier with the given canonical text.
    pub fn new(text: String) -> (id: OrbitId)
        ensures
            id@ == text@,
    {
        OrbitId { text }
    }

    /// The canonical text.
    pub fn as_str(&self) -> (text: &str)
        ensures
            text@ == self@,
    {
        self.text.as_str()
    }

    /// The canonical text, owned.
    pub fn to_string(&self) -> (text: String)
        ensures
            text@ == self@,
    {
        self.text.clone()
    }

    /// Whether two identifiers have the same canonical text.
    pub fn same(&self, other: &OrbitId) -> (b: bool)
        ensures
            b == (self@ == other@),
    {
        self.text == other.text
    }
}

} // verus!
