//! Stable identities for sessions and turns.
use vstd::prelude::*;

use crate::text::{lemma_lex_order_props, lex_order_str};

verus! {

/// Stable identity for one runtime session.
#[derive(Clone, Debug, PartialEq, Eq, Hash, PartialOrd, Ord)]
pub struct RuntimeSessionId(String);

impl View for RuntimeSessionId {
    type V = Seq<char>;

    closed spec fn view(&self) -> Seq<char> {
        self.0@
    }
}

impl RuntimeSessionId {
    /// An identity supplied by an embedding host.
    pub fn new(value: String) -> (r: Self)
        ensures
            r@ == value@,
    {
        RuntimeSessionId(value)
    }

    /// The serialized session identity.
    pub fn as_str(&self) -> (r: &str)
        ensures
            r@ == self@,
    {
        self.0.as_str()
    }

    /// A copy of the identity.
    pub fn duplicate(&self) -> (r: Self)
        ensures
            r@ == self@,
    {
        RuntimeSessionId(self.0.clone())
    }
}

/// Stable identity for one submitted root-agent turn.
#[derive(Clone, Debug, PartialEq, Eq, Hash, PartialOrd, Ord)]
pub struct RuntimeTurnId(String);

impl View for RuntimeTurnId {
    type V = Seq<char>;

    closed spec fn view(&self) -> Seq<char> {
        self.0@
    }
}

/// A hyphenated UUID: 36 characters with hyphens at 8, 13, 18 and 23.
pub open spec fn hyphenated_uuid_shape(s: Seq<char>) -> bool {
    s.len() == 36 && s[8] == '-' && s[13] == '-' && s[18] == '-' && s[23] == '-'
}

/// `uuid::Uuid::new_v4` rendered by its `Display` impl (lower-case,
/// hyphenated). The value is random: only its shape is stated.
#[verifier::external_body]
pub(crate) fn new_v4_string() -> (r: String)
    ensures
        hyphenated_uuid_shape(r@),
{
    uuid::Uuid::new_v4().to_string()
}

impl RuntimeTurnId {
    /// A fresh random identity, a hyphenated UUID.
    pub fn generate() -> (r: Self)
        ensures
            hyphenated_uuid_shape(r@),
    {
        RuntimeTurnId(new_v4_string())
    }

    /// The serialized turn identity.
    pub fn as_str(&self) -> (r: &str)
        ensures
            r@ == self@,
    {
        self.0.as_str()
    }

    /// A copy of the identity.
    pub fn duplicate(&self) -> (r: Self)
        ensures
            r@ == self@,
    {
        RuntimeTurnId(self.0.clone())
    }

    /// Whether two identities are the same.
    pub fn same_as(&self, other: &Self) -> (b: bool)
        ensures
            b == (self@ == other@),
    {
        let c = lex_order_str(self.0.as_str(), other.0.as_str());
        proof {
            lemma_lex_order_props(self.0@, other.0@);
        }
        c == 0
    }
}

} // verus!
