//! Token values for an XML lexer sharing this crate's attribute type.
//! Only the data model lives here; the tokenizer of this crate drives
//! the HTML state machine.

use vstd::prelude::*;
use crate::tokens::{attrs_views, Attribute, Doctype};
use crate::tokens::attrs_eq;
use crate::tokens::attr_multisets_eq;

verus! {

#[derive(PartialEq, Eq, Structural, Clone, Copy, Debug, Hash)]
pub enum XTagKind {
    StartXTag,
    EndXTag,
    EmptyXTag,
    ShortXTag,
}

/// An XML tag token.
#[derive(Debug)]
pub struct XTag {
    pub kind: XTagKind,
    pub name: String,
    pub attrs: Vec<Attribute>,
}

/// XML tags are equivalent modulo attribute order when kind and name
/// agree and the attribute lists hold the same multiset of
/// (name, value) pairs.
pub open spec fn spec_xtag_equiv_modulo_attr_order(a: &XTag, b: &XTag) -> bool {
    &&& a.kind == b.kind
    &&& a.name@ == b.name@
    &&& attrs_views(a.attrs@).to_multiset() == attrs_views(b.attrs@).to_multiset()
}

impl XTag {
    /// What equality of two XML tags means: kind, name, and the
    /// attribute lists in order.
    pub open spec fn eq_view(&self, other: &XTag) -> bool {
        &&& self.kind == other.kind
        &&& self.name@ == other.name@
        &&& attrs_views(self.attrs@) == attrs_views(other.attrs@)
    }

    /// Are the tags equivalent when we don't care about attribute order?
    pub fn equiv_modulo_attr_order(&self, other: &XTag) -> (r: bool)
        ensures
            r == spec_xtag_equiv_modulo_attr_order(self, other),
    {
        if !(self.kind == other.kind) {
            return false;
        }
        if !(self.name == other.name) {
            return false;
        }
        attr_multisets_eq(&self.attrs, &other.attrs)
    }
}

impl PartialEq for XTag {
    fn eq(&self, other: &XTag) -> (r: bool) {
        self.kind == other.kind && self.name == other.name && attrs_eq(&self.attrs, &other.attrs)
    }
}

impl vstd::std_specs::cmp::PartialEqSpecImpl for XTag {
    open spec fn obeys_eq_spec() -> bool {
        true
    }

    open spec fn eq_spec(&self, other: &XTag) -> bool {
        self.eq_view(other)
    }
}

/// An XML processing instruction.
#[derive(Debug)]
pub struct XPi {
    pub target: String,
    pub data: String,
}

impl XPi {
    /// What equality of two processing instructions means.
    pub open spec fn eq_view(&self, other: &XPi) -> bool {
        self.target@ == other.target@ && self.data@ == other.data@
    }
}

impl PartialEq for XPi {
    fn eq(&self, other: &XPi) -> (r: bool) {
        self.target == other.target && self.data == other.data
    }
}

impl vstd::std_specs::cmp::PartialEqSpecImpl for XPi {
    open spec fn obeys_eq_spec() -> bool {
        true
    }

    open spec fn eq_spec(&self, other: &XPi) -> bool {
        self.eq_view(other)
    }
}

/// A token an XML lexer may emit.
#[derive(Debug)]
pub enum XToken {
    DoctypeXToken(Doctype),
    XTagToken(XTag),
    PIToken(XPi),
    CommentXToken(String),
    CharacterXTokens(String),
    EOFXToken,
    NullCharacterXToken,
    XParseError(String),
}

impl XToken {
    /// What equality of two tokens means: same variant, equal contents.
    pub open spec fn eq_view(&self, other: &XToken) -> bool {
        match (self, other) {
            (XToken::DoctypeXToken(a), XToken::DoctypeXToken(b)) => a.eq_view(b),
            (XToken::XTagToken(a), XToken::XTagToken(b)) => a.eq_view(b),
            (XToken::PIToken(a), XToken::PIToken(b)) => a.eq_view(b),
            (XToken::CommentXToken(a), XToken::CommentXToken(b)) => a@ == b@,
            (XToken::CharacterXTokens(a), XToken::CharacterXTokens(b)) => a@ == b@,
            (XToken::EOFXToken, XToken::EOFXToken) => true,
            (XToken::NullCharacterXToken, XToken::NullCharacterXToken) => true,
            (XToken::XParseError(a), XToken::XParseError(b)) => a@ == b@,
            _ => false,
        }
    }
}

impl PartialEq for XToken {
    fn eq(&self, other: &XToken) -> (r: bool) {
        match (self, other) {
            (XToken::DoctypeXToken(a), XToken::DoctypeXToken(b)) => *a == *b,
            (XToken::XTagToken(a), XToken::XTagToken(b)) => *a == *b,
            (XToken::PIToken(a), XToken::PIToken(b)) => *a == *b,
            (XToken::CommentXToken(a), XToken::CommentXToken(b)) => *a == *b,
            (XToken::CharacterXTokens(a), XToken::CharacterXTokens(b)) => *a == *b,
            (XToken::EOFXToken, XToken::EOFXToken) => true,
            (XToken::NullCharacterXToken, XToken::NullCharacterXToken) => true,
            (XToken::XParseError(a), XToken::XParseError(b)) => *a == *b,
            _ => false,
        }
    }
}

impl vstd::std_specs::cmp::PartialEqSpecImpl for XToken {
    open spec fn obeys_eq_spec() -> bool {
        true
    }

    open spec fn eq_spec(&self, other: &XToken) -> bool {
        self.eq_view(other)
    }
}

/// The lexical modes a sink can redirect an XML lexer into.
#[derive(PartialEq, Eq, Structural, Clone, Copy, Debug)]
pub enum XmlState {
    Data,
    Tag,
    Pi,
    Comment,
    Cdata,
    Doctype,
}

/// Types which can receive tokens from an XML lexer.
pub trait XTokenSink {
    /// All tokens this sink has been handed so far, in delivery order.
    spec fn sunk(&self) -> Seq<XToken>;

    /// Process a token.
    fn process_token(&mut self, token: XToken)
        ensures
            final(self).sunk() == old(self).sunk().push(token),
    ;

    /// The lexer calls this after emitting any start tag.  Returning a
    /// state redirects the lexer; by default no state changes occur.
    fn query_state_change(&mut self) -> (r: Option<XmlState>)
        ensures
            final(self).sunk() == old(self).sunk(),
    {
        None
    }
}

/// A sink that records every XML token it is handed, verbatim.
pub struct XTokenLog {
    raw: Vec<XToken>,
}

impl XTokenLog {
    pub fn new() -> (r: XTokenLog)
        ensures
            r.sunk() == Seq::<XToken>::empty(),
    {
        XTokenLog { raw: Vec::new() }
    }

    /// Every recorded token, in delivery order.
    pub fn into_tokens(self) -> (r: Vec<XToken>)
        ensures
            r@ == self.sunk(),
    {
        self.raw
    }
}

impl XTokenSink for XTokenLog {
    closed spec fn sunk(&self) -> Seq<XToken> {
        self.raw@
    }

    fn process_token(&mut self, token: XToken) {
        self.raw.push(token);
    }
}

} // verus!
