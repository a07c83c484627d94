//! The closed set of token values the tokenizer may emit, and the
//! equivalence on tags that disregards attribute order.

use vstd::prelude::*;

verus! {

/// The view of an optional text field.
pub open spec fn opt_view(o: Option<String>) -> Option<Seq<char>> {
    match o {
        Some(s) => Some(s@),
        None => None,
    }
}

/// A `DOCTYPE` token.
#[derive(Debug)]
pub struct Doctype {
    pub name: Option<String>,
    pub public_id: Option<String>,
    pub system_id: Option<String>,
    pub force_quirks: bool,
}

impl Doctype {
    /// What equality of two doctypes means: the texts and the flag agree.
    pub open spec fn eq_view(&self, other: &Doctype) -> bool {
        &&& opt_view(self.name) == opt_view(other.name)
        &&& opt_view(self.public_id) == opt_view(other.public_id)
        &&& opt_view(self.system_id) == opt_view(other.system_id)
        &&& self.force_quirks == other.force_quirks
    }

    /// An empty doctype: no name, no identifiers, no quirks.
    pub fn new() -> (d: Doctype)
        ensures
            d.name is None,
            d.public_id is None,
            d.system_id is None,
            !d.force_quirks,
    {
        Doctype { name: None, public_id: None, system_id: None, force_quirks: false }
    }
}

/// A tag attribute: a name and a value.  The tokenizer produces all
/// attribute names plain (no namespace).
#[derive(Debug)]
pub struct Attribute {
    pub name: String,
    pub value: String,
}

impl View for Attribute {
    type V = (Seq<char>, Seq<char>);

    open spec fn view(&self) -> (Seq<char>, Seq<char>) {
        (self.name@, self.value@)
    }
}

impl Attribute {
    /// An attribute with empty name and value.
    pub fn new() -> (a: Attribute)
        ensures
            a@ == (Seq::<char>::empty(), Seq::<char>::empty()),
    {
        let a = Attribute { name: String::new(), value: String::new() };
        a
    }

    /// Reset both name and value to empty.
    pub fn clear(&mut self)
        ensures
            final(self)@ == (Seq::<char>::empty(), Seq::<char>::empty()),
    {
        self.name = String::new();
        self.value = String::new();
    }
}

#[derive(PartialEq, Eq, Structural, Clone, Copy, Debug, Hash)]
pub enum TagKind {
    StartTag,
    EndTag,
}

/// The views of an attribute list, in encounter order.
pub open spec fn attrs_views(attrs: Seq<Attribute>) -> Seq<(Seq<char>, Seq<char>)> {
    attrs.map_values(|a: Attribute| a@)
}

/// A tag token.
#[derive(Debug)]
pub struct Tag {
    pub kind: TagKind,
    pub name: String,
    pub self_closing: bool,
    pub attrs: Vec<Attribute>,
}

/// Tags are equivalent modulo attribute order when kind and name agree
/// and the attribute lists hold the same multiset of (name, value)
/// pairs; the self-closing flag and the order of the lists are ignored.
pub open spec fn spec_equiv_modulo_attr_order(a: &Tag, b: &Tag) -> bool {
    &&& a.kind == b.kind
    &&& a.name@ == b.name@
    &&& attrs_views(a.attrs@).to_multiset() == attrs_views(b.attrs@).to_multiset()
}

impl Tag {
    /// What equality of two tags means: kind, name, flag, and the
    /// attribute lists in order.
    pub open spec fn eq_view(&self, other: &Tag) -> bool {
        &&& self.kind == other.kind
        &&& self.name@ == other.name@
        &&& self.self_closing == other.self_closing
        &&& attrs_views(self.attrs@) == attrs_views(other.attrs@)
    }

    /// An empty tag of the given kind.
    pub fn new(kind: TagKind) -> (t: Tag)
        ensures
            t.kind == kind,
            t.name@ == Seq::<char>::empty(),
            !t.self_closing,
            t.attrs@ == Seq::<Attribute>::empty(),
    {
        let t = Tag { kind, name: String::new(), self_closing: false, attrs: Vec::new() };
        t
    }

    /// Are the tags equivalent when we don't care about attribute order?
    /// Also ignores the self-closing flag.
    pub fn equiv_modulo_attr_order(&self, other: &Tag) -> (r: bool)
        ensures
            r == spec_equiv_modulo_attr_order(self, other),
    {
        if !matches!((self.kind, other.kind), (TagKind::StartTag, TagKind::StartTag)
            | (TagKind::EndTag, TagKind::EndTag)) {
            return false;
        }
        if !(self.name == other.name) {
            return false;
        }
        attr_multisets_eq(&self.attrs, &other.attrs)
    }
}

/// One reading of the law behind `equiv_modulo_attr_order`: presenting
/// the same attributes in any other order (any list with the same
/// multiset of (name, value) pairs) yields an equivalent tag, whatever
/// the self-closing flags.
pub proof fn lemma_equiv_ignores_attr_order(a: &Tag, b: &Tag)
    requires
        a.kind == b.kind,
        a.name@ == b.name@,
        attrs_views(a.attrs@).to_multiset() == attrs_views(b.attrs@).to_multiset(),
    ensures
        spec_equiv_modulo_attr_order(a, b),
        spec_equiv_modulo_attr_order(b, a),
{
}

/// How many entries of `s` equal `x`.
pub open spec fn count_matching<A>(s: Seq<A>, x: A) -> int
    decreases s.len(),
{
    if s.len() == 0 {
        0
    } else {
        count_matching(s.drop_last(), x) + if s.last() == x {
            1int
        } else {
            0int
        }
    }
}

/// `count_matching` counts exactly the multiset multiplicity.
proof fn lemma_count_matching<A>(s: Seq<A>, x: A)
    ensures
        count_matching(s, x) == s.to_multiset().count(x),
    decreases s.len(),
{
    broadcast use vstd::seq_lib::group_seq_properties;

    s.to_multiset_ensures();
    if s.len() == 0 {
        assert(!s.contains(x));
        assert(s.to_multiset().count(x) == 0) by {
            if s.to_multiset().count(x) > 0 {
                assert(s.contains(x));
            }
        }
    } else {
        let d = s.drop_last();
        lemma_count_matching(d, x);
        d.to_multiset_ensures();
        assert(s =~= d.push(s.last()));
        assert(d.push(s.last()).to_multiset() =~= d.to_multiset().insert(s.last()));
    }
}

/// How many attributes of `attrs` have the same name and value as `x`.
fn count_attr(attrs: &Vec<Attribute>, x: &Attribute) -> (n: usize)
    ensures
        n == count_matching(attrs_views(attrs@), x@),
{
    let mut n: usize = 0;
    let mut i: usize = 0;
    let ghost views = attrs_views(attrs@);
    while i < attrs.len()
        invariant
            i <= attrs@.len(),
            views == attrs_views(attrs@),
            n <= i,
            n == count_matching(views.take(i as int), x@),
        decreases attrs@.len() - i,
    {
        let same = attr_eq(&attrs[i], x);
        proof {
            let t1 = views.take(i + 1 as int);
            assert(t1.drop_last() =~= views.take(i as int));
            assert(t1.last() == views[i as int]);
            assert(views[i as int] == attrs@[i as int]@);
        }
        if same {
            n = n + 1;
        }
        i = i + 1;
    }
    proof {
        assert(views.take(attrs@.len() as int) =~= views);
    }
    n
}

/// Whether two attributes have the same name and value.
pub fn attr_eq(a: &Attribute, b: &Attribute) -> (r: bool)
    ensures
        r == (a@ == b@),
{
    let r = a.name == b.name && a.value == b.value;
    proof {
        if a.name@ == b.name@ && a.value@ == b.value@ {
            assert(a@ == b@);
        }
    }
    r
}

/// Whether two attribute lists hold the same multiset of (name, value)
/// pairs.
pub(crate) fn attr_multisets_eq(a: &Vec<Attribute>, b: &Vec<Attribute>) -> (r: bool)
    ensures
        r == (attrs_views(a@).to_multiset() == attrs_views(b@).to_multiset()),
{
    let ghost va = attrs_views(a@);
    let ghost vb = attrs_views(b@);
    proof {
        va.to_multiset_ensures();
        vb.to_multiset_ensures();
    }
    if a.len() != b.len() {
        proof {
            assert(va.len() == a@.len() && vb.len() == b@.len());
        }
        return false;
    }
    let mut i: usize = 0;
    while i < a.len()
        invariant
            i <= a@.len(),
            a@.len() == b@.len(),
            va == attrs_views(a@),
            vb == attrs_views(b@),
            forall|k: int| 0 <= k < i ==> va.to_multiset().count(#[trigger] va[k])
                == vb.to_multiset().count(va[k]),
        decreases a@.len() - i,
    {
        let ca = count_attr(a, &a[i]);
        let cb = count_attr(b, &a[i]);
        proof {
            lemma_count_matching(va, a@[i as int]@);
            lemma_count_matching(vb, a@[i as int]@);
            assert(va[i as int] == a@[i as int]@);
        }
        if ca != cb {
            proof {
                assert(va.to_multiset().count(va[i as int])
                    != vb.to_multiset().count(va[i as int]));
            }
            return false;
        }
        i = i + 1;
    }
    let mut i: usize = 0;
    while i < b.len()
        invariant
            i <= b@.len(),
            va == attrs_views(a@),
            vb == attrs_views(b@),
            forall|k: int| 0 <= k < va.len() ==> va.to_multiset().count(#[trigger] va[k])
                == vb.to_multiset().count(va[k]),
            forall|k: int| 0 <= k < i ==> va.to_multiset().count(#[trigger] vb[k])
                == vb.to_multiset().count(vb[k]),
        decreases b@.len() - i,
    {
        let ca = count_attr(a, &b[i]);
        let cb = count_attr(b, &b[i]);
        proof {
            lemma_count_matching(va, b@[i as int]@);
            lemma_count_matching(vb, b@[i as int]@);
            assert(vb[i as int] == b@[i as int]@);
        }
        if ca != cb {
            proof {
                assert(va.to_multiset().count(vb[i as int])
                    != vb.to_multiset().count(vb[i as int]));
            }
            return false;
        }
        i = i + 1;
    }
    proof {
        va.to_multiset_ensures();
        vb.to_multiset_ensures();
        assert forall|x: (Seq<char>, Seq<char>)|
            va.to_multiset().count(x) == vb.to_multiset().count(x) by {
            if va.contains(x) {
                let k = choose|k: int| 0 <= k < va.len() && va[k] == x;
                assert(va.to_multiset().count(va[k]) == vb.to_multiset().count(va[k]));
            } else if vb.contains(x) {
                let k = choose|k: int| 0 <= k < vb.len() && vb[k] == x;
                assert(va.to_multiset().count(vb[k]) == vb.to_multiset().count(vb[k]));
            } else {
                assert(va.to_multiset().count(x) == 0) by {
                    if va.to_multiset().count(x) > 0 {
                        assert(va.contains(x));
                    }
                }
                assert(vb.to_multiset().count(x) == 0) by {
                    if vb.to_multiset().count(x) > 0 {
                        assert(vb.contains(x));
                    }
                }
            }
        }
        assert(va.to_multiset() =~= vb.to_multiset());
    }
    true
}

/// A token emitted by the tokenizer.
#[derive(Debug)]
pub enum Token {
    DoctypeToken(Doctype),
    TagToken(Tag),
    CommentToken(String),
    CharacterTokens(String),
    NullCharacterToken,
    EOFToken,
    ParseError(String),
}

impl Token {
    /// What equality of two tokens means: same variant, equal contents.
    pub open spec fn eq_view(&self, other: &Token) -> bool {
        match (self, other) {
            (Token::DoctypeToken(a), Token::DoctypeToken(b)) => a.eq_view(b),
            (Token::TagToken(a), Token::TagToken(b)) => a.eq_view(b),
            (Token::CommentToken(a), Token::CommentToken(b)) => a@ == b@,
            (Token::CharacterTokens(a), Token::CharacterTokens(b)) => a@ == b@,
            (Token::NullCharacterToken, Token::NullCharacterToken) => true,
            (Token::EOFToken, Token::EOFToken) => true,
            (Token::ParseError(a), Token::ParseError(b)) => a@ == b@,
            _ => false,
        }
    }
}

/// Whether two optional texts agree.
fn opt_str_eq(a: &Option<String>, b: &Option<String>) -> (r: bool)
    ensures
        r == (opt_view(*a) == opt_view(*b)),
{
    match (a, b) {
        (Some(x), Some(y)) => {
            let r = *x == *y;
            proof {
                if x@ == y@ {
                    assert(opt_view(*a) == opt_view(*b));
                }
            }
            r
        },
        (None, None) => true,
        _ => false,
    }
}

impl PartialEq for Doctype {
    fn eq(&self, other: &Doctype) -> (r: bool) {
        opt_str_eq(&self.name, &other.name) && opt_str_eq(&self.public_id, &other.public_id)
            && opt_str_eq(&self.system_id, &other.system_id) && self.force_quirks
            == other.force_quirks
    }
}

impl vstd::std_specs::cmp::PartialEqSpecImpl for Doctype {
    open spec fn obeys_eq_spec() -> bool {
        true
    }

    open spec fn eq_spec(&self, other: &Doctype) -> bool {
        self.eq_view(other)
    }
}

impl PartialEq for Attribute {
    fn eq(&self, other: &Attribute) -> (r: bool) {
        attr_eq(self, other)
    }
}

impl vstd::std_specs::cmp::PartialEqSpecImpl for Attribute {
    open spec fn obeys_eq_spec() -> bool {
        true
    }

    open spec fn eq_spec(&self, other: &Attribute) -> bool {
        self@ == other@
    }
}

/// Whether two attribute lists agree, in order.
pub fn attrs_eq(a: &Vec<Attribute>, b: &Vec<Attribute>) -> (r: bool)
    ensures
        r == (attrs_views(a@) == attrs_views(b@)),
{
    let ghost va = attrs_views(a@);
    let ghost vb = attrs_views(b@);
    if a.len() != b.len() {
        proof {
            assert(va.len() != vb.len());
        }
        return false;
    }
    let mut i: usize = 0;
    while i < a.len()
        invariant
            i <= a@.len(),
            a@.len() == b@.len(),
            va == attrs_views(a@),
            vb == attrs_views(b@),
            forall|k: int| 0 <= k < i ==> va[k] == vb[k],
        decreases a@.len() - i,
    {
        if !attr_eq(&a[i], &b[i]) {
            proof {
                assert(va[i as int] != vb[i as int]);
            }
            return false;
        }
        i = i + 1;
    }
    proof {
        assert(va =~= vb);
    }
    true
}

impl PartialEq for Tag {
    fn eq(&self, other: &Tag) -> (r: bool) {
        let kinds_eq = matches!((self.kind, other.kind), (TagKind::StartTag, TagKind::StartTag)
            | (TagKind::EndTag, TagKind::EndTag));
        kinds_eq && self.name == other.name && self.self_closing == other.self_closing
            && attrs_eq(&self.attrs, &other.attrs)
    }
}

impl vstd::std_specs::cmp::PartialEqSpecImpl for Tag {
    open spec fn obeys_eq_spec() -> bool {
        true
    }

    open spec fn eq_spec(&self, other: &Tag) -> bool {
        self.eq_view(other)
    }
}

impl PartialEq for Token {
    fn eq(&self, other: &Token) -> (r: bool) {
        match (self, other) {
            (Token::DoctypeToken(a), Token::DoctypeToken(b)) => *a == *b,
            (Token::TagToken(a), Token::TagToken(b)) => *a == *b,
            (Token::CommentToken(a), Token::CommentToken(b)) => *a == *b,
            (Token::CharacterTokens(a), Token::CharacterTokens(b)) => *a == *b,
            (Token::NullCharacterToken, Token::NullCharacterToken) => true,
            (Token::EOFToken, Token::EOFToken) => true,
            (Token::ParseError(a), Token::ParseError(b)) => *a == *b,
            _ => false,
        }
    }
}

impl vstd::std_specs::cmp::PartialEqSpecImpl for Token {
    open spec fn obeys_eq_spec() -> bool {
        true
    }

    open spec fn eq_spec(&self, other: &Token) -> bool {
        self.eq_view(other)
    }
}

} // verus!
