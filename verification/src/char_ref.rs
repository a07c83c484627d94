//! Decoding of `&...;` character references: the reference sub-machine's
//! state, the named-entity table, and the numeric mapping rules.
//!
//! The named-entity table here is a deliberately compact selection —
//! the common escapes, their legacy no-semicolon forms, and entries
//! that exercise longest-match and two-character decoding — not the
//! full entity list of the HTML standard, which runs to over two
//! thousand names.  A name outside the table passes through as plain
//! text.  Extending coverage means extending `entity_lookup` and
//! `entity_viable` together.

use vstd::prelude::*;
use vstd::string::StrSliceExecFns;
use crate::strutil::str_eq;

verus! {

/// Where the reference sub-machine stands.
#[derive(PartialEq, Eq, Structural, Clone, Copy, Debug)]
pub(crate) enum CharRefState {
    /// Just after the ampersand.
    Begin,
    /// Just after `&#`.
    Octothorpe,
    /// Accumulating digits; the flag says whether they are hexadecimal.
    Numeric(bool),
    /// Accumulating a candidate entity name.
    Named,
}

/// The in-progress state of one `&...` character reference, kept across
/// chunk boundaries.
pub(crate) struct CharRefTokenizer {
    pub(crate) state: CharRefState,
    /// In an attribute value, the extra character that aborts the
    /// reference when it immediately follows the ampersand.
    pub(crate) addnl_allowed: Option<char>,
    /// Whether the decoded text goes into an attribute value.
    pub(crate) is_attribute: bool,
    /// Accumulated numeric value, capped before it can overflow.
    pub(crate) num: u32,
    pub(crate) num_too_big: bool,
    pub(crate) seen_digit: bool,
    /// The characters consumed after the ampersand that may yet be
    /// handed back or flushed as plain text: `#`, a hex marker, or the
    /// candidate entity name.
    pub(crate) name_buf: String,
}

impl CharRefTokenizer {
    pub(crate) fn new(addnl_allowed: Option<char>, is_attribute: bool) -> (r: CharRefTokenizer)
        ensures
            r.name_buf@.len() == 0,
            r.state == CharRefState::Begin,
    {
        CharRefTokenizer {
            state: CharRefState::Begin,
            addnl_allowed,
            is_attribute,
            num: 0,
            num_too_big: false,
            seen_digit: false,
            name_buf: String::new(),
        }
    }

    /// Rank used to show that driving the sub-machine without consuming
    /// input still makes progress.
    pub(crate) open spec fn rank(&self) -> int {
        match self.state {
            CharRefState::Begin => 3,
            CharRefState::Octothorpe => 2,
            CharRefState::Numeric(_) => 1,
            CharRefState::Named => 1,
        }
    }
}

/// The value of `c` as a digit in the given base, if it is one.
pub(crate) fn digit_value(c: char, hex: bool) -> (r: Option<u32>)
    ensures
        r matches Some(v) ==> v < 16,
{
    let u = c as u32;
    if 48 <= u && u <= 57 {
        Some(u - 48)
    } else if hex && 97 <= u && u <= 102 {
        Some(u - 97 + 10)
    } else if hex && 65 <= u && u <= 70 {
        Some(u - 65 + 10)
    } else {
        None
    }
}

/// Map a numeric reference value to the character to emit and whether
/// the reference is a parse error, following the tokenization
/// algorithm's table: zero, out-of-range and surrogate values give the
/// replacement character; the C1 control range maps to the Windows-1252
/// repertoire; control characters and noncharacters are kept but
/// reported.
pub(crate) fn map_numeric(num: u32, too_big: bool) -> (r: (u32, bool))
    ensures
        r.0 < 0xD800 || (0xE000 <= r.0 && r.0 <= 0x10FFFF),
        r.0 != 0,
{
    if too_big || num > 0x10FFFF || num == 0 {
        (0xFFFD, true)
    } else if 0xD800 <= num && num <= 0xDFFF {
        (0xFFFD, true)
    } else if 0x80 <= num && num <= 0x9F {
        match c1_replacement(num) {
            Some(c) => (c, true),
            None => (num, true),
        }
    } else if num < 0x20 && !(num == 0x09 || num == 0x0A || num == 0x0C) {
        (num, true)
    } else if num == 0x7F || (0xFDD0 <= num && num <= 0xFDEF) || (num & 0xFFFE) == 0xFFFE {
        (num, true)
    } else {
        (num, false)
    }
}

/// The Windows-1252 mapping the algorithm prescribes for numeric
/// references into the C1 control range.
fn c1_replacement(num: u32) -> (r: Option<u32>)
    ensures
        r matches Some(c) ==> 0x100 <= c <= 0x2122 && c != 0,
{
    match num {
        0x80 => Some(0x20AC),
        0x82 => Some(0x201A),
        0x83 => Some(0x0192),
        0x84 => Some(0x201E),
        0x85 => Some(0x2026),
        0x86 => Some(0x2020),
        0x87 => Some(0x2021),
        0x88 => Some(0x02C6),
        0x89 => Some(0x2030),
        0x8A => Some(0x0160),
        0x8B => Some(0x2039),
        0x8C => Some(0x0152),
        0x8E => Some(0x017D),
        0x91 => Some(0x2018),
        0x92 => Some(0x2019),
        0x93 => Some(0x201C),
        0x94 => Some(0x201D),
        0x95 => Some(0x2022),
        0x96 => Some(0x2013),
        0x97 => Some(0x2014),
        0x98 => Some(0x02DC),
        0x99 => Some(0x2122),
        0x9A => Some(0x0161),
        0x9B => Some(0x203A),
        0x9C => Some(0x0153),
        0x9E => Some(0x017E),
        0x9F => Some(0x0178),
        _ => None,
    }
}

/// Look `name` up in the named-entity table.  The result is the one or
/// two code points the entity maps to (the second is zero when unused).
/// Entries without a trailing semicolon are the legacy forms the
/// algorithm still accepts.  See the module note on the table's scope.
pub(crate) fn entity_lookup(name: &str) -> (r: Option<(u32, u32)>)
    ensures
        r matches Some(p) ==> p.0 != 0 && (p.0 < 0xD800 || (0xE000 <= p.0 && p.0 <= 0x10FFFF)) && (
        p.1 == 0 || p.1 < 0xD800),
{
    if str_eq(name, "amp;") || str_eq(name, "amp") || str_eq(name, "AMP;") || str_eq(name, "AMP") {
        Some((38, 0))
    } else if str_eq(name, "lt;") || str_eq(name, "lt") || str_eq(name, "LT;") || str_eq(
        name,
        "LT",
    ) {
        Some((60, 0))
    } else if str_eq(name, "gt;") || str_eq(name, "gt") || str_eq(name, "GT;") || str_eq(
        name,
        "GT",
    ) {
        Some((62, 0))
    } else if str_eq(name, "quot;") || str_eq(name, "quot") || str_eq(name, "QUOT;") || str_eq(
        name,
        "QUOT",
    ) {
        Some((34, 0))
    } else if str_eq(name, "apos;") {
        Some((39, 0))
    } else if str_eq(name, "nbsp;") || str_eq(name, "nbsp") {
        Some((160, 0))
    } else if str_eq(name, "copy;") || str_eq(name, "copy") {
        Some((169, 0))
    } else if str_eq(name, "reg;") || str_eq(name, "reg") {
        Some((174, 0))
    } else if str_eq(name, "not;") || str_eq(name, "not") {
        Some((172, 0))
    } else if str_eq(name, "notin;") {
        Some((0x2209, 0))
    } else if str_eq(name, "trade;") {
        Some((0x2122, 0))
    } else if str_eq(name, "hellip;") {
        Some((0x2026, 0))
    } else if str_eq(name, "mdash;") {
        Some((0x2014, 0))
    } else if str_eq(name, "ndash;") {
        Some((0x2013, 0))
    } else if str_eq(name, "lsquo;") {
        Some((0x2018, 0))
    } else if str_eq(name, "rsquo;") {
        Some((0x2019, 0))
    } else if str_eq(name, "ldquo;") {
        Some((0x201C, 0))
    } else if str_eq(name, "rdquo;") {
        Some((0x201D, 0))
    } else if str_eq(name, "middot;") {
        Some((0xB7, 0))
    } else if str_eq(name, "pound;") || str_eq(name, "pound") {
        Some((163, 0))
    } else if str_eq(name, "euro;") {
        Some((0x20AC, 0))
    } else if str_eq(name, "yen;") || str_eq(name, "yen") {
        Some((165, 0))
    } else if str_eq(name, "cent;") || str_eq(name, "cent") {
        Some((162, 0))
    } else if str_eq(name, "deg;") || str_eq(name, "deg") {
        Some((176, 0))
    } else if str_eq(name, "plusmn;") || str_eq(name, "plusmn") {
        Some((177, 0))
    } else if str_eq(name, "times;") || str_eq(name, "times") {
        Some((215, 0))
    } else if str_eq(name, "divide;") || str_eq(name, "divide") {
        Some((247, 0))
    } else if str_eq(name, "frac12;") || str_eq(name, "frac12") {
        Some((189, 0))
    } else if str_eq(name, "frac14;") || str_eq(name, "frac14") {
        Some((188, 0))
    } else if str_eq(name, "sup2;") || str_eq(name, "sup2") {
        Some((178, 0))
    } else if str_eq(name, "sup3;") || str_eq(name, "sup3") {
        Some((179, 0))
    } else if str_eq(name, "micro;") || str_eq(name, "micro") {
        Some((181, 0))
    } else if str_eq(name, "laquo;") || str_eq(name, "laquo") {
        Some((171, 0))
    } else if str_eq(name, "raquo;") || str_eq(name, "raquo") {
        Some((187, 0))
    } else if str_eq(name, "szlig;") || str_eq(name, "szlig") {
        Some((223, 0))
    } else if str_eq(name, "eacute;") || str_eq(name, "eacute") {
        Some((233, 0))
    } else if str_eq(name, "egrave;") || str_eq(name, "egrave") {
        Some((232, 0))
    } else if str_eq(name, "auml;") || str_eq(name, "auml") {
        Some((228, 0))
    } else if str_eq(name, "ouml;") || str_eq(name, "ouml") {
        Some((246, 0))
    } else if str_eq(name, "uuml;") || str_eq(name, "uuml") {
        Some((252, 0))
    } else if str_eq(name, "bne;") {
        Some((61, 0x20E5))
    } else {
        None
    }
}

/// Whether one character sequence is a prefix of another (possibly
/// all of it).
pub open spec fn seq_prefix_of(a: Seq<char>, b: Seq<char>) -> bool {
    a.len() <= b.len() && b.subrange(0, a.len() as int) == a
}

/// Whether `name` could still grow into a table entry: it is a prefix
/// of one of the entity names `entity_lookup` accepts.
pub open spec fn spec_entity_viable(name: Seq<char>) -> bool {
    ||| seq_prefix_of(name, "amp;"@)
    ||| seq_prefix_of(name, "AMP;"@)
    ||| seq_prefix_of(name, "lt;"@)
    ||| seq_prefix_of(name, "LT;"@)
    ||| seq_prefix_of(name, "gt;"@)
    ||| seq_prefix_of(name, "GT;"@)
    ||| seq_prefix_of(name, "quot;"@)
    ||| seq_prefix_of(name, "QUOT;"@)
    ||| seq_prefix_of(name, "apos;"@)
    ||| seq_prefix_of(name, "nbsp;"@)
    ||| seq_prefix_of(name, "copy;"@)
    ||| seq_prefix_of(name, "reg;"@)
    ||| seq_prefix_of(name, "not;"@)
    ||| seq_prefix_of(name, "notin;"@)
    ||| seq_prefix_of(name, "trade;"@)
    ||| seq_prefix_of(name, "hellip;"@)
    ||| seq_prefix_of(name, "mdash;"@)
    ||| seq_prefix_of(name, "ndash;"@)
    ||| seq_prefix_of(name, "lsquo;"@)
    ||| seq_prefix_of(name, "rsquo;"@)
    ||| seq_prefix_of(name, "ldquo;"@)
    ||| seq_prefix_of(name, "rdquo;"@)
    ||| seq_prefix_of(name, "middot;"@)
    ||| seq_prefix_of(name, "pound;"@)
    ||| seq_prefix_of(name, "euro;"@)
    ||| seq_prefix_of(name, "yen;"@)
    ||| seq_prefix_of(name, "cent;"@)
    ||| seq_prefix_of(name, "deg;"@)
    ||| seq_prefix_of(name, "plusmn;"@)
    ||| seq_prefix_of(name, "times;"@)
    ||| seq_prefix_of(name, "divide;"@)
    ||| seq_prefix_of(name, "frac12;"@)
    ||| seq_prefix_of(name, "frac14;"@)
    ||| seq_prefix_of(name, "sup2;"@)
    ||| seq_prefix_of(name, "sup3;"@)
    ||| seq_prefix_of(name, "micro;"@)
    ||| seq_prefix_of(name, "laquo;"@)
    ||| seq_prefix_of(name, "raquo;"@)
    ||| seq_prefix_of(name, "szlig;"@)
    ||| seq_prefix_of(name, "eacute;"@)
    ||| seq_prefix_of(name, "egrave;"@)
    ||| seq_prefix_of(name, "auml;"@)
    ||| seq_prefix_of(name, "ouml;"@)
    ||| seq_prefix_of(name, "uuml;"@)
    ||| seq_prefix_of(name, "bne;"@)
}

/// Whether `name` could still grow into a table entry.  This bounds
/// how far the sub-machine reads ahead.
pub(crate) fn entity_viable(name: &str) -> (r: bool)
    ensures
        r == spec_entity_viable(name@),
{
    is_str_prefix(name, "amp;") || is_str_prefix(name, "AMP;") || is_str_prefix(name, "lt;") || is_str_prefix(name, "LT;") || is_str_prefix(name, "gt;") || is_str_prefix(name, "GT;") || is_str_prefix(name, "quot;") || is_str_prefix(name, "QUOT;") || is_str_prefix(name, "apos;") || is_str_prefix(name, "nbsp;") || is_str_prefix(name, "copy;") || is_str_prefix(name, "reg;") || is_str_prefix(name, "not;") || is_str_prefix(name, "notin;") || is_str_prefix(name, "trade;") || is_str_prefix(name, "hellip;") || is_str_prefix(name, "mdash;") || is_str_prefix(name, "ndash;") || is_str_prefix(name, "lsquo;") || is_str_prefix(name, "rsquo;") || is_str_prefix(name, "ldquo;") || is_str_prefix(name, "rdquo;") || is_str_prefix(name, "middot;") || is_str_prefix(name, "pound;") || is_str_prefix(name, "euro;") || is_str_prefix(name, "yen;") || is_str_prefix(name, "cent;") || is_str_prefix(name, "deg;") || is_str_prefix(name, "plusmn;") || is_str_prefix(name, "times;") || is_str_prefix(name, "divide;") || is_str_prefix(name, "frac12;") || is_str_prefix(name, "frac14;") || is_str_prefix(name, "sup2;") || is_str_prefix(name, "sup3;") || is_str_prefix(name, "micro;") || is_str_prefix(name, "laquo;") || is_str_prefix(name, "raquo;") || is_str_prefix(name, "szlig;") || is_str_prefix(name, "eacute;") || is_str_prefix(name, "egrave;") || is_str_prefix(name, "auml;") || is_str_prefix(name, "ouml;") || is_str_prefix(name, "uuml;") || is_str_prefix(name, "bne;")
}

/// Whether `a` is a prefix of `b` (possibly all of it).
pub fn is_str_prefix(a: &str, b: &str) -> (r: bool)
    ensures
        r == (a@.len() <= b@.len() && b@.subrange(0, a@.len() as int) == a@),
{
    let al = a.unicode_len();
    let bl = b.unicode_len();
    if al > bl {
        return false;
    }
    let s = b.substring_char(0, al);
    str_eq(a, s)
}

} // verus!
