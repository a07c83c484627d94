//! The states of the HTML tokenizer state machine.

use vstd::prelude::*;

verus! {

#[derive(PartialEq, Eq, Structural, Clone, Copy, Debug)]
pub enum ScriptEscapeKind {
    Escaped,
    DoubleEscaped,
}

#[derive(PartialEq, Eq, Structural, Clone, Copy, Debug)]
pub enum DoctypeIdKind {
    Public,
    System,
}

/// Which raw-text mode the tokenizer is in: these modes disable tag
/// recognition except for the one matching end tag.
#[derive(PartialEq, Eq, Structural, Clone, Copy, Debug)]
pub enum RawKind {
    Rcdata,
    Rawtext,
    ScriptData,
    ScriptDataEscaped(ScriptEscapeKind),
}

#[derive(PartialEq, Eq, Structural, Clone, Copy, Debug)]
pub enum AttrValueKind {
    Unquoted,
    SingleQuoted,
    DoubleQuoted,
}

/// A state of the tokenizer.  States that the HTML tokenization
/// algorithm defines per quoting style, doctype identifier, or raw-text
/// kind are carried here as one variant with a parameter.
#[derive(PartialEq, Eq, Structural, Clone, Copy, Debug)]
pub enum State {
    Data,
    Plaintext,
    TagOpen,
    EndTagOpen,
    TagName,
    RawData(RawKind),
    RawLessThanSign(RawKind),
    RawEndTagOpen(RawKind),
    RawEndTagName(RawKind),
    ScriptDataEscapeStart(ScriptEscapeKind),
    ScriptDataEscapeStartDash,
    ScriptDataEscapeDash(ScriptEscapeKind),
    ScriptDataEscapeDashDash(ScriptEscapeKind),
    ScriptDataDoubleEscapeEnd,
    SelfClosingStartTag,
    BeforeAttributeName,
    AttributeName,
    AfterAttributeName,
    BeforeAttributeValue,
    AttributeValue(AttrValueKind),
    AfterAttributeValueQuoted,
    CommentStart,
    CommentStartDash,
    Comment,
    CommentEndDash,
    CommentEnd,
    CommentEndBang,
    Doctype,
    BeforeDoctypeName,
    DoctypeName,
    AfterDoctypeName,
    AfterDoctypeKeyword(DoctypeIdKind),
    BeforeDoctypeIdentifier(DoctypeIdKind),
    DoctypeIdentifierDoubleQuoted(DoctypeIdKind),
    DoctypeIdentifierSingleQuoted(DoctypeIdKind),
    AfterDoctypeIdentifier(DoctypeIdKind),
    BetweenDoctypePublicAndSystemIdentifiers,
    BogusDoctype,
    BogusComment,
    MarkupDeclarationOpen,
    CdataSection,
    CdataSectionBracket,
    CdataSectionEnd,
}

} // verus!
