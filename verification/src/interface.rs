//! The consumer contract of the tokenizer, and a recording sink.

use vstd::prelude::*;
use vstd::string::StrSliceExecFns;
use vstd::string::StringExecFns;
use crate::states::State;
use crate::strutil::{push_char, str_eq, take_string};
use crate::tokens::{attrs_views, opt_view, Tag, TagKind, Token};

verus! {

/// `new` extends `prev`: the tokens already delivered are never taken
/// back, later calls only append.
pub open spec fn extends(new: Seq<Token>, prev: Seq<Token>) -> bool {
    prev.len() <= new.len() && forall|i: int| 0 <= i < prev.len() ==> #[trigger] new[i] == prev[i]
}

/// `new` is `prev` with exactly `n` more tokens at the end.
pub open spec fn appended(prev: Seq<Token>, new: Seq<Token>, n: int) -> bool {
    new.len() == prev.len() + n && extends(new, prev)
}

/// None of the tokens added after `prev` is the end-of-file token.
pub open spec fn adds_no_eof(prev: Seq<Token>, new: Seq<Token>) -> bool {
    forall|i: int| prev.len() <= i < new.len() ==> #[trigger] new[i] != Token::EOFToken
}

/// Types which can receive tokens from the tokenizer.
pub trait TokenSink {
    /// All tokens this sink has been handed so far, in delivery order.
    spec fn sunk(&self) -> Seq<Token>;

    /// Process a token.
    fn process_token(&mut self, token: Token)
        ensures
            final(self).sunk() == old(self).sunk().push(token),
    ;

    /// The tokenizer calls this after emitting any tag.  Returning a
    /// state redirects the tokenizer into it; returning nothing leaves
    /// the tokenizer's own transition unchanged.  This is how a tree
    /// builder switches the tokenizer into a raw-text mode on seeing
    /// tags such as `<script>` or `<title>`.  By default no state
    /// changes occur.
    fn query_state_change(&mut self) -> (r: Option<State>)
        ensures
            final(self).sunk() == old(self).sunk(),
    {
        None
    }
}

/// The value of a token, with every text field taken as its character
/// sequence.  Contracts about recorded token lists are stated over
/// these values, so that they do not depend on string representation.
pub enum TokenModel {
    Doctype(Option<Seq<char>>, Option<Seq<char>>, Option<Seq<char>>, bool),
    Tag(TagKind, Seq<char>, bool, Seq<(Seq<char>, Seq<char>)>),
    Comment(Seq<char>),
    Chars(Seq<char>),
    Null,
    Eof,
    Error(Seq<char>),
}

/// The value of one token.
pub open spec fn token_model(t: Token) -> TokenModel {
    match t {
        Token::DoctypeToken(d) => TokenModel::Doctype(
            opt_view(d.name),
            opt_view(d.public_id),
            opt_view(d.system_id),
            d.force_quirks,
        ),
        Token::TagToken(t2) => TokenModel::Tag(
            t2.kind,
            t2.name@,
            t2.self_closing,
            attrs_views(t2.attrs@),
        ),
        Token::CommentToken(s) => TokenModel::Comment(s@),
        Token::CharacterTokens(s) => TokenModel::Chars(s@),
        Token::NullCharacterToken => TokenModel::Null,
        Token::EOFToken => TokenModel::Eof,
        Token::ParseError(m) => TokenModel::Error(m@),
    }
}

/// Close a pending character run: empty runs leave no token.
pub open spec fn flush_chars(out: Seq<TokenModel>, cur: Seq<char>) -> Seq<TokenModel> {
    if cur.len() > 0 {
        out.push(TokenModel::Chars(cur))
    } else {
        out
    }
}

/// What a recording sink holds after the given delivery history: the
/// finished tokens and the still-open character run.  Adjacent
/// character data (a NUL counting as the one character U+0000) gathers
/// into one run; the end-of-file token is dropped; parse errors are
/// kept — normalized to an empty message — only under `exact`, and
/// otherwise do not even interrupt a run; an end tag is normalized to
/// carry no attributes and no self-closing flag.
pub open spec fn coalesced(history: Seq<Token>, exact: bool) -> (Seq<TokenModel>, Seq<char>)
    decreases history.len(),
{
    if history.len() == 0 {
        (Seq::<TokenModel>::empty(), Seq::<char>::empty())
    } else {
        let prev = coalesced(history.drop_last(), exact);
        match history.last() {
            Token::CharacterTokens(s) => (prev.0, prev.1 + s@),
            Token::NullCharacterToken => (prev.0, prev.1.push('\0')),
            Token::ParseError(m) => if exact {
                (
                    flush_chars(prev.0, prev.1).push(TokenModel::Error(Seq::empty())),
                    Seq::<char>::empty(),
                )
            } else {
                prev
            },
            Token::TagToken(t) => (
                flush_chars(prev.0, prev.1).push(
                    match t.kind {
                        TagKind::StartTag => TokenModel::Tag(
                            t.kind,
                            t.name@,
                            t.self_closing,
                            attrs_views(t.attrs@),
                        ),
                        TagKind::EndTag => TokenModel::Tag(t.kind, t.name@, false, Seq::empty()),
                    },
                ),
                Seq::<char>::empty(),
            ),
            Token::EOFToken => prev,
            _ => (
                flush_chars(prev.0, prev.1).push(token_model(history.last())),
                Seq::<char>::empty(),
            ),
        }
    }
}

/// The full recorded list for a delivery history, the pending run
/// closed.
pub open spec fn coalesced_output(history: Seq<Token>, exact: bool) -> Seq<TokenModel> {
    flush_chars(coalesced(history, exact).0, coalesced(history, exact).1)
}

/// The values of a list of tokens.
pub open spec fn models(ts: Seq<Token>) -> Seq<TokenModel> {
    ts.map_values(|t: Token| token_model(t))
}

/// A sink that records every token it is handed; `get_tokens` returns
/// them with character data coalesced, as `coalesced_output` states.
pub struct TokenLogger {
    raw: Vec<Token>,
    exact_errors: bool,
}

impl TokenLogger {
    /// Whether recorded parse errors are kept.
    pub closed spec fn exactness(&self) -> bool {
        self.exact_errors
    }

    pub fn new(exact_errors: bool) -> (r: TokenLogger)
        ensures
            r.sunk() == Seq::<Token>::empty(),
            r.exactness() == exact_errors,
    {
        TokenLogger { raw: Vec::new(), exact_errors }
    }

    /// Every recorded token, with character data coalesced, parse
    /// errors normalized (and kept only when asked for), end tags
    /// stripped of attributes, and the end-of-file token dropped.
    pub fn get_tokens(self) -> (r: Vec<Token>)
        ensures
            models(r@) == coalesced_output(self.sunk(), self.exactness()),
    {
        let exact = self.exact_errors;
        let mut raw = self.raw;
        let total = raw.len();
        let ghost hist = raw@;
        let mut out: Vec<Token> = Vec::new();
        let mut cur = String::new();
        proof {
            assert(hist.take(0) =~= Seq::<Token>::empty());
            assert(models(out@) =~= coalesced(hist.take(0), exact).0);
        }
        let mut i: usize = 0;
        while raw.len() > 0
            invariant
                i <= hist.len(),
                hist.len() == total,
                raw@ == hist.skip(i as int),
                models(out@) == coalesced(hist.take(i as int), exact).0,
                cur@ == coalesced(hist.take(i as int), exact).1,
            decreases raw@.len(),
        {
            let t = raw.remove(0);
            proof {
                assert(t == hist[i as int]);
                assert(raw@ =~= hist.skip(i + 1 as int));
                assert(hist.take(i + 1 as int).drop_last() =~= hist.take(i as int));
                assert(hist.take(i + 1 as int).last() == hist[i as int]);
            }
            let ghost pre_out = models(out@);
            let ghost pre_cur = cur@;
            match t {
                Token::CharacterTokens(s) => {
                    cur.append(s.as_str());
                },
                Token::NullCharacterToken => {
                    push_char(&mut cur, '\0');
                },
                Token::ParseError(_) => {
                    if exact {
                        flush_into(&mut out, &mut cur);
                        out.push(Token::ParseError(String::new()));
                        proof {
                            assert(models(out@) =~= flush_chars(pre_out, pre_cur).push(
                                TokenModel::Error(Seq::empty()),
                            ));
                        }
                    }
                },
                Token::TagToken(tag) => {
                    flush_into(&mut out, &mut cur);
                    let ghost m = match tag.kind {
                        TagKind::StartTag => TokenModel::Tag(
                            tag.kind,
                            tag.name@,
                            tag.self_closing,
                            attrs_views(tag.attrs@),
                        ),
                        TagKind::EndTag => TokenModel::Tag(tag.kind, tag.name@, false, Seq::empty()),
                    };
                    let norm = match tag.kind {
                        TagKind::StartTag => tag,
                        TagKind::EndTag => Tag {
                            kind: TagKind::EndTag,
                            name: tag.name,
                            self_closing: false,
                            attrs: Vec::new(),
                        },
                    };
                    proof {
                        assert(attrs_views(Seq::<crate::tokens::Attribute>::empty()) =~= Seq::<
                            (Seq<char>, Seq<char>),
                        >::empty());
                        assert(token_model(Token::TagToken(norm)) == m);
                    }
                    out.push(Token::TagToken(norm));
                    proof {
                        assert(models(out@) =~= flush_chars(pre_out, pre_cur).push(m));
                    }
                },
                Token::EOFToken => {},
                Token::DoctypeToken(d) => {
                    flush_into(&mut out, &mut cur);
                    let ghost m = token_model(Token::DoctypeToken(d));
                    out.push(Token::DoctypeToken(d));
                    proof {
                        assert(models(out@) =~= flush_chars(pre_out, pre_cur).push(m));
                    }
                },
                Token::CommentToken(s) => {
                    flush_into(&mut out, &mut cur);
                    let ghost m = token_model(Token::CommentToken(s));
                    out.push(Token::CommentToken(s));
                    proof {
                        assert(models(out@) =~= flush_chars(pre_out, pre_cur).push(m));
                    }
                },
            }
            i = i + 1;
        }
        proof {
            assert(hist.take(hist.len() as int) =~= hist);
        }
        flush_into(&mut out, &mut cur);
        out
    }
}

/// Close the pending character run into the recorded list.
fn flush_into(out: &mut Vec<Token>, cur: &mut String)
    ensures
        models(final(out)@) == flush_chars(models(old(out)@), old(cur)@),
        final(cur)@ == Seq::<char>::empty(),
{
    if cur.as_str().unicode_len() > 0 {
        let s = take_string(cur);
        out.push(Token::CharacterTokens(s));
        proof {
            assert(models(out@) =~= models(old(out)@).push(TokenModel::Chars(old(cur)@)));
        }
    }
}

impl TokenSink for TokenLogger {
    closed spec fn sunk(&self) -> Seq<Token> {
        self.raw@
    }

    fn process_token(&mut self, token: Token) {
        self.raw.push(token);
    }
}

/// A sink that redirects the tokenizer into a given state after a
/// start tag with a given name — the way tree construction switches
/// the tokenizer into a raw-text mode for elements such as `<script>`
/// or `<title>` — and records the tokens like [`TokenLogger`].
pub struct TextModeSink {
    inner: TokenLogger,
    element: String,
    mode: State,
    pending: bool,
}

impl TextModeSink {
    /// The element name that arms the redirect.
    pub closed spec fn element(&self) -> Seq<char> {
        self.element@
    }

    /// The state handed out when armed.
    pub closed spec fn mode(&self) -> State {
        self.mode
    }

    /// Whether a redirect is pending for the next state query.
    pub closed spec fn armed(&self) -> bool {
        self.pending
    }

    /// Record through a fresh logger; after any start tag named
    /// `element`, ask the tokenizer to switch to `mode`.
    pub fn new(exact_errors: bool, element: String, mode: State) -> (r: TextModeSink)
        ensures
            r.sunk() == Seq::<Token>::empty(),
            r.element() == element@,
            r.mode() == mode,
            !r.armed(),
    {
        TextModeSink { inner: TokenLogger::new(exact_errors), element, mode, pending: false }
    }

    /// The recording sink inside, with everything it recorded.
    pub fn into_logger(self) -> (r: TokenLogger)
        ensures
            r.sunk() == self.sunk(),
    {
        self.inner
    }
}

/// Whether `t` is a start tag whose name reads `name`.
pub open spec fn is_start_tag_named(t: Token, name: Seq<char>) -> bool {
    match t {
        Token::TagToken(tag) => tag.kind == TagKind::StartTag && tag.name@ == name,
        _ => false,
    }
}

impl TokenSink for TextModeSink {
    closed spec fn sunk(&self) -> Seq<Token> {
        self.inner.sunk()
    }

    fn process_token(&mut self, token: Token)
        ensures
            final(self).armed() == (old(self).armed() || is_start_tag_named(
                token,
                old(self).element(),
            )),
            final(self).element() == old(self).element(),
            final(self).mode() == old(self).mode(),
    {
        let mut trigger = false;
        match &token {
            Token::TagToken(t) => {
                if matches!(t.kind, TagKind::StartTag) && str_eq(
                    t.name.as_str(),
                    self.element.as_str(),
                ) {
                    trigger = true;
                }
            },
            _ => {},
        }
        self.inner.process_token(token);
        if trigger {
            self.pending = true;
        }
    }

    /// Hands out the configured state exactly once after an arming
    /// start tag; otherwise requests no change.
    fn query_state_change(&mut self) -> (r: Option<State>)
        ensures
            r == (if old(self).armed() {
                Some(old(self).mode())
            } else {
                None::<State>
            }),
            !final(self).armed(),
            final(self).element() == old(self).element(),
            final(self).mode() == old(self).mode(),
    {
        if self.pending {
            self.pending = false;
            Some(self.mode)
        } else {
            None
        }
    }
}

} // verus!
