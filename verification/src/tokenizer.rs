//! The incremental HTML tokenizer: a state machine that consumes
//! characters from an owned [`BufferQueue`] and delivers completed
//! tokens to a [`TokenSink`].
//!
//! `feed` appends a chunk and runs the machine until it needs more
//! input; `end` signals that no more input will come, closes whatever
//! construct is still open, and emits the end-of-file token.  Partial
//! tokens survive across `feed` calls, so the emitted stream — after
//! adjacent character data is coalesced — does not depend on where the
//! input was split.

use vstd::prelude::*;
use vstd::string::StrSliceExecFns;
use vstd::string::StringExecFns;
use crate::buffer_queue::{char_matches, BufferQueue, SetResult};
use crate::char_ref::{
    digit_value, entity_lookup, entity_viable, map_numeric, CharRefState, CharRefTokenizer,
};
use crate::interface::{adds_no_eof, appended, extends, TokenSink};
use crate::smallcharset::SmallCharSet;
use crate::states::{AttrValueKind, DoctypeIdKind, RawKind, ScriptEscapeKind, State};
use crate::strutil::{char_from_u32, char_to_string, push_char, str_eq, take_opt, take_string,
    take_vec};
use crate::tokens::{opt_view, Attribute, Doctype, Tag, TagKind, Token};

verus! {

/// Deliver a parse error to the sink: the given message when exact
/// errors were requested, a fixed placeholder otherwise.
fn emit_error_to<Sink: TokenSink>(sink: &mut Sink, exact: bool, msg: &str)
    ensures
        appended(old(sink).sunk(), final(sink).sunk(), 1),
        adds_no_eof(old(sink).sunk(), final(sink).sunk()),
        final(sink).sunk().last() matches Token::ParseError(_),
{
    let m = if exact {
        String::from_str(msg)
    } else {
        String::from_str("parse error")
    };
    sink.process_token(Token::ParseError(m));
}

/// Deliver one character of ordinary data; a NUL is delivered as the
/// distinguished null-character token.
fn emit_char_to<Sink: TokenSink>(sink: &mut Sink, c: char)
    ensures
        appended(old(sink).sunk(), final(sink).sunk(), 1),
        adds_no_eof(old(sink).sunk(), final(sink).sunk()),
        c == '\0' ==> final(sink).sunk().last() == Token::NullCharacterToken,
        c != '\0' ==> (final(sink).sunk().last() matches Token::CharacterTokens(s) && s@ == seq![
            c,
        ]),
{
    if c == '\0' {
        sink.process_token(Token::NullCharacterToken);
    } else {
        sink.process_token(Token::CharacterTokens(char_to_string(c)));
    }
}

/// Deliver a run of ordinary character data.
fn emit_string_to<Sink: TokenSink>(sink: &mut Sink, s: String)
    ensures
        appended(old(sink).sunk(), final(sink).sunk(), 1),
        adds_no_eof(old(sink).sunk(), final(sink).sunk()),
        final(sink).sunk().last() matches Token::CharacterTokens(t) && t@ == s@,
{
    sink.process_token(Token::CharacterTokens(s));
}

/// Options controlling the behaviour of the tokenizer.
pub struct TokenizerOpts {
    /// Report the specific parse error found rather than a placeholder
    /// message.  Never affects which tokens are produced.
    pub exact_errors: bool,
    /// Discard a U+FEFF byte-order mark at the very start of the input.
    pub discard_bom: bool,
    /// Start in a state other than the data state (for fragment
    /// parsing seeded in a raw-text mode).
    pub initial_state: Option<State>,
    /// Seed the "last start tag" used to decide whether an end tag
    /// leaves a raw-text mode.
    pub last_start_tag_name: Option<String>,
    /// Hook for timing instrumentation in a driver.  Never affects
    /// which tokens are produced; this library itself does no timing.
    pub profile: bool,
}

impl Default for TokenizerOpts {
    /// Exact errors off, byte-order marks discarded, starting in the
    /// data state with no last start tag.
    fn default() -> (r: Self)
        ensures
            !r.exact_errors,
            r.discard_bom,
            r.initial_state is None,
            r.last_start_tag_name is None,
            !r.profile,
    {
        TokenizerOpts {
            exact_errors: false,
            discard_bom: true,
            initial_state: None,
            last_start_tag_name: None,
            profile: false,
        }
    }
}

/// The HTML tokenizer.
pub struct Tokenizer<Sink: TokenSink> {
    exact_errors: bool,
    discard_bom: bool,
    sink: Sink,
    state: State,
    input: BufferQueue,
    at_eof: bool,
    done: bool,
    ignore_lf: bool,
    bom_pending: bool,
    last_start_tag_name: Option<String>,
    current_tag_kind: TagKind,
    current_tag_name: String,
    current_tag_self_closing: bool,
    current_tag_attrs: Vec<Attribute>,
    current_attr_name: String,
    current_attr_value: String,
    current_comment: String,
    doctype_name: String,
    doctype_has_name: bool,
    doctype_public: String,
    doctype_has_public: bool,
    doctype_system: String,
    doctype_has_system: bool,
    doctype_force_quirks: bool,
    temp_buf: String,
    char_ref: Option<CharRefTokenizer>,
}

impl<Sink: TokenSink> Tokenizer<Sink> {
    /// All tokens delivered to the sink so far.
    pub closed spec fn sunk(&self) -> Seq<Token> {
        self.sink.sunk()
    }

    /// The tokenizer's structural invariant.
    pub closed spec fn wf(&self) -> bool {
        self.input.wf() && (self.done ==> self.at_eof)
    }

    /// Whether `end` has been called: no further input is accepted.
    pub closed spec fn finished(&self) -> bool {
        self.at_eof
    }

    /// Whether the end-of-file token has been delivered.
    pub closed spec fn eof_emitted(&self) -> bool {
        self.done
    }

    /// The machine's current lexical state.
    pub closed spec fn current_state(&self) -> State {
        self.state
    }

    /// Whether parse errors carry their specific message rather than a
    /// placeholder.
    pub closed spec fn exactness(&self) -> bool {
        self.exact_errors
    }

    /// Whether a byte-order mark at the very start of the input will be
    /// discarded.
    pub closed spec fn discards_bom(&self) -> bool {
        self.discard_bom
    }

    /// The recorded name of the last start tag, which decides whether
    /// an end tag leaves a raw-text mode.
    pub closed spec fn last_start_tag(&self) -> Option<Seq<char>> {
        opt_view(self.last_start_tag_name)
    }

    /// Buffered input not yet consumed, counting what the reference
    /// sub-machine holds as still unprocessed.
    pub closed spec fn pending(&self) -> int {
        self.input.stream().len() as int + match self.char_ref {
            Some(cr) => cr.name_buf@.len() as int,
            None => 0int,
        }
    }

    /// Whether a character reference is being consumed.
    pub closed spec fn cr_active(&self) -> int {
        if self.char_ref is Some {
            1
        } else {
            0
        }
    }

    /// Strict progress measure between two tokenizer values: consuming
    /// input, or resolving part of a character reference, or retiring
    /// the reference sub-machine.
    pub open spec fn m_lt(post: Self, pre: Self) -> bool {
        post.pending() < pre.pending() || (post.pending() == pre.pending() && (
        post.input_len() < pre.input_len() || (post.input_len() == pre.input_len()
            && post.cr_active() < pre.cr_active())))
    }

    /// Non-strict version of [`Self::m_lt`].
    pub open spec fn m_le(post: Self, pre: Self) -> bool {
        post.pending() < pre.pending() || (post.pending() == pre.pending() && (
        post.input_len() < pre.input_len() || (post.input_len() == pre.input_len()
            && post.cr_active() <= pre.cr_active())))
    }

    /// The number of buffered input characters.
    pub closed spec fn input_len(&self) -> int {
        self.input.stream().len() as int
    }

    /// The buffered characters not yet consumed.
    pub closed spec fn buffered(&self) -> Seq<char> {
        self.input.stream()
    }

    /// Waiting for input: nothing is buffered, or the machine stands on
    /// an undecidable prefix of one of the keywords it must look ahead
    /// for (`--`, `doctype`, `public`, `system`) and only more input
    /// can settle the match.  `feed` always returns in this condition:
    /// it consumes everything the buffered input lets it decide.
    pub closed spec fn suspended(&self) -> bool {
        ||| self.input.stream().len() == 0
        ||| (!self.ignore_lf && self.char_ref is None && self.state
            == State::MarkupDeclarationOpen && (is_partial_keyword(
            self.input.stream(),
            "--"@,
            false,
        ) || is_partial_keyword(self.input.stream(), "doctype"@, true)))
        ||| (!self.ignore_lf && self.char_ref is None && self.state == State::AfterDoctypeName && (
        is_partial_keyword(self.input.stream(), "public"@, true) || is_partial_keyword(
            self.input.stream(),
            "system"@,
            true,
        )))
    }

    /// The text of the comment under construction.
    pub closed spec fn pending_comment(&self) -> Seq<char> {
        self.current_comment@
    }

    /// Resting inside an unterminated comment: `end` then reports the
    /// forced closure and delivers the pending text as a comment token
    /// before the end-of-file token.
    pub closed spec fn closing_comment(&self) -> bool {
        &&& self.input.stream().len() == 0
        &&& self.char_ref is None
        &&& !self.done
        &&& matches!(self.state, State::CommentStart | State::CommentStartDash | State::Comment
            | State::CommentEndDash | State::CommentEnd | State::CommentEndBang)
    }

    /// Parked: no buffered input, no reference pending, and not inside
    /// a keyword probe — a step changes nothing at all.
    pub closed spec fn parked(&self) -> bool {
        &&& self.input.stream().len() == 0
        &&& self.char_ref is None
        &&& !matches!(self.state, State::MarkupDeclarationOpen | State::AfterDoctypeName)
    }

    /// About to scan ordinary text: a bulk state whose next buffered
    /// character is not one the state treats specially.
    pub closed spec fn ready_for_text(&self) -> bool {
        &&& matches!(self.state, State::Data | State::Plaintext | State::RawData(_))
        &&& self.char_ref is None
        &&& !self.ignore_lf
        &&& self.input.stream().len() > 0
        &&& !scanned_specially(self.state, self.input.stream()[0])
    }

    /// No buffered input, no partial construct: the machine rests
    /// between tokens in a plain lexical mode.
    pub closed spec fn drained(&self) -> bool {
        &&& self.input.stream().len() == 0
        &&& self.char_ref is None
        &&& matches!(self.state, State::Data | State::Plaintext | State::RawData(
            RawKind::Rcdata,
        ) | State::RawData(RawKind::Rawtext) | State::RawData(RawKind::ScriptData))
    }

    /// Resting with no pending partial token and the end-of-file token
    /// not yet emitted: `end` then emits exactly that token.
    pub closed spec fn quiescent(&self) -> bool {
        self.drained() && !self.done
    }

    /// About to read a NUL as ordinary character data.
    pub closed spec fn ready_at_null(&self) -> bool {
        &&& self.state == State::Data
        &&& self.char_ref is None
        &&& !self.ignore_lf
        &&& self.input.stream().len() > 0
        &&& self.input.stream()[0] == '\0'
    }

    /// Rank of the end-of-file dispatch: every `eof_step` lowers it,
    /// and it reaches zero exactly when the end-of-file token is out.
    pub closed spec fn eof_rank(&self) -> int {
        if self.done {
            0
        } else {
            state_eof_rank(self.state) + if self.char_ref is Some {
                10int
            } else {
                0int
            }
        }
    }

    /// Create a tokenizer that will deliver tokens to `sink`.
    pub fn new(sink: Sink, opts: TokenizerOpts) -> (r: Self)
        ensures
            r.wf(),
            !r.finished(),
            !r.eof_emitted(),
            r.sunk() == sink.sunk(),
            r.current_state() == (match opts.initial_state {
                Some(s) => s,
                None => State::Data,
            }),
            r.exactness() == opts.exact_errors,
            r.discards_bom() == opts.discard_bom,
            r.last_start_tag() == opt_view(opts.last_start_tag_name),
    {
        let state = match opts.initial_state {
            Some(s) => s,
            None => State::Data,
        };
        Tokenizer {
            exact_errors: opts.exact_errors,
            discard_bom: opts.discard_bom,
            sink,
            state,
            input: BufferQueue::new(),
            at_eof: false,
            done: false,
            ignore_lf: false,
            bom_pending: true,
            last_start_tag_name: opts.last_start_tag_name,
            current_tag_kind: TagKind::StartTag,
            current_tag_name: String::new(),
            current_tag_self_closing: false,
            current_tag_attrs: Vec::new(),
            current_attr_name: String::new(),
            current_attr_value: String::new(),
            current_comment: String::new(),
            doctype_name: String::new(),
            doctype_has_name: false,
            doctype_public: String::new(),
            doctype_has_public: false,
            doctype_system: String::new(),
            doctype_has_system: false,
            doctype_force_quirks: false,
            temp_buf: String::new(),
            char_ref: None,
        }
    }

    /// Hand the sink back, consuming the tokenizer.
    pub fn into_sink(self) -> (r: Sink)
        ensures
            r.sunk() == self.sunk(),
    {
        self.sink
    }

    /// Append one chunk of input and run the machine until it needs
    /// more input than is buffered.  Tokens are delivered to the sink
    /// during the call; what was delivered before is never changed.
    pub fn feed(&mut self, input: String)
        requires
            old(self).wf(),
            !old(self).finished(),
        ensures
            final(self).wf(),
            !final(self).finished(),
            extends(final(self).sunk(), old(self).sunk()),
            adds_no_eof(old(self).sunk(), final(self).sunk()),
            final(self).suspended(),
            input@.len() == 0 && old(self).suspended() ==> *final(self) == *old(self),
    {
        let has_input = input.as_str().unicode_len() > 0;
        self.input.push_back(input);
        if self.bom_pending && has_input {
            match self.input.peek() {
                None => {},
                Some(c) => {
                    self.bom_pending = false;
                    if c == '\u{feff}' && self.discard_bom {
                        let _ = self.input.next();
                    }
                },
            }
        }
        self.run();
    }

    /// Signal that no more input will arrive: close any construct
    /// still open (each such forced closure is a parse error), then
    /// emit the end-of-file token, always the last token delivered.
    /// On a tokenizer with no pending partial token this emits exactly
    /// the end-of-file token and nothing else.
    pub fn end(&mut self)
        requires
            old(self).wf(),
            !old(self).finished(),
        ensures
            final(self).wf(),
            final(self).finished(),
            extends(final(self).sunk(), old(self).sunk()),
            final(self).sunk().len() > old(self).sunk().len(),
            final(self).sunk().last() == Token::EOFToken,
            adds_no_eof(old(self).sunk(), final(self).sunk().drop_last()),
            old(self).quiescent() ==> final(self).sunk() == old(self).sunk().push(
                Token::EOFToken,
            ),
            old(self).closing_comment() ==> appended(old(self).sunk(), final(self).sunk(), 3) && (
            final(self).sunk()[old(self).sunk().len() as int] matches Token::ParseError(_)) && (
            final(self).sunk()[old(self).sunk().len() as int + 1] matches Token::CommentToken(c) && c@
                == old(self).pending_comment()),
    {
        self.at_eof = true;
        self.run();
        while !self.done
            invariant
                self.wf(),
                self.at_eof,
                extends(self.sunk(), old(self).sunk()),
                !self.done ==> adds_no_eof(old(self).sunk(), self.sunk()),
                self.done ==> self.sunk().len() > old(self).sunk().len() && self.sunk().last()
                    == Token::EOFToken && adds_no_eof(old(self).sunk(), self.sunk().drop_last()),
                old(self).quiescent() ==> (self.done ==> self.sunk() == old(self).sunk().push(
                    Token::EOFToken,
                )) && (!self.done ==> self.sunk() == old(self).sunk() && self.drained()),
                old(self).closing_comment() ==> ((!self.done && self.sunk() == old(self).sunk()
                    && self.char_ref is None && self.state == old(self).state
                    && self.current_comment@ == old(self).pending_comment()) || (!self.done
                    && appended(old(self).sunk(), self.sunk(), 2) && (self.sunk()[old(self).sunk().len() as int] matches Token::ParseError(_)) && (self.sunk()[old(self).sunk().len() as int + 1] matches Token::CommentToken(c) && c@ == old(self).pending_comment()) && self.char_ref is None && self.state == State::Data) || (
                self.done && appended(old(self).sunk(), self.sunk(), 3) && (self.sunk()[old(self).sunk().len() as int] matches Token::ParseError(_)) && (self.sunk()[old(self).sunk().len() as int + 1] matches Token::CommentToken(c) && c@ == old(self).pending_comment()))),
            decreases self.eof_rank(),
        {
            let ghost pre = *self;
            self.eof_step();
            proof {
                if !self.done {
                    assert(adds_no_eof(old(self).sunk(), self.sunk())) by {
                        assert forall|i: int| old(self).sunk().len() <= i < self.sunk().len()
                            implies #[trigger] self.sunk()[i] != Token::EOFToken by {
                            if i < pre.sunk().len() {
                                assert(self.sunk()[i] == pre.sunk()[i]);
                            }
                        }
                    }
                } else {
                    assert(adds_no_eof(old(self).sunk(), self.sunk().drop_last())) by {
                        assert forall|i: int|
                            old(self).sunk().len() <= i < self.sunk().drop_last().len()
                            implies #[trigger] self.sunk().drop_last()[i] != Token::EOFToken by {
                            if i < pre.sunk().len() {
                                assert(self.sunk()[i] == pre.sunk()[i]);
                            }
                        }
                    }
                    if old(self).closing_comment() && !pre.done && old(self).sunk().len() + 1
                        < pre.sunk().len() {
                        assert(self.sunk()[old(self).sunk().len() as int] == pre.sunk()[old(self).sunk().len() as int]);
                        assert(self.sunk()[old(self).sunk().len() as int + 1] == pre.sunk()[old(self).sunk().len() as int + 1]);
                    }
                }
            }
        }
    }

    /// Run the machine to a fixed point: step while progress is made.
    fn run(&mut self)
        requires
            old(self).wf(),
            !old(self).done,
        ensures
            final(self).wf(),
            extends(final(self).sunk(), old(self).sunk()),
            adds_no_eof(old(self).sunk(), final(self).sunk()),
            final(self).at_eof == old(self).at_eof,
            final(self).done == old(self).done,
            final(self).suspended(),
            old(self).drained() ==> *final(self) == *old(self),
            old(self).parked() ==> *final(self) == *old(self),
            old(self).suspended() && !old(self).at_eof ==> *final(self) == *old(self),
    {
        let ghost init = *self;
        let mut progress = true;
        while progress
            invariant
                self.wf(),
                !self.done,
                extends(self.sunk(), init.sunk()),
                adds_no_eof(init.sunk(), self.sunk()),
                self.at_eof == init.at_eof,
                self.done == init.done,
                !progress ==> self.suspended(),
                init.drained() ==> *self == init,
                init.parked() ==> *self == init,
                init.suspended() && !init.at_eof ==> *self == init,
            decreases
                    self.pending(),
                    self.input_len(),
                    self.cr_active(),
                    (if progress {
                        1int
                    } else {
                        0int
                    }),
        {
            let ghost pre = *self;
            progress = self.step();
            proof {
                if init.drained() {
                    assert(pre == init);
                    assert(pre.drained());
                }
                if init.parked() {
                    assert(pre == init);
                    assert(pre.parked());
                }
                if init.suspended() && !init.at_eof {
                    assert(pre == init);
                    assert(pre.suspended());
                    assert(!pre.finished());
                }
            }
        }
    }

    /// Advance the machine by one dispatch: consume a character or a
    /// run (or drive the character-reference sub-machine) and perform
    /// that input's transitions.  Returns whether any progress was
    /// made; when it returns false the machine needs more input and
    /// nothing was emitted.  A NUL read as ordinary character data
    /// yields exactly a parse error and the null-character token.
    pub fn step(&mut self) -> (p: bool)
        requires
            old(self).wf(),
            !old(self).eof_emitted(),
        ensures
            final(self).wf(),
            extends(final(self).sunk(), old(self).sunk()),
            adds_no_eof(old(self).sunk(), final(self).sunk()),
            final(self).finished() == old(self).finished(),
            final(self).eof_emitted() == old(self).eof_emitted(),
            p ==> Self::m_lt(*final(self), *old(self)),
            !p ==> Self::m_le(*final(self), *old(self)),
            !p ==> final(self).suspended(),
            old(self).drained() ==> !p && *final(self) == *old(self),
            old(self).parked() ==> !p && *final(self) == *old(self),
            old(self).suspended() && !old(self).finished() ==> !p && *final(self) == *old(self),
            old(self).ready_at_null() ==> p && appended(old(self).sunk(), final(self).sunk(), 2)
                && (final(self).sunk()[old(self).sunk().len() as int] matches Token::ParseError(_))
                && final(self).sunk().last() == Token::NullCharacterToken,
            old(self).ready_for_text() ==> p && appended(old(self).sunk(), final(self).sunk(), 1)
                && (final(self).sunk().last() matches Token::CharacterTokens(s) && s@.len() >= 1
                && s@ == old(self).buffered().take(s@.len() as int) && final(self).buffered()
                == old(self).buffered().skip(s@.len() as int) && (forall|i: int|
                0 <= i < s@.len() ==> !scanned_specially(
                    old(self).current_state(),
                    #[trigger] old(self).buffered()[i],
                ))),
    {
        if self.char_ref.is_some() {
            return self.step_char_ref();
        }
        match self.state {
            State::Data => self.step_data(),
            State::RawData(kind) => self.step_raw_data(kind),
            State::Plaintext => self.step_plaintext(),
            State::MarkupDeclarationOpen => self.step_markup_declaration_open(),
            State::AfterDoctypeName => self.step_after_doctype_name(),
            _ => {
                match Self::next_preprocessed(&mut self.input, &mut self.ignore_lf) {
                    None => false,
                    Some(c) => {
                        self.process_char(c);
                        true
                    },
                }
            },
        }
    }

    /// Pull the next character, normalizing CR and CR LF to LF.
    fn next_preprocessed(input: &mut BufferQueue, ignore_lf: &mut bool) -> (r: Option<char>)
        requires
            old(input).wf(),
        ensures
            final(input).wf(),
            final(input).stream().len() <= old(input).stream().len(),
            r is Some ==> final(input).stream().len() < old(input).stream().len(),
            r is None ==> final(input).stream().len() == 0,
            old(input).stream().len() == 0 ==> r is None && *final(input) == *old(input)
                && *final(ignore_lf) == *old(ignore_lf),
    {
        let mut c = match input.next() {
            None => {
                return None;
            },
            Some(c) => c,
        };
        if *ignore_lf {
            *ignore_lf = false;
            if c == '\n' {
                c = match input.next() {
                    None => {
                        return None;
                    },
                    Some(c2) => c2,
                };
            }
        }
        if c == '\r' {
            *ignore_lf = true;
            c = '\n';
        }
        Some(c)
    }

    /// One dispatch in the data state: bulk character data, or one of
    /// the four special characters.
    fn step_data(&mut self) -> (p: bool)
        requires
            old(self).wf(),
            old(self).state == State::Data,
            old(self).char_ref is None,
        ensures
            final(self).wf(),
            extends(final(self).sunk(), old(self).sunk()),
            final(self).at_eof == old(self).at_eof,
            final(self).done == old(self).done,
            adds_no_eof(old(self).sunk(), final(self).sunk()),
            p ==> Self::m_lt(*final(self), *old(self)),
            !p ==> Self::m_le(*final(self), *old(self)),
            old(self).input.stream().len() == 0 ==> !p && *final(self) == *old(self),
            !p ==> final(self).input.stream().len() == 0,
            old(self).ready_at_null() ==> p && appended(old(self).sunk(), final(self).sunk(), 2)
                && (final(self).sunk()[old(self).sunk().len() as int] matches Token::ParseError(_))
                && final(self).sunk().last() == Token::NullCharacterToken,
            old(self).ready_for_text() ==> p && appended(old(self).sunk(), final(self).sunk(), 1)
                && (final(self).sunk().last() matches Token::CharacterTokens(s) && s@.len() >= 1
                && s@ == old(self).buffered().take(s@.len() as int) && final(self).buffered()
                == old(self).buffered().skip(s@.len() as int) && (forall|i: int|
                0 <= i < s@.len() ==> !scanned_specially(
                    old(self).current_state(),
                    #[trigger] old(self).buffered()[i],
                ))),
    {
        if self.ignore_lf {
            let c = match Self::next_preprocessed(&mut self.input, &mut self.ignore_lf) {
                None => {
                    return false;
                },
                Some(c) => c,
            };
            self.process_char(c);
            return true;
        }
        let set = SmallCharSet::from_slice(&['\r', '\0', '&', '<']);
        let ghost s0 = self.sunk();
        match self.input.pop_except_from(set) {
            None => false,
            Some(SetResult::FromSet(c)) => {
                if c == '\0' {
                    let ex = self.exact_errors;
                    emit_error_to(&mut self.sink, ex, "unexpected null character");
                    let ghost s1 = self.sunk();
                    self.sink.process_token(Token::NullCharacterToken);
                    proof {
                        assert(self.sunk() == s1.push(Token::NullCharacterToken));
                        assert(appended(s0, self.sunk(), 2));
                        assert(self.sunk()[s0.len() as int] == s1.last());
                    }
                } else if c == '&' {
                    self.consume_char_ref(None);
                } else if c == '<' {
                    self.state = State::TagOpen;
                } else {
                    emit_char_to(&mut self.sink, '\n');
                    self.ignore_lf = true;
                }
                true
            },
            Some(SetResult::NotFromSet(s)) => {
                emit_string_to(&mut self.sink, s);
                true
            },
        }
    }

    /// One dispatch in a raw-text mode.
    fn step_raw_data(&mut self, kind: RawKind) -> (p: bool)
        requires
            old(self).wf(),
            old(self).state == State::RawData(kind),
            old(self).char_ref is None,
        ensures
            final(self).wf(),
            extends(final(self).sunk(), old(self).sunk()),
            final(self).at_eof == old(self).at_eof,
            final(self).done == old(self).done,
            adds_no_eof(old(self).sunk(), final(self).sunk()),
            p ==> Self::m_lt(*final(self), *old(self)),
            !p ==> Self::m_le(*final(self), *old(self)),
            old(self).input.stream().len() == 0 ==> !p && *final(self) == *old(self),
            !p ==> final(self).input.stream().len() == 0,
            old(self).ready_for_text() ==> p && appended(old(self).sunk(), final(self).sunk(), 1)
                && (final(self).sunk().last() matches Token::CharacterTokens(s) && s@.len() >= 1
                && s@ == old(self).buffered().take(s@.len() as int) && final(self).buffered()
                == old(self).buffered().skip(s@.len() as int) && (forall|i: int|
                0 <= i < s@.len() ==> !scanned_specially(
                    old(self).current_state(),
                    #[trigger] old(self).buffered()[i],
                ))),
    {
        if self.ignore_lf {
            let c = match Self::next_preprocessed(&mut self.input, &mut self.ignore_lf) {
                None => {
                    return false;
                },
                Some(c) => c,
            };
            self.process_char(c);
            return true;
        }
        let set = match kind {
            RawKind::Rcdata => SmallCharSet::from_slice(&['\r', '\0', '&', '<']),
            RawKind::Rawtext => SmallCharSet::from_slice(&['\r', '\0', '<']),
            RawKind::ScriptData => SmallCharSet::from_slice(&['\r', '\0', '<']),
            RawKind::ScriptDataEscaped(_) => SmallCharSet::from_slice(&['\r', '\0', '-', '<']),
        };
        match self.input.pop_except_from(set) {
            None => false,
            Some(SetResult::FromSet(c)) => {
                self.handle_raw_data(kind, c);
                true
            },
            Some(SetResult::NotFromSet(s)) => {
                emit_string_to(&mut self.sink, s);
                true
            },
        }
    }

    /// One dispatch in the plaintext state: everything is character
    /// data until the end of the input.
    fn step_plaintext(&mut self) -> (p: bool)
        requires
            old(self).wf(),
            old(self).state == State::Plaintext,
            old(self).char_ref is None,
        ensures
            final(self).wf(),
            extends(final(self).sunk(), old(self).sunk()),
            final(self).at_eof == old(self).at_eof,
            final(self).done == old(self).done,
            adds_no_eof(old(self).sunk(), final(self).sunk()),
            p ==> Self::m_lt(*final(self), *old(self)),
            !p ==> Self::m_le(*final(self), *old(self)),
            old(self).input.stream().len() == 0 ==> !p && *final(self) == *old(self),
            !p ==> final(self).input.stream().len() == 0,
            old(self).ready_for_text() ==> p && appended(old(self).sunk(), final(self).sunk(), 1)
                && (final(self).sunk().last() matches Token::CharacterTokens(s) && s@.len() >= 1
                && s@ == old(self).buffered().take(s@.len() as int) && final(self).buffered()
                == old(self).buffered().skip(s@.len() as int) && (forall|i: int|
                0 <= i < s@.len() ==> !scanned_specially(
                    old(self).current_state(),
                    #[trigger] old(self).buffered()[i],
                ))),
    {
        if self.ignore_lf {
            let c = match Self::next_preprocessed(&mut self.input, &mut self.ignore_lf) {
                None => {
                    return false;
                },
                Some(c) => c,
            };
            self.process_char(c);
            return true;
        }
        let set = SmallCharSet::from_slice(&['\r', '\0']);
        match self.input.pop_except_from(set) {
            None => false,
            Some(SetResult::FromSet(c)) => {
                if c == '\0' {
                    let ex = self.exact_errors;
                    emit_error_to(&mut self.sink, ex, "unexpected null character");
                    emit_char_to(&mut self.sink, '\u{fffd}');
                } else {
                    emit_char_to(&mut self.sink, '\n');
                    self.ignore_lf = true;
                }
                true
            },
            Some(SetResult::NotFromSet(s)) => {
                emit_string_to(&mut self.sink, s);
                true
            },
        }
    }
}

impl<Sink: TokenSink> Tokenizer<Sink> {
    /// What every single-character handler preserves and guarantees.
    pub closed spec fn h_ok(post: Self, pre: Self) -> bool {
        &&& post.wf()
        &&& extends(post.sunk(), pre.sunk())
        &&& adds_no_eof(pre.sunk(), post.sunk())
        &&& post.pending() <= pre.pending()
        &&& post.input_len() <= pre.input_len()
        &&& post.at_eof == pre.at_eof
        &&& post.done == pre.done
    }

    /// What helpers that only touch accumulators and the sink keep.
    pub closed spec fn keeps_io(post: Self, pre: Self) -> bool {
        &&& post.input == pre.input
        &&& post.char_ref == pre.char_ref
        &&& post.at_eof == pre.at_eof
        &&& post.done == pre.done
        &&& post.ignore_lf == pre.ignore_lf
        &&& post.state == pre.state
    }

    /// Handle one already-consumed character in the current state.
    #[verifier::rlimit(100)]
    fn process_char(&mut self, c: char)
        requires
            old(self).wf(),
        ensures
            Self::h_ok(*final(self), *old(self)),
    {
        match self.state {
            State::Data => self.handle_data_char(c),
            State::Plaintext => self.handle_plaintext_char(c),
            State::RawData(kind) => self.handle_raw_data(kind, c),
            State::TagOpen => self.handle_tag_open(c),
            State::EndTagOpen => self.handle_end_tag_open(c),
            State::TagName => self.handle_tag_name(c),
            State::RawLessThanSign(kind) => self.handle_raw_less_than(kind, c),
            State::RawEndTagOpen(kind) => self.handle_raw_end_tag_open(kind, c),
            State::RawEndTagName(kind) => self.handle_raw_end_tag_name(kind, c),
            State::ScriptDataEscapeStart(esc) => self.handle_script_escape_start(esc, c),
            State::ScriptDataEscapeStartDash => self.handle_script_escape_start_dash(c),
            State::ScriptDataEscapeDash(esc) => self.handle_script_escape_dash(esc, c),
            State::ScriptDataEscapeDashDash(esc) => self.handle_script_escape_dash_dash(esc, c),
            State::ScriptDataDoubleEscapeEnd => self.handle_script_double_escape_end(c),
            State::SelfClosingStartTag => self.handle_self_closing_start_tag(c),
            State::BeforeAttributeName => self.handle_before_attribute_name(c),
            State::AttributeName => self.handle_attribute_name(c),
            State::AfterAttributeName => self.handle_after_attribute_name(c),
            State::BeforeAttributeValue => self.handle_before_attribute_value(c),
            State::AttributeValue(kind) => self.handle_attribute_value(kind, c),
            State::AfterAttributeValueQuoted => self.handle_after_attribute_value_quoted(c),
            State::CommentStart => self.handle_comment_start(c),
            State::CommentStartDash => self.handle_comment_start_dash(c),
            State::Comment => self.handle_comment(c),
            State::CommentEndDash => self.handle_comment_end_dash(c),
            State::CommentEnd => self.handle_comment_end(c),
            State::CommentEndBang => self.handle_comment_end_bang(c),
            State::Doctype => self.handle_doctype(c),
            State::BeforeDoctypeName => self.handle_before_doctype_name(c),
            State::DoctypeName => self.handle_doctype_name(c),
            State::AfterDoctypeName => self.handle_after_doctype_name_char(c),
            State::AfterDoctypeKeyword(k) => self.handle_after_doctype_keyword(k, c),
            State::BeforeDoctypeIdentifier(k) => self.handle_before_doctype_identifier(k, c),
            State::DoctypeIdentifierDoubleQuoted(k) => self.handle_doctype_identifier(k, '"', c),
            State::DoctypeIdentifierSingleQuoted(k) => self.handle_doctype_identifier(k, '\'', c),
            State::AfterDoctypeIdentifier(k) => self.handle_after_doctype_identifier(k, c),
            State::BetweenDoctypePublicAndSystemIdentifiers => self.handle_between_doctype_ids(c),
            State::BogusDoctype => self.handle_bogus_doctype(c),
            State::BogusComment => self.handle_bogus_comment(c),
            State::MarkupDeclarationOpen => {
                let ex = self.exact_errors;
                emit_error_to(&mut self.sink, ex, "bad character sequence after <!");
                self.current_comment = String::new();
                self.state = State::BogusComment;
                self.handle_bogus_comment(c);
            },
            State::CdataSection => self.handle_cdata_section(c),
            State::CdataSectionBracket => self.handle_cdata_section_bracket(c),
            State::CdataSectionEnd => self.handle_cdata_section_end(c),
        }
    }

    fn handle_data_char(&mut self, c: char)
        requires
            old(self).wf(),
        ensures
            Self::h_ok(*final(self), *old(self)),
    {
        if c == '\0' {
            let ex = self.exact_errors;
            emit_error_to(&mut self.sink, ex, "unexpected null character");
            self.sink.process_token(Token::NullCharacterToken);
        } else if c == '&' {
            self.consume_char_ref(None);
        } else if c == '<' {
            self.state = State::TagOpen;
        } else {
            emit_char_to(&mut self.sink, c);
        }
    }

    fn handle_plaintext_char(&mut self, c: char)
        requires
            old(self).wf(),
        ensures
            Self::h_ok(*final(self), *old(self)),
    {
        if c == '\0' {
            let ex = self.exact_errors;
            emit_error_to(&mut self.sink, ex, "unexpected null character");
            emit_char_to(&mut self.sink, '\u{fffd}');
        } else {
            emit_char_to(&mut self.sink, c);
        }
    }

    fn handle_raw_data(&mut self, kind: RawKind, c: char)
        requires
            old(self).wf(),
        ensures
            Self::h_ok(*final(self), *old(self)),
    {
        if c == '<' {
            self.state = State::RawLessThanSign(kind);
        } else if c == '\0' {
            let ex = self.exact_errors;
            emit_error_to(&mut self.sink, ex, "unexpected null character");
            emit_char_to(&mut self.sink, '\u{fffd}');
        } else if c == '\r' {
            emit_char_to(&mut self.sink, '\n');
            self.ignore_lf = true;
        } else {
            match kind {
                RawKind::Rcdata => {
                    if c == '&' {
                        self.consume_char_ref(None);
                    } else {
                        emit_char_to(&mut self.sink, c);
                    }
                },
                RawKind::ScriptDataEscaped(esc) => {
                    if c == '-' {
                        emit_char_to(&mut self.sink, '-');
                        self.state = State::ScriptDataEscapeDash(esc);
                    } else {
                        emit_char_to(&mut self.sink, c);
                    }
                },
                _ => {
                    emit_char_to(&mut self.sink, c);
                },
            }
        }
    }

    #[verifier::rlimit(50)]
    fn handle_tag_open(&mut self, c: char)
        requires
            old(self).wf(),
        ensures
            Self::h_ok(*final(self), *old(self)),
    {
        if c == '!' {
            self.state = State::MarkupDeclarationOpen;
        } else if c == '/' {
            self.state = State::EndTagOpen;
        } else if c == '?' {
            let ex = self.exact_errors;
            emit_error_to(&mut self.sink, ex, "question mark instead of tag name");
            self.current_comment = String::new();
            self.state = State::BogusComment;
            self.handle_bogus_comment(c);
        } else if alpha_c(c) {
            self.create_tag(TagKind::StartTag, lower_char(c));
            self.state = State::TagName;
        } else {
            let ex = self.exact_errors;
            emit_error_to(&mut self.sink, ex, "invalid first character of tag name");
            emit_char_to(&mut self.sink, '<');
            self.state = State::Data;
            self.handle_data_char(c);
        }
    }

    #[verifier::rlimit(50)]
    fn handle_end_tag_open(&mut self, c: char)
        requires
            old(self).wf(),
        ensures
            Self::h_ok(*final(self), *old(self)),
    {
        if alpha_c(c) {
            self.create_tag(TagKind::EndTag, lower_char(c));
            self.state = State::TagName;
        } else if c == '>' {
            let ex = self.exact_errors;
            emit_error_to(&mut self.sink, ex, "missing end tag name");
            self.state = State::Data;
        } else {
            let ex = self.exact_errors;
            emit_error_to(&mut self.sink, ex, "invalid first character of end tag name");
            self.current_comment = String::new();
            self.state = State::BogusComment;
            self.handle_bogus_comment(c);
        }
    }

    fn handle_tag_name(&mut self, c: char)
        requires
            old(self).wf(),
        ensures
            Self::h_ok(*final(self), *old(self)),
    {
        if space_c(c) {
            self.state = State::BeforeAttributeName;
        } else if c == '/' {
            self.state = State::SelfClosingStartTag;
        } else if c == '>' {
            self.state = State::Data;
            self.emit_current_tag();
        } else if c == '\0' {
            let ex = self.exact_errors;
            emit_error_to(&mut self.sink, ex, "unexpected null character");
            push_char(&mut self.current_tag_name, '\u{fffd}');
        } else {
            push_char(&mut self.current_tag_name, lower_char(c));
        }
    }

    fn handle_raw_less_than(&mut self, kind: RawKind, c: char)
        requires
            old(self).wf(),
        ensures
            Self::h_ok(*final(self), *old(self)),
    {
        if matches!(kind, RawKind::ScriptDataEscaped(ScriptEscapeKind::DoubleEscaped)) {
            if c == '/' {
                self.temp_buf = String::new();
                emit_char_to(&mut self.sink, '<');
                emit_char_to(&mut self.sink, '/');
                self.state = State::ScriptDataDoubleEscapeEnd;
            } else {
                emit_char_to(&mut self.sink, '<');
                self.state = State::RawData(kind);
                self.handle_raw_data(kind, c);
            }
        } else if c == '/' {
            self.temp_buf = String::new();
            self.state = State::RawEndTagOpen(kind);
        } else if c == '!' && matches!(kind, RawKind::ScriptData) {
            emit_char_to(&mut self.sink, '<');
            emit_char_to(&mut self.sink, '!');
            self.state = State::ScriptDataEscapeStart(ScriptEscapeKind::Escaped);
        } else if alpha_c(c) && matches!(kind, RawKind::ScriptDataEscaped(
            ScriptEscapeKind::Escaped,
        )) {
            self.temp_buf = String::new();
            push_char(&mut self.temp_buf, lower_char(c));
            emit_char_to(&mut self.sink, '<');
            emit_char_to(&mut self.sink, c);
            self.state = State::ScriptDataEscapeStart(ScriptEscapeKind::DoubleEscaped);
        } else {
            emit_char_to(&mut self.sink, '<');
            self.state = State::RawData(kind);
            self.handle_raw_data(kind, c);
        }
    }

    fn handle_raw_end_tag_open(&mut self, kind: RawKind, c: char)
        requires
            old(self).wf(),
        ensures
            Self::h_ok(*final(self), *old(self)),
    {
        if alpha_c(c) {
            self.create_tag(TagKind::EndTag, lower_char(c));
            push_char(&mut self.temp_buf, c);
            self.state = State::RawEndTagName(kind);
        } else {
            emit_char_to(&mut self.sink, '<');
            emit_char_to(&mut self.sink, '/');
            self.state = State::RawData(kind);
            self.handle_raw_data(kind, c);
        }
    }

    #[verifier::rlimit(50)]
    fn handle_raw_end_tag_name(&mut self, kind: RawKind, c: char)
        requires
            old(self).wf(),
        ensures
            Self::h_ok(*final(self), *old(self)),
    {
        let appropriate = self.have_appropriate_end_tag();
        if space_c(c) && appropriate {
            self.state = State::BeforeAttributeName;
        } else if c == '/' && appropriate {
            self.state = State::SelfClosingStartTag;
        } else if c == '>' && appropriate {
            self.state = State::Data;
            self.emit_current_tag();
        } else if alpha_c(c) {
            push_char(&mut self.current_tag_name, lower_char(c));
            push_char(&mut self.temp_buf, c);
        } else {
            emit_char_to(&mut self.sink, '<');
            emit_char_to(&mut self.sink, '/');
            self.emit_temp_chars();
            self.state = State::RawData(kind);
            self.handle_raw_data(kind, c);
        }
    }

    fn handle_script_escape_start(&mut self, esc: ScriptEscapeKind, c: char)
        requires
            old(self).wf(),
        ensures
            Self::h_ok(*final(self), *old(self)),
    {
        match esc {
            ScriptEscapeKind::Escaped => {
                if c == '-' {
                    emit_char_to(&mut self.sink, '-');
                    self.state = State::ScriptDataEscapeStartDash;
                } else {
                    self.state = State::RawData(RawKind::ScriptData);
                    self.handle_raw_data(RawKind::ScriptData, c);
                }
            },
            ScriptEscapeKind::DoubleEscaped => {
                if space_c(c) || c == '/' || c == '>' {
                    let is_script = str_eq(self.temp_buf.as_str(), "script");
                    let next = if is_script {
                        ScriptEscapeKind::DoubleEscaped
                    } else {
                        ScriptEscapeKind::Escaped
                    };
                    emit_char_to(&mut self.sink, c);
                    self.state = State::RawData(RawKind::ScriptDataEscaped(next));
                } else if alpha_c(c) {
                    push_char(&mut self.temp_buf, lower_char(c));
                    emit_char_to(&mut self.sink, c);
                } else {
                    let k = RawKind::ScriptDataEscaped(ScriptEscapeKind::Escaped);
                    self.state = State::RawData(k);
                    self.handle_raw_data(k, c);
                }
            },
        }
    }

    fn handle_script_escape_start_dash(&mut self, c: char)
        requires
            old(self).wf(),
        ensures
            Self::h_ok(*final(self), *old(self)),
    {
        if c == '-' {
            emit_char_to(&mut self.sink, '-');
            self.state = State::ScriptDataEscapeDashDash(ScriptEscapeKind::Escaped);
        } else {
            self.state = State::RawData(RawKind::ScriptData);
            self.handle_raw_data(RawKind::ScriptData, c);
        }
    }

    fn handle_script_escape_dash(&mut self, esc: ScriptEscapeKind, c: char)
        requires
            old(self).wf(),
        ensures
            Self::h_ok(*final(self), *old(self)),
    {
        if c == '-' {
            emit_char_to(&mut self.sink, '-');
            self.state = State::ScriptDataEscapeDashDash(esc);
        } else if c == '<' {
            self.state = State::RawLessThanSign(RawKind::ScriptDataEscaped(esc));
        } else if c == '\0' {
            let ex = self.exact_errors;
            emit_error_to(&mut self.sink, ex, "unexpected null character");
            emit_char_to(&mut self.sink, '\u{fffd}');
            self.state = State::RawData(RawKind::ScriptDataEscaped(esc));
        } else {
            emit_char_to(&mut self.sink, c);
            self.state = State::RawData(RawKind::ScriptDataEscaped(esc));
        }
    }

    fn handle_script_escape_dash_dash(&mut self, esc: ScriptEscapeKind, c: char)
        requires
            old(self).wf(),
        ensures
            Self::h_ok(*final(self), *old(self)),
    {
        if c == '-' {
            emit_char_to(&mut self.sink, '-');
        } else if c == '<' {
            self.state = State::RawLessThanSign(RawKind::ScriptDataEscaped(esc));
        } else if c == '>' {
            emit_char_to(&mut self.sink, '>');
            self.state = State::RawData(RawKind::ScriptData);
        } else if c == '\0' {
            let ex = self.exact_errors;
            emit_error_to(&mut self.sink, ex, "unexpected null character");
            emit_char_to(&mut self.sink, '\u{fffd}');
            self.state = State::RawData(RawKind::ScriptDataEscaped(esc));
        } else {
            emit_char_to(&mut self.sink, c);
            self.state = State::RawData(RawKind::ScriptDataEscaped(esc));
        }
    }

    fn handle_script_double_escape_end(&mut self, c: char)
        requires
            old(self).wf(),
        ensures
            Self::h_ok(*final(self), *old(self)),
    {
        if space_c(c) || c == '/' || c == '>' {
            let is_script = str_eq(self.temp_buf.as_str(), "script");
            let next = if is_script {
                ScriptEscapeKind::Escaped
            } else {
                ScriptEscapeKind::DoubleEscaped
            };
            emit_char_to(&mut self.sink, c);
            self.state = State::RawData(RawKind::ScriptDataEscaped(next));
        } else if alpha_c(c) {
            push_char(&mut self.temp_buf, lower_char(c));
            emit_char_to(&mut self.sink, c);
        } else {
            let k = RawKind::ScriptDataEscaped(ScriptEscapeKind::DoubleEscaped);
            self.state = State::RawData(k);
            self.handle_raw_data(k, c);
        }
    }

    fn handle_self_closing_start_tag(&mut self, c: char)
        requires
            old(self).wf(),
        ensures
            Self::h_ok(*final(self), *old(self)),
    {
        if c == '>' {
            self.current_tag_self_closing = true;
            self.state = State::Data;
            self.emit_current_tag();
        } else {
            let ex = self.exact_errors;
            emit_error_to(&mut self.sink, ex, "unexpected solidus in tag");
            self.state = State::BeforeAttributeName;
            self.handle_before_attribute_name(c);
        }
    }

    fn handle_before_attribute_name(&mut self, c: char)
        requires
            old(self).wf(),
        ensures
            Self::h_ok(*final(self), *old(self)),
    {
        if space_c(c) {
        } else if c == '/' {
            self.state = State::SelfClosingStartTag;
        } else if c == '>' {
            self.state = State::Data;
            self.emit_current_tag();
        } else if c == '\0' {
            let ex = self.exact_errors;
            emit_error_to(&mut self.sink, ex, "unexpected null character");
            self.create_attribute('\u{fffd}');
            self.state = State::AttributeName;
        } else if c == '=' {
            let ex = self.exact_errors;
            emit_error_to(&mut self.sink, ex, "unexpected equals sign before attribute name");
            self.create_attribute('=');
            self.state = State::AttributeName;
        } else {
            if c == '"' || c == '\'' || c == '<' {
                let ex = self.exact_errors;
                emit_error_to(&mut self.sink, ex, "unexpected character in attribute name");
            }
            self.create_attribute(lower_char(c));
            self.state = State::AttributeName;
        }
    }

    fn handle_attribute_name(&mut self, c: char)
        requires
            old(self).wf(),
        ensures
            Self::h_ok(*final(self), *old(self)),
    {
        if space_c(c) {
            self.state = State::AfterAttributeName;
        } else if c == '/' {
            self.state = State::SelfClosingStartTag;
        } else if c == '=' {
            self.state = State::BeforeAttributeValue;
        } else if c == '>' {
            self.state = State::Data;
            self.emit_current_tag();
        } else if c == '\0' {
            let ex = self.exact_errors;
            emit_error_to(&mut self.sink, ex, "unexpected null character");
            push_char(&mut self.current_attr_name, '\u{fffd}');
        } else {
            if c == '"' || c == '\'' || c == '<' {
                let ex = self.exact_errors;
                emit_error_to(&mut self.sink, ex, "unexpected character in attribute name");
            }
            push_char(&mut self.current_attr_name, lower_char(c));
        }
    }

    fn handle_after_attribute_name(&mut self, c: char)
        requires
            old(self).wf(),
        ensures
            Self::h_ok(*final(self), *old(self)),
    {
        if space_c(c) {
        } else if c == '/' {
            self.state = State::SelfClosingStartTag;
        } else if c == '=' {
            self.state = State::BeforeAttributeValue;
        } else if c == '>' {
            self.state = State::Data;
            self.emit_current_tag();
        } else if c == '\0' {
            let ex = self.exact_errors;
            emit_error_to(&mut self.sink, ex, "unexpected null character");
            self.create_attribute('\u{fffd}');
            self.state = State::AttributeName;
        } else {
            if c == '"' || c == '\'' || c == '<' {
                let ex = self.exact_errors;
                emit_error_to(&mut self.sink, ex, "unexpected character in attribute name");
            }
            self.create_attribute(lower_char(c));
            self.state = State::AttributeName;
        }
    }

    fn handle_before_attribute_value(&mut self, c: char)
        requires
            old(self).wf(),
        ensures
            Self::h_ok(*final(self), *old(self)),
    {
        if space_c(c) {
        } else if c == '"' {
            self.state = State::AttributeValue(AttrValueKind::DoubleQuoted);
        } else if c == '\'' {
            self.state = State::AttributeValue(AttrValueKind::SingleQuoted);
        } else if c == '>' {
            let ex = self.exact_errors;
            emit_error_to(&mut self.sink, ex, "missing attribute value");
            self.state = State::Data;
            self.emit_current_tag();
        } else {
            self.state = State::AttributeValue(AttrValueKind::Unquoted);
            self.handle_attribute_value(AttrValueKind::Unquoted, c);
        }
    }

    fn handle_attribute_value(&mut self, kind: AttrValueKind, c: char)
        requires
            old(self).wf(),
        ensures
            Self::h_ok(*final(self), *old(self)),
    {
        match kind {
            AttrValueKind::DoubleQuoted => {
                if c == '"' {
                    self.state = State::AfterAttributeValueQuoted;
                } else if c == '&' {
                    self.consume_char_ref(Some('"'));
                } else if c == '\0' {
                    let ex = self.exact_errors;
                    emit_error_to(&mut self.sink, ex, "unexpected null character");
                    push_char(&mut self.current_attr_value, '\u{fffd}');
                } else {
                    push_char(&mut self.current_attr_value, c);
                }
            },
            AttrValueKind::SingleQuoted => {
                if c == '\'' {
                    self.state = State::AfterAttributeValueQuoted;
                } else if c == '&' {
                    self.consume_char_ref(Some('\''));
                } else if c == '\0' {
                    let ex = self.exact_errors;
                    emit_error_to(&mut self.sink, ex, "unexpected null character");
                    push_char(&mut self.current_attr_value, '\u{fffd}');
                } else {
                    push_char(&mut self.current_attr_value, c);
                }
            },
            AttrValueKind::Unquoted => {
                if space_c(c) {
                    self.state = State::BeforeAttributeName;
                } else if c == '&' {
                    self.consume_char_ref(Some('>'));
                } else if c == '>' {
                    self.state = State::Data;
                    self.emit_current_tag();
                } else if c == '\0' {
                    let ex = self.exact_errors;
                    emit_error_to(&mut self.sink, ex, "unexpected null character");
                    push_char(&mut self.current_attr_value, '\u{fffd}');
                } else {
                    if c == '"' || c == '\'' || c == '<' || c == '=' || c == '`' {
                        let ex = self.exact_errors;
                        emit_error_to(
                            &mut self.sink,
                            ex,
                            "unexpected character in unquoted attribute value",
                        );
                    }
                    push_char(&mut self.current_attr_value, c);
                }
            },
        }
    }

    fn handle_after_attribute_value_quoted(&mut self, c: char)
        requires
            old(self).wf(),
        ensures
            Self::h_ok(*final(self), *old(self)),
    {
        if space_c(c) {
            self.state = State::BeforeAttributeName;
        } else if c == '/' {
            self.state = State::SelfClosingStartTag;
        } else if c == '>' {
            self.state = State::Data;
            self.emit_current_tag();
        } else {
            let ex = self.exact_errors;
            emit_error_to(&mut self.sink, ex, "missing whitespace between attributes");
            self.state = State::BeforeAttributeName;
            self.handle_before_attribute_name(c);
        }
    }

    fn handle_comment_start(&mut self, c: char)
        requires
            old(self).wf(),
        ensures
            Self::h_ok(*final(self), *old(self)),
    {
        if c == '-' {
            self.state = State::CommentStartDash;
        } else if c == '>' {
            let ex = self.exact_errors;
            emit_error_to(&mut self.sink, ex, "abrupt closing of empty comment");
            self.state = State::Data;
            self.emit_current_comment();
        } else {
            self.state = State::Comment;
            self.handle_comment(c);
        }
    }

    #[verifier::rlimit(50)]
    fn handle_comment_start_dash(&mut self, c: char)
        requires
            old(self).wf(),
        ensures
            Self::h_ok(*final(self), *old(self)),
    {
        if c == '-' {
            self.state = State::CommentEnd;
        } else if c == '>' {
            let ex = self.exact_errors;
            emit_error_to(&mut self.sink, ex, "abrupt closing of empty comment");
            self.state = State::Data;
            self.emit_current_comment();
        } else {
            push_char(&mut self.current_comment, '-');
            self.state = State::Comment;
            self.handle_comment(c);
        }
    }

    fn handle_comment(&mut self, c: char)
        requires
            old(self).wf(),
        ensures
            Self::h_ok(*final(self), *old(self)),
    {
        if c == '-' {
            self.state = State::CommentEndDash;
        } else if c == '\0' {
            let ex = self.exact_errors;
            emit_error_to(&mut self.sink, ex, "unexpected null character");
            push_char(&mut self.current_comment, '\u{fffd}');
        } else {
            push_char(&mut self.current_comment, c);
        }
    }

    fn handle_comment_end_dash(&mut self, c: char)
        requires
            old(self).wf(),
        ensures
            Self::h_ok(*final(self), *old(self)),
    {
        if c == '-' {
            self.state = State::CommentEnd;
        } else {
            push_char(&mut self.current_comment, '-');
            self.state = State::Comment;
            self.handle_comment(c);
        }
    }

    fn handle_comment_end(&mut self, c: char)
        requires
            old(self).wf(),
        ensures
            Self::h_ok(*final(self), *old(self)),
    {
        if c == '>' {
            self.state = State::Data;
            self.emit_current_comment();
        } else if c == '!' {
            self.state = State::CommentEndBang;
        } else if c == '-' {
            push_char(&mut self.current_comment, '-');
        } else {
            push_char(&mut self.current_comment, '-');
            push_char(&mut self.current_comment, '-');
            self.state = State::Comment;
            self.handle_comment(c);
        }
    }

    #[verifier::rlimit(50)]
    fn handle_comment_end_bang(&mut self, c: char)
        requires
            old(self).wf(),
        ensures
            Self::h_ok(*final(self), *old(self)),
    {
        if c == '-' {
            push_char(&mut self.current_comment, '-');
            push_char(&mut self.current_comment, '-');
            push_char(&mut self.current_comment, '!');
            self.state = State::CommentEndDash;
        } else if c == '>' {
            let ex = self.exact_errors;
            emit_error_to(&mut self.sink, ex, "incorrectly closed comment");
            self.state = State::Data;
            self.emit_current_comment();
        } else {
            push_char(&mut self.current_comment, '-');
            push_char(&mut self.current_comment, '-');
            push_char(&mut self.current_comment, '!');
            self.state = State::Comment;
            self.handle_comment(c);
        }
    }

    fn handle_doctype(&mut self, c: char)
        requires
            old(self).wf(),
        ensures
            Self::h_ok(*final(self), *old(self)),
    {
        if space_c(c) {
            self.state = State::BeforeDoctypeName;
        } else {
            if c != '>' {
                let ex = self.exact_errors;
                emit_error_to(&mut self.sink, ex, "missing whitespace before doctype name");
            }
            self.state = State::BeforeDoctypeName;
            self.handle_before_doctype_name(c);
        }
    }

    #[verifier::rlimit(50)]
    fn handle_before_doctype_name(&mut self, c: char)
        requires
            old(self).wf(),
        ensures
            Self::h_ok(*final(self), *old(self)),
    {
        if space_c(c) {
        } else if c == '\0' {
            let ex = self.exact_errors;
            emit_error_to(&mut self.sink, ex, "unexpected null character");
            self.create_doctype();
            self.doctype_has_name = true;
            push_char(&mut self.doctype_name, '\u{fffd}');
            self.state = State::DoctypeName;
        } else if c == '>' {
            let ex = self.exact_errors;
            emit_error_to(&mut self.sink, ex, "missing doctype name");
            self.create_doctype();
            self.doctype_force_quirks = true;
            self.state = State::Data;
            self.emit_current_doctype();
        } else {
            self.create_doctype();
            self.doctype_has_name = true;
            push_char(&mut self.doctype_name, lower_char(c));
            self.state = State::DoctypeName;
        }
    }

    fn handle_doctype_name(&mut self, c: char)
        requires
            old(self).wf(),
        ensures
            Self::h_ok(*final(self), *old(self)),
    {
        if space_c(c) {
            self.state = State::AfterDoctypeName;
        } else if c == '>' {
            self.state = State::Data;
            self.emit_current_doctype();
        } else if c == '\0' {
            let ex = self.exact_errors;
            emit_error_to(&mut self.sink, ex, "unexpected null character");
            push_char(&mut self.doctype_name, '\u{fffd}');
        } else {
            push_char(&mut self.doctype_name, lower_char(c));
        }
    }

    fn handle_after_doctype_name_char(&mut self, c: char)
        requires
            old(self).wf(),
        ensures
            Self::h_ok(*final(self), *old(self)),
    {
        if space_c(c) {
        } else if c == '>' {
            self.state = State::Data;
            self.emit_current_doctype();
        } else {
            let ex = self.exact_errors;
            emit_error_to(&mut self.sink, ex, "invalid character sequence after doctype name");
            self.doctype_force_quirks = true;
            self.state = State::BogusDoctype;
            self.handle_bogus_doctype(c);
        }
    }

    #[verifier::rlimit(50)]
    fn handle_after_doctype_keyword(&mut self, k: DoctypeIdKind, c: char)
        requires
            old(self).wf(),
        ensures
            Self::h_ok(*final(self), *old(self)),
    {
        if space_c(c) {
            self.state = State::BeforeDoctypeIdentifier(k);
        } else if c == '"' {
            let ex = self.exact_errors;
            emit_error_to(&mut self.sink, ex, "missing whitespace after doctype keyword");
            self.clear_doctype_id(k);
            self.state = State::DoctypeIdentifierDoubleQuoted(k);
        } else if c == '\'' {
            let ex = self.exact_errors;
            emit_error_to(&mut self.sink, ex, "missing whitespace after doctype keyword");
            self.clear_doctype_id(k);
            self.state = State::DoctypeIdentifierSingleQuoted(k);
        } else if c == '>' {
            let ex = self.exact_errors;
            emit_error_to(&mut self.sink, ex, "missing doctype identifier");
            self.doctype_force_quirks = true;
            self.state = State::Data;
            self.emit_current_doctype();
        } else {
            let ex = self.exact_errors;
            emit_error_to(&mut self.sink, ex, "missing quote before doctype identifier");
            self.doctype_force_quirks = true;
            self.state = State::BogusDoctype;
            self.handle_bogus_doctype(c);
        }
    }

    #[verifier::rlimit(50)]
    fn handle_before_doctype_identifier(&mut self, k: DoctypeIdKind, c: char)
        requires
            old(self).wf(),
        ensures
            Self::h_ok(*final(self), *old(self)),
    {
        if space_c(c) {
        } else if c == '"' {
            self.clear_doctype_id(k);
            self.state = State::DoctypeIdentifierDoubleQuoted(k);
        } else if c == '\'' {
            self.clear_doctype_id(k);
            self.state = State::DoctypeIdentifierSingleQuoted(k);
        } else if c == '>' {
            let ex = self.exact_errors;
            emit_error_to(&mut self.sink, ex, "missing doctype identifier");
            self.doctype_force_quirks = true;
            self.state = State::Data;
            self.emit_current_doctype();
        } else {
            let ex = self.exact_errors;
            emit_error_to(&mut self.sink, ex, "missing quote before doctype identifier");
            self.doctype_force_quirks = true;
            self.state = State::BogusDoctype;
            self.handle_bogus_doctype(c);
        }
    }

    fn handle_doctype_identifier(&mut self, k: DoctypeIdKind, quote: char, c: char)
        requires
            old(self).wf(),
        ensures
            Self::h_ok(*final(self), *old(self)),
    {
        if c == quote {
            self.state = State::AfterDoctypeIdentifier(k);
        } else if c == '\0' {
            let ex = self.exact_errors;
            emit_error_to(&mut self.sink, ex, "unexpected null character");
            self.append_doctype_id(k, '\u{fffd}');
        } else if c == '>' {
            let ex = self.exact_errors;
            emit_error_to(&mut self.sink, ex, "abrupt end of doctype identifier");
            self.doctype_force_quirks = true;
            self.state = State::Data;
            self.emit_current_doctype();
        } else {
            self.append_doctype_id(k, c);
        }
    }

    #[verifier::rlimit(50)]
    fn handle_after_doctype_identifier(&mut self, k: DoctypeIdKind, c: char)
        requires
            old(self).wf(),
        ensures
            Self::h_ok(*final(self), *old(self)),
    {
        match k {
            DoctypeIdKind::Public => {
                if space_c(c) {
                    self.state = State::BetweenDoctypePublicAndSystemIdentifiers;
                } else if c == '>' {
                    self.state = State::Data;
                    self.emit_current_doctype();
                } else if c == '"' {
                    let ex = self.exact_errors;
                    emit_error_to(&mut self.sink, ex, "missing whitespace between identifiers");
                    self.clear_doctype_id(DoctypeIdKind::System);
                    self.state = State::DoctypeIdentifierDoubleQuoted(DoctypeIdKind::System);
                } else if c == '\'' {
                    let ex = self.exact_errors;
                    emit_error_to(&mut self.sink, ex, "missing whitespace between identifiers");
                    self.clear_doctype_id(DoctypeIdKind::System);
                    self.state = State::DoctypeIdentifierSingleQuoted(DoctypeIdKind::System);
                } else {
                    let ex = self.exact_errors;
                    emit_error_to(&mut self.sink, ex, "missing quote before doctype identifier");
                    self.doctype_force_quirks = true;
                    self.state = State::BogusDoctype;
                    self.handle_bogus_doctype(c);
                }
            },
            DoctypeIdKind::System => {
                if space_c(c) {
                } else if c == '>' {
                    self.state = State::Data;
                    self.emit_current_doctype();
                } else {
                    let ex = self.exact_errors;
                    emit_error_to(
                        &mut self.sink,
                        ex,
                        "unexpected character after doctype system identifier",
                    );
                    self.state = State::BogusDoctype;
                    self.handle_bogus_doctype(c);
                }
            },
        }
    }

    fn handle_between_doctype_ids(&mut self, c: char)
        requires
            old(self).wf(),
        ensures
            Self::h_ok(*final(self), *old(self)),
    {
        if space_c(c) {
        } else if c == '>' {
            self.state = State::Data;
            self.emit_current_doctype();
        } else if c == '"' {
            self.clear_doctype_id(DoctypeIdKind::System);
            self.state = State::DoctypeIdentifierDoubleQuoted(DoctypeIdKind::System);
        } else if c == '\'' {
            self.clear_doctype_id(DoctypeIdKind::System);
            self.state = State::DoctypeIdentifierSingleQuoted(DoctypeIdKind::System);
        } else {
            let ex = self.exact_errors;
            emit_error_to(&mut self.sink, ex, "missing quote before doctype identifier");
            self.doctype_force_quirks = true;
            self.state = State::BogusDoctype;
            self.handle_bogus_doctype(c);
        }
    }

    fn handle_bogus_doctype(&mut self, c: char)
        requires
            old(self).wf(),
        ensures
            Self::h_ok(*final(self), *old(self)),
    {
        if c == '>' {
            self.state = State::Data;
            self.emit_current_doctype();
        } else if c == '\0' {
            let ex = self.exact_errors;
            emit_error_to(&mut self.sink, ex, "unexpected null character");
        }
    }

    fn handle_bogus_comment(&mut self, c: char)
        requires
            old(self).wf(),
        ensures
            Self::h_ok(*final(self), *old(self)),
    {
        if c == '>' {
            self.state = State::Data;
            self.emit_current_comment();
        } else if c == '\0' {
            let ex = self.exact_errors;
            emit_error_to(&mut self.sink, ex, "unexpected null character");
            push_char(&mut self.current_comment, '\u{fffd}');
        } else {
            push_char(&mut self.current_comment, c);
        }
    }

    fn handle_cdata_section(&mut self, c: char)
        requires
            old(self).wf(),
        ensures
            Self::h_ok(*final(self), *old(self)),
    {
        if c == ']' {
            self.state = State::CdataSectionBracket;
        } else {
            emit_char_to(&mut self.sink, c);
        }
    }

    fn handle_cdata_section_bracket(&mut self, c: char)
        requires
            old(self).wf(),
        ensures
            Self::h_ok(*final(self), *old(self)),
    {
        if c == ']' {
            self.state = State::CdataSectionEnd;
        } else {
            emit_char_to(&mut self.sink, ']');
            self.state = State::CdataSection;
            self.handle_cdata_section(c);
        }
    }

    fn handle_cdata_section_end(&mut self, c: char)
        requires
            old(self).wf(),
        ensures
            Self::h_ok(*final(self), *old(self)),
    {
        if c == ']' {
            emit_char_to(&mut self.sink, ']');
        } else if c == '>' {
            self.state = State::Data;
        } else {
            emit_char_to(&mut self.sink, ']');
            emit_char_to(&mut self.sink, ']');
            self.state = State::CdataSection;
            self.handle_cdata_section(c);
        }
    }
}

/// Whether `c` is one of the whitespace characters the tag and doctype
/// states treat specially.
fn space_c(c: char) -> bool {
    c == '\t' || c == '\n' || c == '\u{c}' || c == ' '
}

/// Whether `c` is an ASCII letter.
fn alpha_c(c: char) -> bool {
    let u = c as u32;
    (97 <= u && u <= 122) || (65 <= u && u <= 90)
}

/// Whether `c` is an ASCII letter or digit.
fn alnum_c(c: char) -> bool {
    let u = c as u32;
    (97 <= u && u <= 122) || (65 <= u && u <= 90) || (48 <= u && u <= 57)
}

/// ASCII-lowercase one character.
fn lower_char(c: char) -> (r: char)
    ensures
        r as int == crate::buffer_queue::fold_code(c as int),
{
    let u = c as u32;
    if 65 <= u && u <= 90 {
        match char_from_u32(u + 32) {
            Some(x) => x,
            None => {
                proof {
                    assert(false);
                }
                c
            },
        }
    } else {
        c
    }
}

/// Rank of a state under end-of-file dispatch: how many `eof_step`
/// calls it is away from emitting the end-of-file token.
pub open spec fn state_eof_rank(s: State) -> int {
    match s {
        State::Data => 1,
        State::Plaintext => 1,
        State::RawData(_) => 1,
        State::MarkupDeclarationOpen => 3,
        State::CdataSectionBracket => 3,
        State::CdataSectionEnd => 3,
        _ => 2,
    }
}

/// A non-empty proper prefix of `pat`, matched character for character:
/// the machine cannot yet decide whether the keyword is present.
pub open spec fn is_partial_keyword(q: Seq<char>, pat: Seq<char>, ci: bool) -> bool {
    0 < q.len() < pat.len() && forall|i: int|
        0 <= i < q.len() ==> char_matches(#[trigger] q[i], pat[i], ci)
}

/// The characters a bulk-scanning state treats specially rather than as
/// plain text: the carriage return and NUL everywhere, plus the
/// state's own delimiters.  In every other state every character is
/// special (there is no bulk scan).
pub open spec fn scanned_specially(st: State, c: char) -> bool {
    match st {
        State::Data => c == '\r' || c == '\0' || c == '&' || c == '<',
        State::Plaintext => c == '\r' || c == '\0',
        State::RawData(RawKind::Rcdata) => c == '\r' || c == '\0' || c == '&' || c == '<',
        State::RawData(RawKind::Rawtext) => c == '\r' || c == '\0' || c == '<',
        State::RawData(RawKind::ScriptData) => c == '\r' || c == '\0' || c == '<',
        State::RawData(RawKind::ScriptDataEscaped(_)) => c == '\r' || c == '\0' || c == '-' || c
            == '<',
        _ => true,
    }
}

/// Where one pass over the character-reference sub-machine ended.
#[derive(PartialEq, Eq, Structural, Clone, Copy)]
enum RefOutcome {
    /// More input is needed to decide.
    Stuck,
    /// Not a reference: the ampersand stands for itself.
    EmitAmp,
    /// `&#` with no digits after it.
    NoDigits,
    /// A numeric reference ended; the flag records a missing semicolon.
    NumericDone(bool),
    /// A named candidate ended; resolve it against the table.
    NamedDone,
}

impl<Sink: TokenSink> Tokenizer<Sink> {
    /// Begin consuming a character reference; the ampersand itself has
    /// already been consumed.
    fn consume_char_ref(&mut self, addnl_allowed: Option<char>)
        requires
            old(self).wf(),
        ensures
            final(self).wf(),
            final(self).sunk() == old(self).sunk(),
            final(self).input == old(self).input,
            final(self).at_eof == old(self).at_eof,
            final(self).done == old(self).done,
            final(self).char_ref matches Some(cr) && cr.name_buf@.len() == 0,
    {
        let is_attribute = matches!(self.state, State::AttributeValue(_));
        self.char_ref = Some(CharRefTokenizer::new(addnl_allowed, is_attribute));
    }

    /// Append one decoded character to where the reference's text
    /// belongs: the attribute value under construction, or the output.
    fn ref_push_dest(&mut self, is_attr: bool, c: char)
        requires
            old(self).wf(),
        ensures
            final(self).wf(),
            extends(final(self).sunk(), old(self).sunk()),
            adds_no_eof(old(self).sunk(), final(self).sunk()),
            Self::keeps_io(*final(self), *old(self)),
    {
        if is_attr {
            push_char(&mut self.current_attr_value, c);
        } else {
            emit_char_to(&mut self.sink, c);
        }
    }

    /// Append a run of undecoded reference text to where it belongs.
    fn ref_push_dest_str(&mut self, is_attr: bool, s: String)
        requires
            old(self).wf(),
        ensures
            final(self).wf(),
            extends(final(self).sunk(), old(self).sunk()),
            adds_no_eof(old(self).sunk(), final(self).sunk()),
            Self::keeps_io(*final(self), *old(self)),
    {
        if is_attr {
            self.current_attr_value.append(s.as_str());
        } else {
            if s.as_str().unicode_len() > 0 {
                emit_string_to(&mut self.sink, s);
            }
        }
    }

    /// Drive the character-reference sub-machine as far as the buffered
    /// input allows: until it needs more input or the reference is
    /// resolved and its text delivered.
    fn step_char_ref(&mut self) -> (p: bool)
        requires
            old(self).wf(),
            old(self).char_ref is Some,
        ensures
            final(self).wf(),
            extends(final(self).sunk(), old(self).sunk()),
            final(self).at_eof == old(self).at_eof,
            final(self).done == old(self).done,
            final(self).state == old(self).state,
            adds_no_eof(old(self).sunk(), final(self).sunk()),
            p ==> Self::m_lt(*final(self), *old(self)),
            !p ==> Self::m_le(*final(self), *old(self)),
            !p ==> final(self).suspended(),
            old(self).input_len() == 0 && !old(self).at_eof ==> !p && *final(self) == *old(self),
            old(self).at_eof ==> final(self).char_ref is None,
    {
        if !self.at_eof && self.input.is_empty() {
            // nothing buffered and more may come: leave the reference
            // sub-machine exactly as it stands
            return false;
        }
        let mut cr = match take_opt(&mut self.char_ref) {
            Some(cr) => cr,
            None => {
                proof {
                    assert(false);
                }
                return false;
            },
        };
        let ghost pend0 = old(self).pending();
        let ghost len0 = old(self).input_len();
        let mut consumed = false;
        let mut out: RefOutcome = RefOutcome::Stuck;
        let mut deciding = true;
        while deciding
            invariant
                self.wf(),
                self.char_ref is None,
                self.sunk() == old(self).sunk(),
                self.at_eof == old(self).at_eof,
                self.done == old(self).done,
                self.state == old(self).state,
                self.ignore_lf == old(self).ignore_lf,
                self.input_len() + cr.name_buf@.len() <= pend0,
                self.input_len() <= len0,
                consumed ==> self.input_len() < len0,
                !consumed ==> self.input_len() == len0,
                !deciding && self.at_eof ==> out != RefOutcome::Stuck,
                !deciding && out == RefOutcome::Stuck ==> self.input_len() == 0,
            decreases
                    self.input_len(),
                    cr.rank(),
                    (if deciding {
                        1int
                    } else {
                        0int
                    }),
        {
            let nxt = self.input.peek();
            match cr.state {
                CharRefState::Begin => {
                    match nxt {
                        None => {
                            out = if self.at_eof {
                                RefOutcome::EmitAmp
                            } else {
                                RefOutcome::Stuck
                            };
                            deciding = false;
                        },
                        Some(c) => {
                            let aborts = match cr.addnl_allowed {
                                Some(a) => a == c,
                                None => false,
                            };
                            if space_c(c) || c == '<' || c == '&' || aborts {
                                out = RefOutcome::EmitAmp;
                                deciding = false;
                            } else if c == '#' {
                                let _ = self.input.next();
                                consumed = true;
                                push_char(&mut cr.name_buf, '#');
                                cr.state = CharRefState::Octothorpe;
                            } else {
                                cr.state = CharRefState::Named;
                            }
                        },
                    }
                },
                CharRefState::Octothorpe => {
                    match nxt {
                        None => {
                            out = if self.at_eof {
                                RefOutcome::NoDigits
                            } else {
                                RefOutcome::Stuck
                            };
                            deciding = false;
                        },
                        Some(c) => {
                            if c == 'x' || c == 'X' {
                                let _ = self.input.next();
                                consumed = true;
                                push_char(&mut cr.name_buf, c);
                                cr.state = CharRefState::Numeric(true);
                            } else {
                                cr.state = CharRefState::Numeric(false);
                            }
                        },
                    }
                },
                CharRefState::Numeric(hex) => {
                    match nxt {
                        None => {
                            if self.at_eof {
                                out = if cr.seen_digit {
                                    RefOutcome::NumericDone(true)
                                } else {
                                    RefOutcome::NoDigits
                                };
                            } else {
                                out = RefOutcome::Stuck;
                            }
                            deciding = false;
                        },
                        Some(c) => {
                            match digit_value(c, hex) {
                                Some(d) => {
                                    let _ = self.input.next();
                                    consumed = true;
                                    cr.seen_digit = true;
                                    if cr.num < 0x110000 {
                                        let base: u32 = if hex {
                                            16
                                        } else {
                                            10
                                        };
                                        cr.num = cr.num * base + d;
                                    } else {
                                        cr.num_too_big = true;
                                    }
                                },
                                None => {
                                    if !cr.seen_digit {
                                        out = RefOutcome::NoDigits;
                                    } else if c == ';' {
                                        let _ = self.input.next();
                                        consumed = true;
                                        out = RefOutcome::NumericDone(false);
                                    } else {
                                        out = RefOutcome::NumericDone(true);
                                    }
                                    deciding = false;
                                },
                            }
                        },
                    }
                },
                CharRefState::Named => {
                    match nxt {
                        None => {
                            out = if self.at_eof {
                                RefOutcome::NamedDone
                            } else {
                                RefOutcome::Stuck
                            };
                            deciding = false;
                        },
                        Some(c) => {
                            let mut cand = cr.name_buf.clone();
                            push_char(&mut cand, c);
                            if entity_viable(cand.as_str()) {
                                let _ = self.input.next();
                                consumed = true;
                                cr.name_buf = cand;
                                if c == ';' {
                                    out = RefOutcome::NamedDone;
                                    deciding = false;
                                }
                            } else {
                                out = RefOutcome::NamedDone;
                                deciding = false;
                            }
                        },
                    }
                },
            }
        }
        let is_attr = cr.is_attribute;
        match out {
            RefOutcome::Stuck => {
                self.char_ref = Some(cr);
                consumed
            },
            RefOutcome::EmitAmp => {
                self.ref_push_dest(is_attr, '&');
                true
            },
            RefOutcome::NoDigits => {
                let ex = self.exact_errors;
                emit_error_to(&mut self.sink, ex, "numeric character reference without digits");
                self.ref_push_dest(is_attr, '&');
                let text = take_string(&mut cr.name_buf);
                self.ref_push_dest_str(is_attr, text);
                true
            },
            RefOutcome::NumericDone(missing_semi) => {
                if missing_semi {
                    let ex = self.exact_errors;
                    emit_error_to(
                        &mut self.sink,
                        ex,
                        "numeric character reference without semicolon",
                    );
                }
                let mapped = map_numeric(cr.num, cr.num_too_big);
                if mapped.1 {
                    let ex = self.exact_errors;
                    emit_error_to(&mut self.sink, ex, "invalid numeric character reference");
                }
                let ch = match char_from_u32(mapped.0) {
                    Some(ch) => ch,
                    None => {
                        proof {
                            assert(false);
                        }
                        '\u{fffd}'
                    },
                };
                self.ref_push_dest(is_attr, ch);
                true
            },
            RefOutcome::NamedDone => {
                self.finish_named(cr);
                true
            },
        }
    }

    /// Resolve a finished named-reference candidate: longest table
    /// match wins; without a match, or when the legacy rules say the
    /// text is no reference, the text passes through unchanged.
    fn finish_named(&mut self, cr: CharRefTokenizer)
        requires
            old(self).wf(),
        ensures
            final(self).wf(),
            extends(final(self).sunk(), old(self).sunk()),
            final(self).at_eof == old(self).at_eof,
            final(self).done == old(self).done,
            final(self).state == old(self).state,
            final(self).char_ref == old(self).char_ref,
            final(self).ignore_lf == old(self).ignore_lf,
            adds_no_eof(old(self).sunk(), final(self).sunk()),
            final(self).input_len() <= old(self).input_len() + cr.name_buf@.len(),
            cr.name_buf@.len() == 0 ==> final(self).input == old(self).input,
            final(self).input_len() + 1 <= old(self).input_len() + cr.name_buf@.len() || final(self).input == old(self).input,
    {
        let mut cr = cr;
        let is_attr = cr.is_attribute;
        let n = cr.name_buf.as_str().unicode_len();
        let mut k = n;
        let mut c1: u32 = 0;
        let mut c2: u32 = 0;
        let mut found = false;
        let mut klen: usize = 0;
        while k > 0 && !found
            invariant
                k <= n,
                n == cr.name_buf@.len(),
                found ==> 1 <= klen <= n && c1 != 0 && (c1 < 0xD800 || (0xE000 <= c1 && c1
                    <= 0x10FFFF)) && (c2 == 0 || c2 < 0xD800),
            decreases
                    k,
                    (if found {
                        0int
                    } else {
                        1int
                    }),
        {
            let sub = cr.name_buf.as_str().substring_char(0, k);
            match entity_lookup(sub) {
                Some(pair) => {
                    c1 = pair.0;
                    c2 = pair.1;
                    found = true;
                    klen = k;
                },
                None => {
                    k = k - 1;
                },
            }
        }
        if !found {
            self.ref_push_dest(is_attr, '&');
            let text = take_string(&mut cr.name_buf);
            self.ref_push_dest_str(is_attr, text);
            return;
        }
        let semi = cr.name_buf.as_str().get_char(klen - 1) == ';';
        let next_after: Option<char> = if klen < n {
            Some(cr.name_buf.as_str().get_char(klen))
        } else {
            self.input.peek()
        };
        let not_a_ref = !semi && is_attr && (match next_after {
            Some(x) => x == '=' || alnum_c(x),
            None => false,
        });
        if not_a_ref {
            self.ref_push_dest(is_attr, '&');
            let text = take_string(&mut cr.name_buf);
            self.ref_push_dest_str(is_attr, text);
            return;
        }
        if !semi {
            let ex = self.exact_errors;
            emit_error_to(&mut self.sink, ex, "named character reference without semicolon");
        }
        let ch1 = match char_from_u32(c1) {
            Some(ch) => ch,
            None => {
                proof {
                    assert(false);
                }
                '\u{fffd}'
            },
        };
        self.ref_push_dest(is_attr, ch1);
        if c2 != 0 {
            let ch2 = match char_from_u32(c2) {
                Some(ch) => ch,
                None => {
                    proof {
                        assert(false);
                    }
                    '\u{fffd}'
                },
            };
            self.ref_push_dest(is_attr, ch2);
        }
        if klen < n {
            let rest = String::from_str(cr.name_buf.as_str().substring_char(klen, n));
            if self.at_eof {
                // nothing will come back for reprocessing: the excess
                // is plain text for the current destination
                self.ref_push_dest_str(is_attr, rest);
            } else {
                self.input.push_front(rest);
            }
        }
    }
}

impl<Sink: TokenSink> Tokenizer<Sink> {
    /// Open a fresh tag of the given kind whose name starts with `c`.
    fn create_tag(&mut self, kind: TagKind, c: char)
        requires
            old(self).wf(),
        ensures
            final(self).wf(),
            final(self).sunk() == old(self).sunk(),
            Self::keeps_io(*final(self), *old(self)),
    {
        self.current_tag_name = String::new();
        push_char(&mut self.current_tag_name, c);
        self.current_tag_attrs = Vec::new();
        self.current_tag_self_closing = false;
        self.current_attr_name = String::new();
        self.current_attr_value = String::new();
        self.current_tag_kind = kind;
    }

    /// Close the attribute under construction and open a new one whose
    /// name starts with `c`.
    fn create_attribute(&mut self, c: char)
        requires
            old(self).wf(),
        ensures
            final(self).wf(),
            extends(final(self).sunk(), old(self).sunk()),
            adds_no_eof(old(self).sunk(), final(self).sunk()),
            Self::keeps_io(*final(self), *old(self)),
    {
        self.finish_attribute();
        push_char(&mut self.current_attr_name, c);
    }

    /// Move the attribute under construction, if any, onto the current
    /// tag; one whose name repeats an earlier attribute's name is a
    /// parse error and is discarded.
    fn finish_attribute(&mut self)
        requires
            old(self).wf(),
        ensures
            final(self).wf(),
            extends(final(self).sunk(), old(self).sunk()),
            adds_no_eof(old(self).sunk(), final(self).sunk()),
            Self::keeps_io(*final(self), *old(self)),
    {
        if self.current_attr_name.as_str().unicode_len() == 0 {
            return;
        }
        let mut dup = false;
        let mut i: usize = 0;
        let n = self.current_tag_attrs.len();
        while i < n
            invariant
                self == old(self),
                i <= n,
                n == self.current_tag_attrs@.len(),
            decreases n - i,
        {
            if str_eq(self.current_tag_attrs[i].name.as_str(), self.current_attr_name.as_str()) {
                dup = true;
            }
            i = i + 1;
        }
        if dup {
            let ex = self.exact_errors;
            emit_error_to(&mut self.sink, ex, "duplicate attribute");
            self.current_attr_name = String::new();
            self.current_attr_value = String::new();
        } else {
            let name = take_string(&mut self.current_attr_name);
            let value = take_string(&mut self.current_attr_value);
            self.current_tag_attrs.push(Attribute { name, value });
        }
    }

    /// Whether the end tag under construction matches the start tag
    /// that opened the current raw-text mode.
    fn have_appropriate_end_tag(&self) -> bool {
        match &self.last_start_tag_name {
            Some(n) => str_eq(n.as_str(), self.current_tag_name.as_str()),
            None => false,
        }
    }

    /// Emit the finished tag and ask the sink whether it wants to
    /// redirect the machine (how tree construction enters raw-text
    /// modes).  A start tag's name becomes the new "last start tag".
    fn emit_current_tag(&mut self)
        requires
            old(self).wf(),
        ensures
            final(self).wf(),
            extends(final(self).sunk(), old(self).sunk()),
            adds_no_eof(old(self).sunk(), final(self).sunk()),
            final(self).input == old(self).input,
            final(self).char_ref == old(self).char_ref,
            final(self).at_eof == old(self).at_eof,
            final(self).done == old(self).done,
            final(self).ignore_lf == old(self).ignore_lf,
    {
        self.finish_attribute();
        let name = take_string(&mut self.current_tag_name);
        let attrs = take_vec(&mut self.current_tag_attrs);
        let kind = self.current_tag_kind;
        let self_closing = self.current_tag_self_closing;
        self.current_tag_self_closing = false;
        match kind {
            TagKind::StartTag => {
                self.last_start_tag_name = Some(name.clone());
            },
            TagKind::EndTag => {
                if attrs.len() > 0 {
                    let ex = self.exact_errors;
                    emit_error_to(&mut self.sink, ex, "attributes on an end tag");
                }
                if self_closing {
                    let ex = self.exact_errors;
                    emit_error_to(&mut self.sink, ex, "self-closing flag on an end tag");
                }
            },
        }
        self.sink.process_token(
            Token::TagToken(Tag { kind, name, self_closing, attrs }),
        );
        match self.sink.query_state_change() {
            Some(s) => {
                self.state = s;
            },
            None => {},
        }
    }

    /// Emit the finished comment.
    fn emit_current_comment(&mut self)
        requires
            old(self).wf(),
        ensures
            final(self).wf(),
            extends(final(self).sunk(), old(self).sunk()),
            adds_no_eof(old(self).sunk(), final(self).sunk()),
            Self::keeps_io(*final(self), *old(self)),
            appended(old(self).sunk(), final(self).sunk(), 1),
            final(self).sunk().last() matches Token::CommentToken(c) && c@ == old(self).current_comment@,
    {
        let text = take_string(&mut self.current_comment);
        self.sink.process_token(Token::CommentToken(text));
    }

    /// Reset the doctype accumulators.
    fn create_doctype(&mut self)
        requires
            old(self).wf(),
        ensures
            final(self).wf(),
            final(self).sunk() == old(self).sunk(),
            Self::keeps_io(*final(self), *old(self)),
    {
        self.doctype_name = String::new();
        self.doctype_has_name = false;
        self.doctype_public = String::new();
        self.doctype_has_public = false;
        self.doctype_system = String::new();
        self.doctype_has_system = false;
        self.doctype_force_quirks = false;
    }

    /// Mark the given doctype identifier present, with empty text.
    fn clear_doctype_id(&mut self, k: DoctypeIdKind)
        requires
            old(self).wf(),
        ensures
            final(self).wf(),
            final(self).sunk() == old(self).sunk(),
            Self::keeps_io(*final(self), *old(self)),
    {
        match k {
            DoctypeIdKind::Public => {
                self.doctype_public = String::new();
                self.doctype_has_public = true;
            },
            DoctypeIdKind::System => {
                self.doctype_system = String::new();
                self.doctype_has_system = true;
            },
        }
    }

    /// Append one character to the given doctype identifier.
    fn append_doctype_id(&mut self, k: DoctypeIdKind, c: char)
        requires
            old(self).wf(),
        ensures
            final(self).wf(),
            final(self).sunk() == old(self).sunk(),
            Self::keeps_io(*final(self), *old(self)),
    {
        match k {
            DoctypeIdKind::Public => {
                push_char(&mut self.doctype_public, c);
            },
            DoctypeIdKind::System => {
                push_char(&mut self.doctype_system, c);
            },
        }
    }

    /// Emit the finished doctype.
    fn emit_current_doctype(&mut self)
        requires
            old(self).wf(),
        ensures
            final(self).wf(),
            extends(final(self).sunk(), old(self).sunk()),
            adds_no_eof(old(self).sunk(), final(self).sunk()),
            Self::keeps_io(*final(self), *old(self)),
    {
        let name = take_string(&mut self.doctype_name);
        let public_id = take_string(&mut self.doctype_public);
        let system_id = take_string(&mut self.doctype_system);
        let d = Doctype {
            name: if self.doctype_has_name {
                Some(name)
            } else {
                None
            },
            public_id: if self.doctype_has_public {
                Some(public_id)
            } else {
                None
            },
            system_id: if self.doctype_has_system {
                Some(system_id)
            } else {
                None
            },
            force_quirks: self.doctype_force_quirks,
        };
        self.doctype_has_name = false;
        self.doctype_has_public = false;
        self.doctype_has_system = false;
        self.doctype_force_quirks = false;
        self.sink.process_token(Token::DoctypeToken(d));
    }

    /// Emit the saved raw-text end-tag characters as character data.
    fn emit_temp_chars(&mut self)
        requires
            old(self).wf(),
        ensures
            final(self).wf(),
            extends(final(self).sunk(), old(self).sunk()),
            adds_no_eof(old(self).sunk(), final(self).sunk()),
            Self::keeps_io(*final(self), *old(self)),
    {
        let t = take_string(&mut self.temp_buf);
        if t.as_str().unicode_len() > 0 {
            emit_string_to(&mut self.sink, t);
        }
    }

    /// Try to match `pat` against the upcoming input.  `None` means
    /// more input is needed; after the end of input a partial match can
    /// never complete, so it counts as a mismatch.
    fn eat_checked(&mut self, pat: &str, ignore_ascii_case: bool) -> (r: Option<bool>)
        requires
            old(self).wf(),
            pat@.len() >= 1,
        ensures
            final(self).wf(),
            final(self).sunk() == old(self).sunk(),
            final(self).at_eof == old(self).at_eof,
            final(self).done == old(self).done,
            final(self).state == old(self).state,
            final(self).char_ref == old(self).char_ref,
            final(self).ignore_lf == old(self).ignore_lf,
            final(self).pending() <= old(self).pending(),
            final(self).input_len() <= old(self).input_len(),
            r == Some(true) ==> final(self).input_len() < old(self).input_len(),
            r != Some(true) ==> *final(self) == *old(self),
            r is None ==> old(self).input.stream().len() == 0 || is_partial_keyword(
                old(self).input.stream(),
                pat@,
                ignore_ascii_case,
            ),
            r == Some(true) ==> pat@.len() <= old(self).input.stream().len() && (forall|i: int|
                0 <= i < pat@.len() ==> char_matches(
                    #[trigger] old(self).input.stream()[i],
                    pat@[i],
                    ignore_ascii_case,
                )),
            r == Some(false) && !old(self).at_eof ==> exists|i: int|
                0 <= i < pat@.len() && i < old(self).input.stream().len() && !char_matches(
                    #[trigger] old(self).input.stream()[i],
                    pat@[i],
                    ignore_ascii_case,
                ),
    {
        match self.input.eat(pat, ignore_ascii_case) {
            Ok(b) => Some(b),
            Err(_) => {
                if self.at_eof {
                    Some(false)
                } else {
                    None
                }
            },
        }
    }

    /// Skip the line feed a preceding carriage return says to ignore,
    /// if it is next.
    fn skip_pending_lf(&mut self)
        requires
            old(self).wf(),
            old(self).ignore_lf,
        ensures
            final(self).wf(),
            final(self).sunk() == old(self).sunk(),
            final(self).at_eof == old(self).at_eof,
            final(self).done == old(self).done,
            final(self).state == old(self).state,
            final(self).char_ref == old(self).char_ref,
            final(self).pending() <= old(self).pending(),
            final(self).input_len() <= old(self).input_len(),
            old(self).input_len() == 0 ==> *final(self) == *old(self),
            final(self).ignore_lf ==> *final(self) == *old(self) && old(self).input_len() == 0,
    {
        match self.input.peek() {
            None => {},
            Some(c) => {
                self.ignore_lf = false;
                if c == '\n' {
                    let _ = self.input.next();
                }
            },
        }
    }

    /// One dispatch in the markup-declaration-open state: decide among
    /// a comment, a doctype, and a bogus comment.
    fn step_markup_declaration_open(&mut self) -> (p: bool)
        requires
            old(self).wf(),
            old(self).state == State::MarkupDeclarationOpen,
            old(self).char_ref is None,
        ensures
            final(self).wf(),
            extends(final(self).sunk(), old(self).sunk()),
            final(self).at_eof == old(self).at_eof,
            final(self).done == old(self).done,
            adds_no_eof(old(self).sunk(), final(self).sunk()),
            p ==> Self::m_lt(*final(self), *old(self)),
            !p ==> Self::m_le(*final(self), *old(self)),
            !p ==> final(self).suspended(),
            !old(self).at_eof && (old(self).input.stream().len() == 0 || (!old(self).ignore_lf && (
            is_partial_keyword(old(self).input.stream(), "--"@, false) || is_partial_keyword(
                old(self).input.stream(),
                "doctype"@,
                true,
            )))) ==> !p && *final(self) == *old(self),
    {
        if self.ignore_lf {
            self.skip_pending_lf();
            if self.ignore_lf {
                return false;
            }
        }
        proof {
            reveal_strlit("--");
            reveal_strlit("doctype");
            let q = self.input.stream();
            if is_partial_keyword(q, "doctype"@, true) {
                // a candidate for `doctype` cannot also open `--`
                assert(!char_matches(q[0], "--"@[0], false)) by {
                    assert(char_matches(q[0], "doctype"@[0], true));
                    if q[0] == '-' {
                        assert(crate::buffer_queue::fold_code('-' as int)
                            != crate::buffer_queue::fold_code('d' as int));
                    }
                }
            }
            if is_partial_keyword(q, "--"@, false) {
                assert(q.len() < "--"@.len());
            }
        }
        match self.eat_checked("--", false) {
            None => {
                return false;
            },
            Some(true) => {
                self.current_comment = String::new();
                self.state = State::CommentStart;
                return true;
            },
            Some(false) => {},
        }
        match self.eat_checked("doctype", true) {
            None => {
                return false;
            },
            Some(true) => {
                self.state = State::Doctype;
                return true;
            },
            Some(false) => {},
        }
        let ex = self.exact_errors;
        emit_error_to(&mut self.sink, ex, "bad character sequence after <!");
        self.current_comment = String::new();
        self.state = State::BogusComment;
        match Self::next_preprocessed(&mut self.input, &mut self.ignore_lf) {
            None => false,
            Some(c) => {
                self.handle_bogus_comment(c);
                true
            },
        }
    }

    /// One dispatch after a doctype name: look for the `public` or
    /// `system` keyword.
    fn step_after_doctype_name(&mut self) -> (p: bool)
        requires
            old(self).wf(),
            old(self).state == State::AfterDoctypeName,
            old(self).char_ref is None,
        ensures
            final(self).wf(),
            extends(final(self).sunk(), old(self).sunk()),
            final(self).at_eof == old(self).at_eof,
            final(self).done == old(self).done,
            adds_no_eof(old(self).sunk(), final(self).sunk()),
            p ==> Self::m_lt(*final(self), *old(self)),
            !p ==> Self::m_le(*final(self), *old(self)),
            !p ==> final(self).suspended(),
            !old(self).at_eof && (old(self).input.stream().len() == 0 || (!old(self).ignore_lf && (
            is_partial_keyword(old(self).input.stream(), "public"@, true) || is_partial_keyword(
                old(self).input.stream(),
                "system"@,
                true,
            )))) ==> !p && *final(self) == *old(self),
    {
        if self.ignore_lf {
            self.skip_pending_lf();
            if self.ignore_lf {
                return false;
            }
        }
        proof {
            reveal_strlit("public");
            reveal_strlit("system");
            let q = self.input.stream();
            if is_partial_keyword(q, "system"@, true) {
                // a candidate for `system` cannot also open `public`
                assert(!char_matches(q[0], "public"@[0], true)) by {
                    assert(char_matches(q[0], "system"@[0], true));
                    if crate::buffer_queue::fold_code(q[0] as int)
                        == crate::buffer_queue::fold_code('p' as int) {
                        assert(crate::buffer_queue::fold_code('s' as int)
                            != crate::buffer_queue::fold_code('p' as int));
                    }
                }
            }
            if is_partial_keyword(q, "public"@, true) {
                assert(q.len() < "public"@.len());
            }
        }
        match self.eat_checked("public", true) {
            None => {
                return false;
            },
            Some(true) => {
                self.state = State::AfterDoctypeKeyword(DoctypeIdKind::Public);
                return true;
            },
            Some(false) => {},
        }
        match self.eat_checked("system", true) {
            None => {
                return false;
            },
            Some(true) => {
                self.state = State::AfterDoctypeKeyword(DoctypeIdKind::System);
                return true;
            },
            Some(false) => {},
        }
        match Self::next_preprocessed(&mut self.input, &mut self.ignore_lf) {
            None => false,
            Some(c) => {
                self.handle_after_doctype_name_char(c);
                true
            },
        }
    }

    /// Apply the end-of-file rule of the current state: close the open
    /// construct a step at a time, and at rest emit the end-of-file
    /// token and stop.
    #[verifier::rlimit(50)]
    fn eof_step(&mut self)
        requires
            old(self).wf(),
            old(self).at_eof,
            !old(self).done,
        ensures
            final(self).wf(),
            final(self).at_eof,
            extends(final(self).sunk(), old(self).sunk()),
            final(self).eof_rank() < old(self).eof_rank(),
            final(self).done ==> final(self).sunk().len() > old(self).sunk().len() && final(self).sunk().last() == Token::EOFToken && adds_no_eof(
                old(self).sunk(),
                final(self).sunk().drop_last(),
            ),
            !final(self).done ==> adds_no_eof(old(self).sunk(), final(self).sunk()),
            old(self).char_ref is None && matches!(old(self).state, State::CommentStart
                | State::CommentStartDash | State::Comment | State::CommentEndDash
                | State::CommentEnd | State::CommentEndBang) ==> appended(
                old(self).sunk(),
                final(self).sunk(),
                2,
            ) && (final(self).sunk()[old(self).sunk().len() as int] matches Token::ParseError(_))
                && (final(self).sunk().last() matches Token::CommentToken(c) && c@ == old(self).pending_comment()) && !final(self).done && final(self).char_ref is None && final(self).state == State::Data,
            old(self).char_ref is None && matches!(old(self).state, State::Data | State::Plaintext
                | State::RawData(RawKind::Rcdata) | State::RawData(RawKind::Rawtext)
                | State::RawData(RawKind::ScriptData)) ==> final(self).sunk() == old(self).sunk().push(Token::EOFToken) && final(self).done,
    {
        if self.char_ref.is_some() {
            let _ = self.step_char_ref();
            return;
        }
        match self.state {
            State::Data | State::Plaintext | State::RawData(RawKind::Rcdata) | State::RawData(
                RawKind::Rawtext,
            ) | State::RawData(RawKind::ScriptData) => {
                self.sink.process_token(Token::EOFToken);
                self.done = true;
            },
            State::RawData(RawKind::ScriptDataEscaped(_)) => {
                let ex = self.exact_errors;
                emit_error_to(&mut self.sink, ex, "unexpected end of file in escaped script data");
                self.sink.process_token(Token::EOFToken);
                self.done = true;
            },
            State::TagOpen => {
                let ex = self.exact_errors;
                emit_error_to(&mut self.sink, ex, "unexpected end of file before tag name");
                emit_char_to(&mut self.sink, '<');
                self.state = State::Data;
            },
            State::EndTagOpen => {
                let ex = self.exact_errors;
                emit_error_to(&mut self.sink, ex, "unexpected end of file before tag name");
                emit_char_to(&mut self.sink, '<');
                emit_char_to(&mut self.sink, '/');
                self.state = State::Data;
            },
            State::TagName | State::SelfClosingStartTag | State::BeforeAttributeName
                | State::AttributeName | State::AfterAttributeName | State::BeforeAttributeValue
                | State::AttributeValue(_) | State::AfterAttributeValueQuoted => {
                let ex = self.exact_errors;
                emit_error_to(&mut self.sink, ex, "unexpected end of file in tag");
                self.state = State::Data;
            },
            State::RawLessThanSign(kind) => {
                emit_char_to(&mut self.sink, '<');
                self.state = State::RawData(kind);
            },
            State::RawEndTagOpen(kind) => {
                emit_char_to(&mut self.sink, '<');
                emit_char_to(&mut self.sink, '/');
                self.state = State::RawData(kind);
            },
            State::RawEndTagName(kind) => {
                emit_char_to(&mut self.sink, '<');
                emit_char_to(&mut self.sink, '/');
                self.emit_temp_chars();
                self.state = State::RawData(kind);
            },
            State::ScriptDataEscapeStart(ScriptEscapeKind::Escaped)
                | State::ScriptDataEscapeStartDash => {
                self.state = State::RawData(RawKind::ScriptData);
            },
            State::ScriptDataEscapeStart(ScriptEscapeKind::DoubleEscaped) => {
                self.state = State::RawData(
                    RawKind::ScriptDataEscaped(ScriptEscapeKind::Escaped),
                );
            },
            State::ScriptDataEscapeDash(esc) | State::ScriptDataEscapeDashDash(esc) => {
                self.state = State::RawData(RawKind::ScriptDataEscaped(esc));
            },
            State::ScriptDataDoubleEscapeEnd => {
                self.state = State::RawData(
                    RawKind::ScriptDataEscaped(ScriptEscapeKind::DoubleEscaped),
                );
            },
            State::CommentStart | State::CommentStartDash | State::Comment
                | State::CommentEndDash | State::CommentEnd | State::CommentEndBang => {
                let ex = self.exact_errors;
                emit_error_to(&mut self.sink, ex, "unexpected end of file in comment");
                self.emit_current_comment();
                self.state = State::Data;
            },
            State::MarkupDeclarationOpen => {
                let ex = self.exact_errors;
                emit_error_to(&mut self.sink, ex, "bad character sequence after <!");
                self.current_comment = String::new();
                self.state = State::BogusComment;
            },
            State::BogusComment => {
                self.emit_current_comment();
                self.state = State::Data;
            },
            State::Doctype | State::BeforeDoctypeName => {
                let ex = self.exact_errors;
                emit_error_to(&mut self.sink, ex, "unexpected end of file in doctype");
                self.create_doctype();
                self.doctype_force_quirks = true;
                self.emit_current_doctype();
                self.state = State::Data;
            },
            State::DoctypeName | State::AfterDoctypeName | State::AfterDoctypeKeyword(_)
                | State::BeforeDoctypeIdentifier(_) | State::DoctypeIdentifierDoubleQuoted(_)
                | State::DoctypeIdentifierSingleQuoted(_) | State::AfterDoctypeIdentifier(_)
                | State::BetweenDoctypePublicAndSystemIdentifiers => {
                let ex = self.exact_errors;
                emit_error_to(&mut self.sink, ex, "unexpected end of file in doctype");
                self.doctype_force_quirks = true;
                self.emit_current_doctype();
                self.state = State::Data;
            },
            State::BogusDoctype => {
                self.emit_current_doctype();
                self.state = State::Data;
            },
            State::CdataSection => {
                let ex = self.exact_errors;
                emit_error_to(&mut self.sink, ex, "unexpected end of file in CDATA section");
                self.state = State::Data;
            },
            State::CdataSectionBracket => {
                emit_char_to(&mut self.sink, ']');
                self.state = State::CdataSection;
            },
            State::CdataSectionEnd => {
                emit_char_to(&mut self.sink, ']');
                emit_char_to(&mut self.sink, ']');
                self.state = State::CdataSection;
            },
        }
    }
}

} // verus!
