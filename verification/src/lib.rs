//! An incremental HTML tokenizer.
//!
//! Input arrives as text chunks of arbitrary size; a [`BufferQueue`]
//! presents them as one character stream, and a [`Tokenizer`] consumes
//! that stream according to the HTML tokenization algorithm, delivering
//! the completed tokens to a [`TokenSink`].  The token stream a given
//! text produces does not depend on how the text was split into chunks.

pub mod smallcharset;
pub mod strutil;
pub mod buffer_queue;
pub mod tokens;
pub mod xtokens;
pub mod states;
pub(crate) mod char_ref;
pub mod tokenizer;
pub mod interface;

pub use buffer_queue::{BufferQueue, SetResult};
pub use smallcharset::SmallCharSet;
pub use tokens::{Attribute, Doctype, Tag, TagKind, Token};
pub use xtokens::{XPi, XTag, XTagKind, XToken, XTokenLog, XTokenSink, XmlState};
pub use interface::{TextModeSink, TokenLogger, TokenSink};
pub use states::State;
pub use tokenizer::{Tokenizer, TokenizerOpts};
