//! Lexical front-end for a small language of Turing-machine transition
//! tables: a lookahead buffer over a pull-based item source, a canonicalizing
//! label store with live-handle counting, and a tokenizer that turns a
//! character stream into a token stream.

pub mod label;
pub mod lookahead;
pub mod machine;
pub mod tokenizer;
pub mod scan;
pub mod token;
pub mod source;

pub use label::Label;
pub use label::LabelStorage;
pub use lookahead::LookAhead;
pub use machine::Direction;
pub use machine::Transition;
pub use source::Source;
pub use token::ErrorKind;
pub use token::LexError;
pub use token::Token;
pub use tokenizer::Tokenizer;
pub use source::VecSource;
