//! Lexical and positional engine for a markup-template compiler.
//!
//! The engine turns raw template source text into a cursor-driven stream of
//! lookahead and consumption primitives, tracks precise source positions
//! (zero-based line and UTF-16 column, for editor and source-map
//! compatibility), and accumulates a multi-severity diagnostics stream while
//! scanning continues past recoverable errors. Position state is
//! transactional under backtracking; diagnostic state deliberately is not.

pub mod error;
pub mod position;
pub mod state;

pub use error::ParseError;
pub use error::ParseErrorKind;
pub use error::ParseErrorLevel;
pub use position::Position;
pub use position::TemplateStructure;
pub use state::ParseState;
pub use state::parse;
