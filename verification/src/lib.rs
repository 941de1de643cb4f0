//! The HTML back end of a Markdown compiler.
//!
//! The library consumes the flat stream of `Enter`/`Exit` events and the
//! code-point array an upstream tokenizer produces, and emits a single
//! CommonMark HTML string. Reference definitions are collected in a first
//! pass so that references resolve wherever they stand; a second pass
//! dispatches every remaining event to a handler that writes into a stack
//! of output buffers.
pub mod charref;
pub mod compiler;
pub mod encode;
pub mod event;
pub mod ident;
pub mod sanitize;
pub mod skip;
pub mod span;
pub mod strutil;
