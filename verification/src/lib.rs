//! A small string-templating language.
//!
//! Template source text is compiled into a sequence of expressions
//! (literal runs, attribute references, dotted attribute paths, and
//! cross-template includes), then rendered against named attribute
//! values. Templates can be organized into named groups so one
//! template may include another by name. Parse failures carry a
//! source span and are formatted into a human-readable diagnostic.

mod attributes;
mod context;
mod diag;
mod error;
mod interpreter;
pub mod parse;
pub mod simple;
mod span;
mod strutil;
mod template;
mod value;

pub use crate::attributes::Attributes;
pub use crate::context::Context;
pub use crate::error::Error;
pub use crate::interpreter::Interpreter;
pub use crate::parse::body::ParseEvent;
pub use crate::parse::body::Rule;
pub use crate::parse::body::TemplateParser;
pub use crate::parse::group::Group as StaticGroup;
pub use crate::parse::group::GroupBody;
pub use crate::parse::group::Visibility;
pub use crate::span::Span;
pub use crate::template::CompiledTemplate;
pub use crate::template::Expr;
pub use crate::template::Group;
pub use crate::template::Template;
pub use crate::value::Value;
