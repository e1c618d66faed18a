//! Verified core of an RSX-style HTML templating toolkit.
//!
//! The library holds the compile-time logic that turns parsed markup into a
//! plan of write statements, the attribute-macro planners for components, and
//! the request and response helpers used by the web adapters.
pub mod text;
pub mod modes;
pub mod markup;
pub mod plan;
pub mod props;
pub mod emit;
pub mod walk;
pub mod render;
pub mod bindings;
pub mod compile;
pub mod entry;
pub mod attrs;
pub mod web;
pub mod respond;
pub mod front;
pub mod laws;

pub use modes::{CompileMode, MacroMode};
pub use text::{escape_html_literal, to_pascal_case};
