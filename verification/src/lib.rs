//! Front end for a small calendar-anchored accounting language.
//!
//! Source text is parsed (by an external grammar) into a generic tree of
//! labeled nodes; the elaborator turns that tree into a typed AST of dated
//! entries, template definitions and template instantiation requests, with
//! location-tagged diagnostics; the instantiation engine then resolves each
//! request against its template and emits concrete dated entries.

pub mod date;
pub mod entry;
pub mod error;
pub mod numfmt;
pub mod parse;
pub mod plot;
pub mod summary;
pub mod table;
pub mod template;
pub mod tree;
