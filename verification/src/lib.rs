//! A whitespace- and comment-preserving document format for hierarchical
//! configuration data.
//!
//! Documents are parsed into a syntax tree that keeps every byte of
//! formatting as *fill* attached to its nodes, so that writing a parsed
//! document gives back the bytes it was parsed from. The tree converts to
//! and from JSON by the shapes of registered types.
//!
//! - [`fill`], [`span`], [`bytes`], [`scan`]: fill, the cursor into the
//!   input, and the scanners of tokens.
//! - [`value`], [`map`], [`macros`], [`constants`], [`document`]: the tree
//!   with its mathematical model, and the text that each node stands for.
//! - [`grammar`], [`parse`]: the format as functions on bytes, and the
//!   parser that reads what they say stands in the input.
//! - [`write`], [`copy`], [`recover`], [`strip`], [`compare`]: writing,
//!   copying, taking over the fill of another tree, and comparing trees
//!   whatever their fill.
//! - [`json`], [`registry`], [`to_json`], [`from_json`], [`typed`],
//!   [`builtin`], [`de`]: the bridge to typed values.
//! - [`soundness`], [`locations`], [`json_laws`], [`recover_laws`]: what
//!   holds of all of these together.
//! - [`style`], [`stylesheet`], [`loadable_sheet`], [`loaders`], [`editor`],
//!   [`cursor`], [`theme`], [`ui`]: style sheets, what was loaded from them
//!   and who waits for it, the files that an editor holds, and plain values
//!   around them.
//! - [`names`], [`json_number`]: strings and numbers of other crates, with
//!   what is taken on trust of them.
pub mod builtin;
pub mod bytes;
pub mod compare;
pub mod constants;
pub mod copy;
pub mod cursor;
pub mod de;
pub mod document;
pub mod editor;
pub mod fill;
pub mod from_json;
pub mod grammar;
pub mod json;
pub mod json_laws;
pub mod json_number;
pub mod loadable_sheet;
pub mod loaders;
pub mod locations;
pub mod macros;
pub mod map;
pub mod names;
pub mod parse;
pub mod recover;
pub mod recover_laws;
pub mod registry;
pub mod scan;
pub mod soundness;
pub mod span;
pub mod strip;
pub mod style;
pub mod stylesheet;
pub mod theme;
pub mod to_json;
pub mod typed;
pub mod ui;
pub mod value;
pub mod write;
