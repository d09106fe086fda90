//! Passing options around while rendering text, plus a writer that indents
//! implicitly on fresh lines.
//!
//! The two components are independent but compose into an indentation
//! pipeline: an [`IndentOptions`] value carries the indentation accumulated so
//! far down a recursive render, and an [`IndentingFormatter`] wraps a
//! downstream [`Sink`] so that every non-empty line written through it is
//! prefixed by a configured indentation string.

mod debug;
mod display;
mod indenting_formatter;
mod options;
mod pipeline;
mod sink;

pub use debug::DebugWithOptions;
pub use display::{format_with_options, DisplayWithOptions};
pub use indenting_formatter::{
    fresh_after, indent_char, indented, lemma_fresh_line_after_chunk, lemma_indented_concat,
    lemma_indented_line, newline_free, IndentingFormatter,
};
pub use options::{
    appending_spec, deeper_spec, lemma_deeper_twice_is_two_deeper, lemma_repeated_prepend,
    lemma_restart_idempotent, n_deeper_spec, repeated, restart_spec, with_next_spec, with_options,
    IndentOptions, IndentOptionsView, ObjectWithOptions,
};
pub use pipeline::{chain_lines, chain_rendered, lemma_linear_chain, single_line_chain};
pub use sink::{Sink, WriteError};
