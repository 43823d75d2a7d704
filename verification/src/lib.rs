//! The rendering core of a terminal dashboard: an incremental VT100
//! interpreter that keeps a bounded grid of styled glyphs per pane and draws
//! the rows that changed.
//!
//! A [`pane::Pane`] takes the output of one task. Its
//! [`stream_state::StreamState`] cuts the characters into plain text and
//! control sequences, its [`view_port::ViewPort`] holds the rows, the cursor
//! and the style in force, and [`pane::Pane::write`] draws what is dirty.
//! Every type has a model in terms of sequences, and every function says
//! over the models what it does; the modules whose names end in `_proofs`
//! hold what follows for all inputs.

pub mod text;
pub mod style;
pub mod cursor;
pub mod glyph_string;
pub mod vt100;
pub mod stream_state;
pub mod view_port;
pub mod pane;
pub mod pane_manager;
pub mod vt100_string;
pub mod vt100_translator;
pub mod task;
pub mod control;
pub mod parser_proofs;
pub mod style_proofs;
pub mod pane_proofs;
pub mod restyle_proofs;
