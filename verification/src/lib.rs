//! A verified core for a terminal command assistant.
//!
//! The library compiles a snapshot of the user's shell environment into a
//! deterministic model prompt, decodes the model's structured JSON reply into
//! typed command suggestions, validates the user's selection, and substitutes
//! user-supplied values for `<key>` placeholders in command templates.
//!
//! The modules, leaf first: [`strutil`] holds character-sequence utilities,
//! [`json`] a JSON engine whose parser and encoder are pinned to
//! specification functions, [`models`] the data model, [`codec`] the wire
//! layouts over that engine, [`prompts`] the prompt compiler, [`resolve`]
//! the placeholder resolver and [`select`] the selection validator.

pub mod codec;
pub mod json;
pub mod models;
pub mod prompts;
pub mod resolve;
pub mod select;
pub mod strutil;
