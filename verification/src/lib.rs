//! Verified argument, registry and effects-file logic for Auralis audio effects.
//!
//! - `registry`: the implemented effects, name and alias resolution, and
//!   ranked suggestions for unknown names.
//! - `chain`: splitting a flat token stream into commands and `:` segments;
//!   `chain_laws` relates parsing and rendering.
//! - `effects_file`: tokenizing effects files (quotes, escapes, comments)
//!   and parsing them as the same token stream.
//! - `command` and the `command_*` modules: the argument grammar of each
//!   effect command; `commands` holds the small ones and the dispatch by
//!   effect kind. Renderers write the canonical tokens of parsed arguments
//!   (values as plain decimal text where the command normalizes them). For
//!   several commands a round-trip law states that the tokens parse back;
//!   `splice_laws` holds the one for `splice`.
//! - `effects`: effect configuration types whose settings are integers,
//!   flags or enumerations.
//! - `decimal`: the exact decimal value of a number literal, the range
//!   checks the command parsers make on it, and its plain decimal text.
//! - `numbers`, `text`, `error`: integer and number syntax, character
//!   sequences, and the effect error type.
pub mod text;
pub mod registry;
pub mod error;
pub mod numbers;
pub mod decimal;
pub mod command;
pub mod effects_file;
pub mod commands;
pub mod chain;
pub mod effects;
pub mod command_trim;
pub mod command_synth;
pub mod command_vad;
pub mod command_vol;
pub mod command_tempo;
pub mod command_saturation;
pub mod command_stat;
pub mod command_splice;
pub mod command_silence;
pub mod command_treble;
pub mod command_sinc;
pub mod chain_laws;
pub mod splice_laws;
