//! Character-level text handling.
//!
//! A text is modelled as a `Seq<char>`. `model` defines what trimming,
//! splitting into lines, joining and searching mean on that model, `ops`
//! implements them on strings, and `lemmas` proves the facts about the model
//! that the rest of the crate builds on.

pub mod lemmas;
pub mod model;
pub mod ops;
