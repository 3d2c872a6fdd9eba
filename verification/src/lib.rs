//! Assembles a structured prompt from nine optional text sections, renders it
//! in tagged, clean and preview form, and reads a rendered preview back.

pub mod laws;
pub mod models;
pub mod services;
pub mod text;
