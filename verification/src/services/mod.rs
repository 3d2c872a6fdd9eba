//! Rendering a prompt to text and reading a rendered prompt back.

pub mod file_service;
pub mod prompt_generator;
pub mod prompt_parser;
