//! The nine sections of a prompt, one type each.

pub mod auxiliary_content;
pub mod context;
pub mod few_shot;
pub mod guidance;
pub mod limitations;
pub mod main_content;
pub mod output_format;
pub mod refactoring;
pub mod section;
