//! In-memory model of a delimited tabular file: a grid of text cells with
//! fixed dimensions, bounds-checked cell edits, ragged window extraction,
//! and the validated-coordinate dialogs that gate every mutation.

pub mod csv_data;
pub mod custom_error;
pub mod input_handler;
pub mod menu;
