//! Text, CSV and JSON file access, relative to the directory of the running program.

pub mod csv;
pub mod error;
pub mod file_action;
pub mod json;
pub mod laws;
pub mod path;
pub mod request;
pub mod text;

pub use crate::error::FileError;
pub use crate::file_action::FileAction;
pub use crate::json::JsonForm;
pub use crate::request::{WriteMode, WriteRequest};
