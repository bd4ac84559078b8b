//! Conversion of templated hardware-description sources into generator
//! programs.
//!
//! A source mixes HDL text with scripting lines (`//!` inline, `/*!` ... `*/`
//! blocks). HDL lines become print statements in which backtick-delimited
//! template expressions are interpolated; scripting lines are copied into the
//! program; `<INST>` ... `</INST>` blocks inside scripting content describe a
//! module instantiation and become statements that print it and record it in a
//! metadata file.
pub mod classify;
pub mod config;
pub mod convert;
pub mod error;
pub mod escape;
pub mod inst;
pub mod text;

pub use classify::LineType;
pub use config::{parse_key_val, Config, FileOptions};
pub use convert::Convert;
pub use error::{ConvertError, ErrorKind};
pub use inst::InstDoc;
