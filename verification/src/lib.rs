//! A bridge between a dynamically typed host and a semantic diff engine for
//! structured data.
//!
//! Host values are normalised into one canonical value model, options are
//! validated into a configuration, and the differences that the engine
//! reports are marshalled back into host form.

pub mod config;
pub mod convert;
pub mod engine;
pub mod error;
pub mod host;
pub mod json;
pub mod number;
pub mod result;
pub mod value;
