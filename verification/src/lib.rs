//! Finds and removes disposable files in the well-known places of a system,
//! keeps what must not be removed, and reports what was done.

pub mod cleaning;
pub mod decimal;
pub mod monitoring;
pub mod pattern;
pub mod text;
