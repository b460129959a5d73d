//! Resolution of an environment-setup document into an ordered list of
//! package-installation steps.
//!
//! The document arrives as a [`value::Value`] tree (whatever its text format
//! was); [`config::Config::deserialize`] turns it into the canonical model or
//! reports the first structural problem with the path of the offending field.

pub mod value;
pub mod fields;
pub mod specifiers;
pub mod package;
pub mod config;
pub mod laws;
