//! Resolution and validation of service deployment manifests.

pub mod env;
pub mod error;
pub mod manifest;
pub mod pattern;
pub mod quantity;
pub mod repo;
pub mod secret;
pub mod slack;
pub mod structs;
pub mod text;
pub mod theorems;
pub mod validate;
