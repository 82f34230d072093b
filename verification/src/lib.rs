//! Verified building blocks of a WebAssembly runtime's tooling: package
//! specifier splitting, runner configuration, exec argument handling,
//! package download decisions, a factorial test module, and the
//! dynamic-linking stubs.

pub mod text;
pub mod pattern;
pub mod split_version;
pub mod runner;
pub mod exec;
pub mod download;
pub mod fac;
pub mod linking;
