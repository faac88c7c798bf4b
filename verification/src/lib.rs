//! Version resolution for a manager of Go SDK installations.
//!
//! The library holds what such a manager decides: how a release
//! identifier is read from text and written back, how versions are ordered
//! and which versions a partial version covers, which release is the
//! latest, which release a user asks for, which updates exist for an
//! installed version, and where and under which names the SDKs are kept.
//! It reads no file and opens no connection; a program around it hands it
//! lists of names and versions and acts on what it returns.

pub mod commands;
pub mod digits;
pub mod env;
pub mod format;
pub mod grammar;
pub mod listing;
pub mod parser;
pub mod resolve;
pub mod roundtrip;
pub mod shell;
pub mod sorting;
pub mod text;
pub mod version;
