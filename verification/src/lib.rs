//! Checks what a deployment is given against what the application says it
//! needs, before anything is built or sent.
//!
//! An application declares its needs in a specification document: named
//! environment variables and secrets, each with an optional pattern and a
//! flag that allows it to be left out. An operator supplies the values in a
//! configuration document. `config_loader::load` parses both, brings the
//! configuration into normal form and hands them to `validator`, which runs
//! its checks in a fixed order; the first rule that is broken ends the pass
//! with one error, which points at the place in the text and can be drawn
//! with `report`.
//!
//! Every function is verified against its contract. The contracts speak of
//! models over plain sequences, which the types give as their `deep_view`.
//! What other crates compute is taken on trust and named in the contracts:
//! the TOML grammar (`document`), regular expressions (`pattern`), the
//! ordered hash map behind `keyed`, the drawing of reports (`report`), and
//! base32, base64 and Ed25519 (`authenticator`).
//!
//! The remaining modules hold the decisions of the client around the
//! documents: the metadata of a deployment, the steps of a deployment and of
//! a paged read of logs, and what a build is given. They take and return
//! plain values; files, processes and the network are left to the caller.

pub mod authenticator;
pub mod config;
pub mod config_loader;
pub mod cursor;
pub mod decode;
pub mod document;
pub mod keyed;
pub mod logloader;
pub mod metadata;
pub mod package_builder;
pub mod pattern;
pub mod report;
pub mod schema;
pub mod service;
pub mod span;
pub mod validator;
