//! Ubi: a source-to-source compiler for the Ubi web framework.
//!
//! The library holds the text transformations that turn Ubi route files
//! (`ui.ubi`, `server.ts`, `server.py`, `middleware.ts`, `model.ts`) into
//! Rust, HTML/JavaScript, SQL and Kotlin sources, together with the small
//! decision rules of the command line tool. Every function here is verified
//! by Verus; the program around it (file system, processes, network) lives
//! in `app/`.

pub mod text;
pub mod pattern;
pub mod page;
pub mod blocks;
pub mod transform;
pub mod codegen;
pub mod android;
pub mod setup;
pub mod paths;
pub mod rules;
pub mod config;
