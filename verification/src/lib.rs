//! Core runtime of a text editor that keeps in-memory documents in sync with
//! external language-server processes.
//!
//! The library owns the logic: a document store with monotonically versioned
//! text buffers, a registry that keeps exactly one language-server handle per
//! (workspace root, language) pair, a server lifecycle state machine, the
//! translation of editor operations into protocol change events under the
//! negotiated offset encoding, a debouncer for disk writes, and the path and
//! argument helpers the editor commands use. All input and output (files,
//! processes, HTTP) stays outside; callers hand the results in as plain
//! values.

pub mod args;
pub mod chat;
pub mod debounce;
pub mod editor;
pub mod events;
pub mod pathutil;
pub mod position;
pub mod registry;
pub mod rope;
pub mod server;
pub mod service;
pub mod strutil;
pub mod text;
