//! A session-orchestration library: it resolves declarative configuration —
//! named directories, reusable window/pane templates, and projects — into a
//! concrete session description and an ordered sequence of abstract
//! multiplexer operations.  Reading configuration files, parsing YAML and
//! driving the multiplexer itself are left to the surrounding binary; the
//! resolution and synthesis logic here is verified.
pub mod directories;
pub mod launch;
pub mod listing;
pub mod naming;
pub mod projects;
pub mod strutil;
pub mod templates;
