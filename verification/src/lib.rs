//! Editor-integration intelligence for a graph query language.
//!
//! The crate turns raw editor buffers into hover text, completions,
//! go-to-definition targets and diagnostics: it decides which files form one
//! analyzable workspace, keeps the last successfully analyzed model of each
//! workspace, recovers the lexical context under a cursor, and resolves that
//! context against the cached model through an ordered chain of resolvers.
//! The grammar and the semantic checker are external collaborators; their
//! outcome enters through plain values and everything downstream is verified.
pub mod cache;
pub mod completion;
pub mod diagnostics;
pub mod keywords;
pub mod lexical;
pub mod model;
pub mod pipeline;
pub mod resolver;
pub mod store;
pub mod text;
pub mod workspace;
