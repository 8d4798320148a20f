//! lob: data pipeline one-liners, compiled once and run from a cache.
//!
//! A short expression becomes a complete program. The program's text is
//! hashed, and the hash is the key under which its binary is cached, so that
//! an expression is compiled only the first time it is run. This library is
//! the part that decides: it synthesizes the program, computes keys and
//! paths, plans the search for the support libraries, assembles the
//! compiler's arguments, reports on the compiler's diagnostic text and steers
//! a run through its stages. It also holds the sequence operations that the
//! generated programs call. It reads no file and starts no process: what it
//! needs to know of the world it is told, in plain values.

pub mod cache;
pub mod codegen;
pub mod compile;
pub mod diagnostic;
pub mod error;
pub mod fluent;
pub mod grouping;
pub mod input;
pub mod joins;
pub mod order;
pub mod output;
pub mod paint;
pub mod path;
pub mod pipeline;
pub mod prelude;
pub mod suggestion;
pub mod sum;
pub mod table;
pub mod template;
pub mod text;
pub mod toolchain;
