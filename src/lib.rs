//! Terminal session engine: a VT100 screen model driven by a byte-level
//! parser, a content extractor that turns the screen into styled lines, and a
//! registry that tracks shell sessions and their command queues.
pub mod color;
pub mod screen;
pub mod parser;
pub mod text;
pub mod extract;
pub mod emulator;
pub mod config;
pub mod registry;
pub mod handler;
pub mod logger;
pub mod session;


