//! A small todo-list library.
//!
//! Task records live in a flat text file, one record per line, in a
//! markdown-checkbox form: `- [ ] <content>` for an open task and
//! `- [x] <content>` for a finished one.  This crate holds the verified
//! core of the tool: the line codec, the decoding of a whole file, the
//! pure list operations addressed by position, and the command
//! dispatch.  Reading and writing the backing file itself is left to
//! the thin front end around the library.

pub mod app;
pub mod laws;
pub mod ops;
pub mod task;
pub mod text;
