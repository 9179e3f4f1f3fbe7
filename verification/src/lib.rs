//! The document compilation and rendering core of a desktop writing
//! application: it turns a flat, parent-linked forest of project nodes into a
//! structured book document, and lays that document out as a plain sequence
//! of page operations and progress notifications that a thin shell can hand
//! to a PDF serializer.
pub mod compiler;
pub mod config;
pub mod fonts;
pub mod layout;
pub mod richtext;
pub mod strutil;
pub mod types;
