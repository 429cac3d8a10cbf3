//! A static-analysis rule for Ruby source files: it flags an assignment whose
//! right-hand side is a unary minus applied to a bare local variable, written
//! with no space between `=` and `-` but with a space before the operand
//! (`x =- y`), which reads like a compound operator while it parses as
//! `x = (-y)`.
//!
//! The detection over the syntax tree and the rendering of each finding into a
//! caret-underlined diagnostic block are verified here; the Ruby parser is an
//! outside collaborator reached through a small trusted wrapper, and the walk
//! over the file system stays outside the library.

pub mod ast;
pub mod detect;
pub mod render;
pub mod scan;
