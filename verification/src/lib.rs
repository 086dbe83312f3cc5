//! Search a file for a pattern, browse the matching lines and the context in
//! which they appear, and jump to a match in an editor.
//!
//! The verified library holds the logic: command-line arguments, search
//! results, the list that the user browses, the navigation through it, the
//! highlighted file view and the decisions taken on each key press.

pub mod app;
pub mod compiled;
pub mod config;
pub mod highlight;
pub mod searcher;
pub mod text;
