//! Language support for the editor: which languages it knows, how their
//! language servers are found, installed and cached, and how what those
//! servers report is presented.
pub mod cache;
pub mod completion;
pub mod diagnostics;
pub mod install;
pub mod languages;
pub mod laws;
pub mod release;
pub mod replace;
pub mod server;
pub mod text;
