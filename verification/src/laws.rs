//! What the operations promise, stated of what goes into a call and what comes
//! out of it.
pub mod cache;
pub mod completion;
pub mod diagnostics;
pub mod install;
pub mod languages;
pub mod release;
pub mod text;
