//! The language servers that are set up here.
use vstd::prelude::*;

verus! {

/// rust-analyzer, for Rust.
pub struct RustLsp;

/// clangd, for C.
pub struct CLsp;

} // verus!
