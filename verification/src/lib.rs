//! Core of a module bundler: a symbol resolution table, a module-graph
//! loader, a static scanner, a linker and two scope-hoisting finalizers.
//!
//! The loader discovers the import graph from a set of entry identities,
//! the linker resolves every cross-module reference to one canonical
//! binding and assigns collision-free display names, and the finalizers
//! rewrite each module for a flat chunk (full build) or an isolated
//! closure (hot-patch build). Resolution of specifiers, parsing and
//! printing of source text are external collaborators: they hand the
//! library plain values and take plain values back.

pub mod ast;
pub mod binding;
pub mod bundler;
pub mod diagnostics;
pub mod finalizer;
pub mod hmr_loader;
pub mod linker;
pub mod loader;
pub mod module;
pub mod options;
pub mod render;
pub mod runtime_module;
pub mod scanner;
pub mod symbols;
pub mod util;

use vstd::prelude::*;

verus! {

} // verus!
