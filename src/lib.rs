//! Strips client-only code from JavaScript and TypeScript modules.
//!
//! Two rewrites over a module's syntax tree:
//! - calls to a configured factory that stand as object-property values get a
//!   single `null` argument, everywhere in the tree;
//! - a module that opens with the `use client` directive keeps only its
//!   directive, the imports it re-exports, its export surface and what cannot
//!   be judged by name, and every exported value is erased to `null` (or a
//!   function returning `null`), so that importers still compile.
pub mod ast;
pub mod collect;
pub mod directive;
pub mod names;
pub mod neutralize;
pub mod retain;
pub mod stub;
pub mod text;
pub mod transform;
