//! Gathers a directory tree into one text artifact for LLM context: a tree
//! listing, then one block per file holding its lines, its outline or a
//! placeholder. Patterns decide what is pruned and what each file becomes;
//! natural order decides the order of both passes.

use vstd::prelude::*;

pub mod classify;
pub mod config;
pub mod counter;
pub mod detector;
pub mod gather;
pub mod gitignore;
pub mod model;
pub mod outline;
pub mod pattern;
pub mod render;
pub mod sort;
pub mod text;
pub mod walk;
