//! Devstart: discovers a project's development tasks (Cargo, npm scripts,
//! Makefile rules and local tasks), lists them, and decides how to run, print
//! or copy the one asked for, or which shortcut to open.
use vstd::prelude::*;

pub mod action;
pub mod alias;
pub mod exec;
pub mod pattern;
pub mod prompt;
pub mod shortcuts;
pub mod strmap;
pub mod style;
pub mod table;
pub mod tasks;
pub mod text;

verus! {

} // verus!
