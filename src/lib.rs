//! Compiler core for single-file UI components: block classification,
//! hoisting analysis, render-function generation and scope rewriting of
//! embedded expressions.
use vstd::prelude::*;

pub mod text;
pub mod expr;
pub mod ast;
pub mod html_tags;
pub mod policy;
pub mod classify;
pub mod codegen;
