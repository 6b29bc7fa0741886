//! Lowering of a typed, functional source tree to a block-structured intermediate
//! representation with explicit reference counting.

pub mod adapter;
pub mod analysis;
pub mod arrays;
pub mod asking;
pub mod ast;
pub mod branching;
pub mod builder;
pub mod call;
pub mod calling;
pub mod choosing;
pub mod closures;
pub mod coerce;
pub mod collect;
pub mod combinator;
pub mod control;
pub mod counting;
pub mod ctx;
pub mod defs;
pub mod depth;
pub mod direct;
pub mod expr;
pub mod expressions;
pub mod field_table;
pub mod finding;
pub mod flowing;
pub mod folding;
pub mod func;
pub mod fuse;
pub mod fusing;
pub mod fusion;
pub mod ir;
pub mod joining;
pub mod laws;
pub mod leaving;
pub mod list;
pub mod literal;
pub mod looping;
pub mod loops;
pub mod mapping;
pub mod merging;
pub mod names;
pub mod operating;
pub mod questions;
pub mod ranging;
pub mod recognize;
pub mod repr;
pub mod run;
pub mod searching;
pub mod sense;
pub mod sorting;
pub mod straight;
pub mod strings;
pub mod text;
pub mod types;
pub mod valid;
pub mod walking;
