//! The type checker of the Ridge language: unification and generalisation, type
//! classes, records, quoted queries, migration hooks, and the diagnostics.

#![allow(unused_imports)]
#![allow(dead_code)]

pub mod ast;
pub mod call_graph;
pub mod checking;
pub mod class_seeds;
pub mod classes;
pub mod codec_seeds;
pub mod constructing;
pub mod ctx;
pub mod declaring;
pub mod decls;
pub mod diag;
pub mod dicts;
pub mod error;
pub mod fundeps;
pub mod fx;
pub mod group;
pub mod grouping;
pub mod handling;
pub mod heads;
pub mod importing;
pub mod instantiate;
pub mod interp;
pub mod joining;
pub mod matching;
pub mod migrate;
pub mod migrating;
pub mod module_check;
pub mod names;
pub mod orphans;
pub mod pipe_propagate;
pub mod planning;
pub mod plans;
pub mod prelude;
pub mod propagating;
pub mod qexpr;
pub mod query_seeds;
pub mod querying;
pub mod quote;
pub mod recording;
pub mod records;
pub mod renaming;
pub mod render;
pub mod rendered;
pub mod rows;
pub mod scan;
pub mod scc;
pub mod seeding;
pub mod seeds;
pub mod setup;
pub mod shapes;
pub mod small;
pub mod solve;
pub mod solving;
pub mod stdlib_env;
pub mod subst;
pub mod suggest;
pub mod table;
pub mod text;
pub mod types;
pub mod unify;
pub mod unifying;
pub mod workspace;
