//! Row-to-object mapping: given a struct schema annotated with decoding
//! hints, build a decode plan (an ordered list of per-field steps plus the
//! capability requirements the environment must satisfy), and execute that
//! plan against a row to construct an object or fail with a precise error.

pub mod laws;
pub mod model;
pub mod naming;
pub mod plan;
pub mod run;
pub mod schema;
pub mod semantics;
