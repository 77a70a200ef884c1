//! Verified building blocks of a SQL engine: LIKE pattern analysis and the
//! rewrite that turns simple LIKE calls into cheaper string predicates, the
//! values, batches and expressions they work on, the conversion of result
//! batches and schemas for sqllogictest, a reader of bit-packed booleans,
//! and the aggregate and expression-list plan nodes with their EXPLAIN
//! entries.

pub mod text;
pub mod like;
pub mod like_laws;
pub mod scalar;
pub mod expr;
pub mod expr_eval;
pub mod like_rewrite;
pub mod slt;
pub mod bool_reader;
pub mod format;
pub mod batch;
pub mod slt_types;
pub mod column_expr;
pub mod explain;
pub mod logical;
