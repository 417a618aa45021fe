//! A plotline manager on top of a transactional graph of uniquely
//! identified nodes.
//!
//! Every write to the graph goes through a transaction: it is buffered in an
//! operation log, visible at once to reads made through the same
//! transaction, and reaches the graph only when the transaction is
//! committed. A transaction nested in a context merges its log into that of
//! the context when it is committed, and leaves no trace when it is dropped.
//!
//! Exclusive access is a matter of borrowing: a transaction holds its schema
//! by a unique borrow and a context holds the log of its transaction by
//! another, so there is one writer at a time and a transaction is committed
//! only when no context of it is left.
//!
//! On top of the graph stand the records of a plot (entities, events and the
//! experiences that join them), the repositories that keep them and the
//! constraints that experiences are held to.

pub mod deref;
pub mod entity;
pub mod error;
pub mod event;
pub mod experience;
pub mod graph;
pub mod guard;
pub mod id;
pub mod interval;
pub mod resource;
pub mod schema;
