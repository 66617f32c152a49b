//! A fixed-size worker pool, written as the decisions of the pool and of its
//! workers over plain state. The caller owns the threads: it spawns what the
//! pool asks for, hands each worker the jobs the pool gives out, and joins
//! the handles the pool returns at shutdown.

pub mod history;
pub mod http;
pub mod pool;
pub mod queue;
pub mod worker;
