//! A fixed-size worker pool's dispatch core: the message queue that workers
//! compete for, the state of each worker, and the shutdown protocol that
//! hands every worker exactly one terminate signal.
pub mod message;
pub mod dispatch;
pub mod laws;
pub mod http;
