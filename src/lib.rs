//! Coordination core of a connector SDK: a throttle that coalesces and
//! rate-limits executions of an operation, and a lazily initialised shared
//! cell that retries after failure; and the errors met while reading a
//! connector's configuration, with the text each is shown as.
//!
//! Both are state machines: the caller performs the awaited work (sleeping,
//! running the operation, delivering results) and reports back, while the
//! decisions are made, and proved, here.

pub mod error;
pub mod lazy_cell;
pub mod throttle;
pub mod text;
pub mod waiters;
