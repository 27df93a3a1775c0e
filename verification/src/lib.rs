//! Metering of token withdrawal batches: a token-decimals cache with lazy
//! population, exact decimal scaling of raw amounts, and per-item metric
//! sample construction with isolated failure handling.
//!
//! The heart of the crate is [`pipeline::WithdrawalsMeter`]: a batch of
//! withdrawal records is processed step by step, each step consuming the
//! outcome of the previous outside action (a decimals fetch, a metric
//! emission) and commanding the next. A token with no registered decimals or
//! an amount the sink cannot represent only skips its own item; a store
//! failure aborts the batch and is returned to the caller. What every step
//! does is pinned by [`pipeline::step_model`], and the guarantees are proved
//! in [`laws`].

pub mod cache;
pub mod laws;
pub mod pipeline;
pub mod scale;
pub mod token;
