//! Dense matrix multiplication organised as independent dot-product tasks.
//!
//! A product is split into one task per output cell. Each task carries the row
//! and the column it needs and the index of the cell it fills, so tasks can be
//! computed by any worker, in any order, and gathered by destination.

pub mod dispatch;
pub mod error;
pub mod laws;
pub mod matrix;
pub mod metrics;
pub mod render;
pub mod task;
pub mod vector;

pub use crate::dispatch::{multiply, plan, task_at, worker_for, Gather, NUM_THREADS};
pub use crate::error::Error;
pub use crate::matrix::Matrix;
pub use crate::metrics::amap::AmapMetrics;
pub use crate::metrics::cmap::CmapMetrics;
pub use crate::metrics::Metrics;
pub use crate::task::{compute, delivery, reply, serve, Msg, MsgInput, MsgOutput};
pub use crate::vector::{dot_product, Vector};
