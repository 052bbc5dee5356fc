//! GaleMind: the batching and model-buffering core of an ML inference server,
//! with its behaviour stated in contracts and proved by Verus.

pub mod circular_buffer;
pub mod cnn;
pub mod config;
pub mod container;
pub mod dispatch;
pub mod error;
pub mod latency;
pub mod metrics;
pub mod model_buffers;
pub mod optimizer;
pub mod prediction;
pub mod regression;
pub mod server;
pub mod text;
pub mod time;
pub mod workload;
