//! Verified core of a GPU-driven meshlet renderer: renderer configuration and backend
//! selection rules, capability checks, the `.zenmesh` cache format, dispatch arithmetic,
//! and per-frame statistics.

pub mod text;
pub mod config;
pub mod gpu_types;
pub mod dispatch;
pub mod frame;
pub mod driver;
pub mod capabilities;
pub mod readback;
pub mod stats;
pub mod asset;
pub mod bindless;
pub mod renderer;
pub mod requests;
pub mod schedule;
pub mod targets;
mod timing_tables;
