//! Incremental timeline mirroring: per-account cursor tracking, incremental
//! fetch-and-filter, media resolution, normalization into a generic post
//! model, and per-item publish planning with isolated failure handling.

pub mod config;
pub mod media;
pub mod post;
pub mod sync;
pub mod telegram;
pub mod text;
pub mod twitter;
