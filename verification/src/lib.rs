//! Synchronization engine for aggregating a person's public software
//! footprint: repositories on code forges, published packages, and external
//! open-source contributions, normalized into one model and reconciled with a
//! stored state through idempotent upserts.

pub mod config;
pub mod contributions;
pub mod crates_io;
pub mod entities;
pub mod errors;
pub mod github;
pub mod gitlab;
pub mod models;
pub mod npm;
pub mod orchestrator;
pub mod outside;
pub mod pagination;
pub mod ratelimit;
pub mod scheduler;
pub mod store;
pub mod text;
