//! Verified core of a goal-based game-control engine: latency policy, session rules,
//! recording validation, action attribution and the engine's decision steps.
pub mod text;
pub mod latency;
pub mod model;
pub mod origin;
pub mod survival;
pub mod harness;
pub mod provider;
pub mod recording;
pub mod engine;
pub mod cli;
pub mod json;
pub mod sanitize;
pub mod report;
pub mod adapter;
pub mod timeline;
pub mod capture;
pub mod live;
pub mod session;
