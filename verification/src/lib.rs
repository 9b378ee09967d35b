//! Hastic: time-series pattern, threshold and anomaly detection.
//!
//! The library holds the decision logic of the detection server: the segment
//! table and its merging rules, the analytic-unit table, configuration
//! resolution, the analytic service's request/response state machine and the
//! integer part of the detectors (turning per-point decisions into detected
//! intervals). Network, storage, async plumbing and the floating-point
//! scoring live in the application around it.

pub mod utils;
pub mod services;
pub mod config;
pub mod analytic_unit;
pub mod api;
pub mod user_service;
