//! Usage metrics for a subscription with rolling limits.
//!
//! - [`messages`], [`session`], [`session_laws`], [`usage_laws`]: session blocks and the
//!   recent burn of local messages.
//! - [`history`], [`windows`], [`outlook`]: how utilization percentages develop between
//!   reports, and what lies ahead of each window.
//! - [`metrics`], [`metrics_laws`], [`tokens`], [`text`], [`binary64`]: the lines that
//!   are shown.
//! - [`credentials`], [`requests`], [`reset`], [`profile`], [`fetch`]: the course of
//!   a request to the service.
//! - [`results`], [`service_results`]: what a caller gets back from each operation.

pub mod binary64;
pub mod credentials;
pub mod fetch;
pub mod history;
pub mod messages;
pub mod metrics;
pub mod metrics_laws;
pub mod outlook;
pub mod profile;
pub mod requests;
pub mod reset;
pub mod results;
pub mod service_results;
pub mod session;
pub mod session_laws;
pub mod text;
pub mod tokens;
pub mod usage_laws;
pub mod windows;
