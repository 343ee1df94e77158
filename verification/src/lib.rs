//! Verified core of an Anthropic-to-OpenAI gateway with an admin dashboard:
//! client authentication and local limits, the error model, and the
//! dashboard's decisions and data conversions.

pub mod error;
pub mod text;
pub mod rate;
pub mod auth;
pub mod dashboard;
