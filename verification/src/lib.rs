//! Identity & access core and worker discovery engine of a services
//! marketplace backend.
//!
//! The crate covers phone-based identity verification (OTP entry points),
//! stateless dual-token sessions signed with HMAC-SHA-256, a composable
//! authorization guard chain, the user identity store, and the worker
//! search/ranking planner with tier-aware sorting, pagination and
//! geospatial proximity.

pub mod crypto;
pub mod decimal;
pub mod geo;
pub mod guards;
pub mod otp;
pub mod response;
pub mod search;
pub mod subscription;
pub mod token;
pub mod users;
pub mod validate;
pub mod worker;
