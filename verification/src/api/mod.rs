pub mod auth;
pub mod error;
pub mod event_cache;
pub mod events;
pub mod extract;
pub mod json_body;
pub mod media;
pub mod metrics;
pub mod rate_limit;
pub mod request_limits;
pub mod router;
