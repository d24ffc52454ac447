//! Verified core of the Cheetah signaling control plane.
pub mod api;
pub mod clock;
pub mod ctl;
pub mod gb;
pub mod json;
pub mod migration;
pub mod onvif;
pub mod runtime;
pub mod text;
pub mod workers;
