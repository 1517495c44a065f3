//! Core logic of the Cinematch recommendation service: content and provider
//! keys, recommendation parameters and their fingerprint, the voting session
//! state machine, the recommendation window, and request validation.

pub mod api;
pub mod auth;
pub mod clock;
pub mod friends;
pub mod model;
pub mod order;
pub mod params;
pub mod recommender;
pub mod text;
pub mod provider;
pub mod session;

