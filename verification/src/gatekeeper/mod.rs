//! The gatekeeper: assigns players to servers and vouches for their tokens.

pub mod cert_manager;
pub mod join;
pub mod quic_validator;
pub mod redis_ops;
