//! The orchestrator: keeps shards running and one of them empty.

pub mod docker_ops;
pub mod health;
pub mod k8s_ops;
pub mod poll;
pub mod redis_ops;
pub mod spawn;
