//! Background services of the gateway.

pub mod docker_swarm;
