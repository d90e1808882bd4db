//! A domain-based gateway: the routing table, the dispatch rules, the
//! administrative protocol, backend-name resolution, service discovery and
//! the certificate lifecycle, as verified functions on plain values.

pub mod calendar;
pub mod cert;
pub mod config;
pub mod proxy;
pub mod services;
pub mod text;
