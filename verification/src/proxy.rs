//! Request dispatch, the administrative protocol and backend resolution.

pub mod http;
pub mod https;
pub mod manager;
pub mod utils;
