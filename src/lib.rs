//! A safe layer over a handle-based native RFC library: the wide-string codec,
//! the promotion of native failures, the connection parameter builder and
//! the lifecycle of connection and function handles.

pub mod builder;
pub mod connection;
pub mod error;
pub mod uc;
