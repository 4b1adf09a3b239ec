//! The verified core of a small HTTP demo made of three services, a frontend,
//! a billing service and a payment gateway, that export traces, metrics and
//! logs.

pub mod baggage;
pub mod billing;
pub mod calls;
pub mod clock;
pub mod flow;
pub mod frontend;
pub mod gateway;
pub mod headers;
pub mod metrics;
pub mod propagation;
pub mod reply;
pub mod service;
pub mod text;
