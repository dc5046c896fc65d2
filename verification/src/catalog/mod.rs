//! The catalogue: what every metric is, and the cards of the providers that compute them.

pub mod awareness;
pub mod comms;
pub mod detection;
pub mod frag;
pub mod latency;
pub mod load;
pub mod overhead;
pub mod runtime;
pub mod safety;
