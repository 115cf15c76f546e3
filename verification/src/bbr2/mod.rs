//! The modes of BBRv2 that drain the queue and probe for bandwidth.

pub mod bandwidth;
pub mod cycle;
pub mod cycle_laws;
pub mod drain;
pub mod event;
pub mod laws;
pub mod log;
pub mod mode;
pub mod model_laws;
pub mod network_model;
pub mod params;
pub mod probe_bw;
pub mod probe_laws;
pub mod transitions;
