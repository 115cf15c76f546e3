//! Congestion control for a QUIC sender: the bandwidth-probing modes of BBRv2
//! and the careful-resume state machines that seed a new connection with the
//! parameters of an earlier one.

pub mod bbr2;
pub mod client;
pub mod cr_metrics;
pub mod cr_state;
pub mod dyadic;
pub mod dyadic_laws;
pub mod mem_request;
pub mod own_resume;
pub mod own_resume_laws;
pub mod packet;
pub mod resume;
pub mod resume_laws;
pub mod saved_params;
pub mod server;
pub mod text;
pub mod time;
