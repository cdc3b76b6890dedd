//! Liveness monitoring for a Plex media server: address and URL
//! construction, the health-probe decisions and the debounced alert state.

pub mod text;
pub mod xml;
pub mod config;
pub mod checker;
pub mod walk;
pub mod notify;
