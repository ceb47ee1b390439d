//! The daemon's per-cycle logic: command handling, publishing, controlled stop,
//! pacing, trace samples and configuration. Timing, memory mapping and the bus
//! itself belong to the application.

pub mod cmdflags;
pub mod config;
pub mod config_laws;
pub mod cycle_laws;
pub mod engine;
pub mod engine_laws;
pub mod pacing;
pub mod record;
pub mod setting_laws;
pub mod signals;
