//! Axis and machine control: the per-axis state machine, its step values and
//! bit vocabulary, profile steps, and the fan-out of a machine command to the axes.

pub mod axis;
pub mod axis_laws;
pub mod command_laws;
pub mod flags;
pub mod machine;
pub mod profile;
pub mod step;
