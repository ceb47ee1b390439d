//! Motion-control daemon core: axis state machines, fieldbus drive logic,
//! shared-memory protocols and the control cycle, stated and proved in Verus.
use vstd::prelude::*;

pub mod daemon;
pub mod ethercat;
pub mod fieldbus;
pub mod motion;
pub mod scalar;
pub mod shm;
pub mod sim;
pub mod sim_laws;
pub mod text;
pub mod text_laws;
pub mod time;

verus! {

} // verus!
