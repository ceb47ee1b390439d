//! EtherCAT drives: the CiA 402 power sequencer, the process-image layout, the
//! working-counter monitor, and the decisions of bus start-up, cyclic exchange
//! and shutdown. The bus itself is driven by the application, one action at a
//! time.

pub mod backend;
pub mod backend_laws;
pub mod cia402;
pub mod config;
pub mod cycle_laws;
pub mod events;
pub mod pdo;
pub mod wkc;
