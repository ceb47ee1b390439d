//! Bitmask and code vocabulary of the shared-memory contract.
pub mod cmd;
pub mod error_id;
pub mod machine_cmd;
pub mod status;
