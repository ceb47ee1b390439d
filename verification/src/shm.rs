//! The shared-memory contract: segment layouts, the tear-free publish and
//! snapshot protocol, command latching, and the trace ring.

pub mod channel;
pub mod layout;
pub mod mapping;
pub mod seqlock;
pub mod seqlock_laws;
pub mod trace;
pub mod trace_laws;
pub mod words;
