//! Workload intake for an edge execution agent: reassembly of chunked
//! transfers, integrity checking and decryption of workload binaries, and the
//! bookkeeping of running tasks.

pub mod assembler;
pub mod crypto;
pub mod dispatch;
pub mod intake;
pub mod laws;
pub mod messages;
pub mod name_map;
pub mod pipeline;
pub mod registry;
pub mod transfer;
