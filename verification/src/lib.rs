//! A verified transport and control layer for a pruning side-process: the
//! double-newline framing of the backend byte stream, the JSON-RPC 2.0
//! envelope codec with its wire text, the control-side dispatcher, the
//! one-shot initialization handoff, and the per-tick maintenance decision.

pub mod framing;
pub mod init_info;
pub mod json;
pub mod pruning;
pub mod rpc;
pub mod stdio;
