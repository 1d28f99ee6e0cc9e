//! Sable: the verified core of a Windows gaming overlay and tuning toolkit.
//!
//! The library holds the decisions and data handling of the toolkit: which
//! ETW events count as frames, the per-process frame-time buffers and their
//! statistics, the text parsing of game-library manifests and the entries
//! each store scan makes, the preset catalogue and its snapshot/rollback
//! planning, GUID and UUID text, the text in Windows' UTF-16 buffers, the
//! IPC message framing, the service's request handling, the bottleneck
//! report and the overlay layout. Everything that touches the operating
//! system lives outside this crate and hands plain values in.

pub mod present_ids;
pub mod text;
pub mod games;
pub mod gpu;
pub mod guid;
pub mod ids;
pub mod presets;
pub mod frames;
pub mod ipc;
pub mod bottleneck;
pub mod overlay;
pub mod system;
pub mod service;
pub mod entries;
pub mod wide;
