//! Reliability layer of a user-space RDMA reliable-connection transport.
//!
//! Tracks outstanding work requests and acknowledgments: wrapping
//! sequence-number windows, cumulative and selective (bitmap)
//! acknowledgment, message-boundary tracking, duplicate and stale
//! acknowledgment suppression, and the per-connection registry that owns
//! this state.

pub mod constants;
pub mod laws;
pub mod message_tracker;
pub mod meta_worker;
pub mod msn_tracker;
pub mod nic_config;
pub mod protocol;
pub mod psn_tracker;
pub mod qp;
pub mod send_queue;
pub mod slot_alloc;
pub mod seqnum;
pub mod tracker;
