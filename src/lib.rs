//! The presence subsystem of a chat homeserver: per-user presence status, an
//! ordered log of presence transitions, presence lists, and the snapshots that
//! polling clients receive.

pub mod clock;
pub mod error;
pub mod event_id;
pub mod laws;
pub mod presence_api;
pub mod presence_event;
pub mod presence_list;
pub mod presence_state;
pub mod presence_status;
pub mod push_rules;
pub mod store;
pub mod sync;
pub mod table;
pub mod versions;
