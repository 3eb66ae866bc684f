//! Packet-processing core of a traffic-inspection station: dissects captured
//! frames, tracks TCP flows to port 443 through a pending and a tagged
//! namespace, and decides per packet whether to ignore, track, inspect or
//! forward it.

pub mod dissect;
pub mod flow;
pub mod shard;
pub mod tracker;
