//! Multi-target ICMP reachability probing: packet codec, reply matching,
//! per-host probe loops, bounded-concurrency scheduling and statistics.

pub mod checksum;
pub mod packet;
pub mod stats;
pub mod address;
pub mod targets;
pub mod params;
pub mod transport;
pub mod host;
pub mod scheduler;
pub mod text;
pub mod summary;
