pub mod wire;
pub mod siphash;
pub mod crc32;
pub mod channel;
pub mod sync;
pub mod election;
pub mod peers;
pub mod state;
pub mod frame;
pub mod rx;
pub mod tx;
pub mod daemon;

pub use daemon::{channel_from_num, AwdlStatsSnapshot};
pub mod netlink;
pub mod exchange;
