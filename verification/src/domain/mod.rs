//! Domain types: peers, torrents, peer actions, check results, ban records,
//! the log ring and the application error.

pub mod ban;
pub mod peer;
pub mod torrent;
pub mod log;
pub mod error;
