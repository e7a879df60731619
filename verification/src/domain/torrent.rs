//! Torrents as the downloaders report them.

use vstd::prelude::*;

verus! {

/// A snapshot of a torrent. `completed_size` is `-1` when unknown. The
/// downloader's progress, a fraction, travels beside this value; `seeding`
/// records whether it had reached `1.0`.
#[derive(Debug, Clone)]
pub struct Torrent {
    pub id: String,
    pub hash: String,
    pub name: String,
    pub seeding: bool,
    pub size: i64,
    pub completed_size: i64,
    pub private_torrent: bool,
}

impl Torrent {
    /// Whether the torrent is complete and being seeded.
    pub fn is_seeding(&self) -> (b: bool)
        ensures
            b == self.seeding,
    {
        self.seeding
    }
}

} // verus!
