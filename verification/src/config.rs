//! The settings the player keeps between runs.
use vstd::prelude::*;
use crate::counts::PlayCounts;

verus! {

/// The chosen music folder (empty until one is chosen) and the play
/// count of every track that was played.
pub struct Config {
    pub music_folder: String,
    pub play_counts: PlayCounts,
}

impl Default for Config {
    /// No folder chosen and nothing played.
    fn default() -> (r: Self)
        ensures
            r.music_folder@ == Seq::<char>::empty(),
            r.play_counts@ == Map::<Seq<char>, u32>::empty(),
    {
        Config { music_folder: String::new(), play_counts: PlayCounts::new() }
    }
}

} // verus!
