//! Where the two files are, and how often the words are shown again.

use vstd::prelude::*;

verus! {

/// The seconds between two showings of the words, unless configured
/// otherwise: one hour.
pub const DEFAULT_REDISPLAY_INTERVAL_SECONDS: u32 = 3600;

/// The settings of a word store that is kept on disk.
#[derive(Clone, Debug, PartialEq, Eq)]
pub struct Config {
    /// The path of the repository file.
    pub repository_path: String,
    /// The path of the archive file.
    pub archive_path: String,
    /// The seconds between two showings of the words.
    pub redisplay_interval_seconds: u32,
}

impl Default for Config {
    /// The settings that are used where nothing else is configured.
    fn default() -> (config: Config)
        ensures
            config.repository_path@ == "src/storage/words.json"@,
            config.archive_path@ == "src/storage/archive.json"@,
            config.redisplay_interval_seconds == DEFAULT_REDISPLAY_INTERVAL_SECONDS,
    {
        Config {
            repository_path: "src/storage/words.json".to_owned(),
            archive_path: "src/storage/archive.json".to_owned(),
            redisplay_interval_seconds: DEFAULT_REDISPLAY_INTERVAL_SECONDS,
        }
    }
}

} // verus!
