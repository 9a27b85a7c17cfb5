//! The command line as data: what was asked for, after parsing.

use vstd::prelude::*;

verus! {

/// What the program is asked to do.
#[derive(Clone, Copy, PartialEq, Eq, Structural, Debug)]
pub enum Commands {
    /// Fetch the clip list of a video and download its selected clips.
    Download { video_id: i32 },
    /// Overlay credits on the downloaded clips of a video.
    BurnCredits { video_id: i32 },
    /// Empty the output directory.
    Clean,
    /// Remove the directories that hold encoded clips.
    CleanBurned,
    /// Replace the program by its latest release.
    Update,
}

/// The parsed command line.
pub struct Cli {
    /// The command, if one was given.
    pub command: Option<Commands>,
    /// The configuration file to read in place of the default.
    pub config: Option<String>,
}

} // verus!
