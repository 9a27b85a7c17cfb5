//! Self-update: which release asset belongs to a build target, and what is
//! said about the outcome.

use vstd::prelude::*;
use crate::text::same_text;

verus! {

/// The release asset built for `target`, for the targets that releases are
/// built for.
pub open spec fn asset_for(target: Seq<char>) -> Option<Seq<char>> {
    if target == "x86_64-pc-windows-gnu"@ {
        Some("ttcore-clip-preparer-x86_64-pc-windows-gnu.exe"@)
    } else if target == "x86_64-unknown-linux-gnu"@ {
        Some("ttcore-clip-preparer-x86_64-unknown-linux-gnu"@)
    } else {
        None
    }
}

/// What is said after an update to `version`, or after finding that there
/// was nothing to update.
pub open spec fn outcome_message(updated: bool, version: Seq<char>) -> Seq<char> {
    if updated {
        "Updated to "@ + version
    } else {
        "Already up to date."@
    }
}

/// Names the release asset for the build target `target`, or `None` where no
/// release is built for it.
pub fn release_asset(target: &str) -> (out: Option<String>)
    ensures
        out.deep_view() == asset_for(target@),
{
    if same_text(target, "x86_64-pc-windows-gnu") {
        Some(String::from_str("ttcore-clip-preparer-x86_64-pc-windows-gnu.exe"))
    } else if same_text(target, "x86_64-unknown-linux-gnu") {
        Some(String::from_str("ttcore-clip-preparer-x86_64-unknown-linux-gnu"))
    } else {
        None
    }
}

/// Words the outcome of an update.
pub fn update_message(updated: bool, version: &str) -> (out: String)
    ensures
        out@ == outcome_message(updated, version@),
{
    if updated {
        let mut out = String::from_str("Updated to ");
        out.append(version);
        out
    } else {
        String::from_str("Already up to date.")
    }
}

} // verus!
