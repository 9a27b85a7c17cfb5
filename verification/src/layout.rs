//! Where things are stored under the output root:
//!
//! ```text
//! root/{video id}/{creator}/info.txt
//! root/{video id}/{creator}/video/{file name}
//! root/{video id}/{creator}/burned/{file name}
//! root/{video id}/{creator}/burned/{file name}.error.log
//! ```
//!
//! Paths are text with `/` between their parts. `{creator}` is the creator's
//! username in snake case.

use convert_case::{Case, Casing};
use url::Url;
use vstd::prelude::*;
use crate::text::{chars_of, decimal, push_decimal, same_text};

verus! {

/// What `convert_case` makes of `text` when asked for snake case: the words
/// of `text` in lower case with `_` between them.
pub uninterp spec fn snake_case(text: Seq<char>) -> Seq<char>;

/// Calls `convert_case::Casing::to_case` with `Case::Snake`. The contract
/// gives the result its name and claims nothing else of it.
#[verifier::external_body]
fn to_snake_case(text: &str) -> (out: String)
    ensures
        out@ == snake_case(text@),
{
    text.to_case(Case::Snake)
}

/// The path segments of `url` as the `url` crate reads them: `None` where
/// `url` is no absolute URL or is one that cannot be a base (`data:`,
/// `mailto:`), else the parts of its path between the slashes,
/// percent-encoded, empty parts included.
pub uninterp spec fn url_path_segments(url: Seq<char>) -> Option<Seq<Seq<char>>>;

/// Calls `url::Url::parse` on `url` and `url::Url::path_segments` on what was
/// parsed, and hands each segment out as a string. The contract gives the
/// result its name and claims nothing else of it.
#[verifier::external_body]
fn path_segments_of(url: &str) -> (out: Option<Vec<String>>)
    ensures
        out.deep_view() == url_path_segments(url@),
{
    let parsed = Url::parse(url).ok()?;
    let segments = parsed.path_segments()?;
    Some(segments.map(|segment| segment.to_string()).collect())
}

/// The name of the directory that holds a creator's downloaded clips.
pub open spec fn video_dir_name() -> Seq<char> {
    "video"@
}

/// The name of the directory that holds a creator's encoded clips.
pub open spec fn burned_dir_name() -> Seq<char> {
    "burned"@
}

/// The name of the file that holds a creator's credit text.
pub open spec fn info_file_name() -> Seq<char> {
    "info.txt"@
}

/// The file name given to a clip whose URL offers none.
pub open spec fn default_file_name() -> Seq<char> {
    "video.mp4"@
}

/// What is added to a destination to name its error log.
pub open spec fn error_log_suffix() -> Seq<char> {
    ".error.log"@
}

/// `base` with `part` below it: a slash stands between the two unless `base`
/// is empty or ends with one.
pub open spec fn joined(base: Seq<char>, part: Seq<char>) -> Seq<char> {
    if base.len() == 0 || base.last() == '/' {
        base + part
    } else {
        base + seq!['/'] + part
    }
}

/// The directory of a video: `root/{video id}`.
pub open spec fn spec_video_root(root: Seq<char>, video_id: int) -> Seq<char> {
    joined(root, decimal(video_id))
}

/// The directory of a creator within a video: `root/{video id}/{creator}`.
pub open spec fn spec_creator_dir(root: Seq<char>, video_id: int, creator: Seq<char>) -> Seq<
    char,
> {
    joined(spec_video_root(root, video_id), creator)
}

/// `root/{video id}/{creator}/video`.
pub open spec fn spec_video_dir(root: Seq<char>, video_id: int, creator: Seq<char>) -> Seq<char> {
    joined(spec_creator_dir(root, video_id, creator), video_dir_name())
}

/// `root/{video id}/{creator}/info.txt`.
pub open spec fn spec_info_path(root: Seq<char>, video_id: int, creator: Seq<char>) -> Seq<char> {
    joined(spec_creator_dir(root, video_id, creator), info_file_name())
}

/// The last of `segments` that is not empty, if there is one.
pub open spec fn last_nonempty(segments: Seq<Seq<char>>) -> Option<Seq<char>>
    decreases segments.len(),
{
    if segments.len() == 0 {
        None
    } else if segments.last().len() > 0 {
        Some(segments.last())
    } else {
        last_nonempty(segments.drop_last())
    }
}

/// The file name that a clip gets, given the path segments of its URL: the
/// last segment that is not empty, and the default name where there is none.
pub open spec fn file_name_from(segments: Option<Seq<Seq<char>>>) -> Seq<char> {
    match segments {
        Some(parts) => match last_nonempty(parts) {
            Some(name) => name,
            None => default_file_name(),
        },
        None => default_file_name(),
    }
}

/// Where the clip served at `url`, made by the creator `username`, is stored.
pub open spec fn spec_destination_path(
    root: Seq<char>,
    video_id: int,
    username: Seq<char>,
    url: Seq<char>,
) -> Seq<char> {
    joined(
        spec_video_dir(root, video_id, snake_case(username)),
        file_name_from(url_path_segments(url)),
    )
}

/// Where the encoded form of the file `file_name` of a creator is stored:
/// beside the creator's `video` directory, in `burned`, under the same name.
pub open spec fn spec_burned_path(creator_dir: Seq<char>, file_name: Seq<char>) -> Seq<char> {
    joined(joined(creator_dir, burned_dir_name()), file_name)
}

/// Puts `part` below `base`.
pub fn join_path(base: &str, part: &str) -> (out: String)
    ensures
        out@ == joined(base@, part@),
{
    let chars = chars_of(base);
    let mut out = String::from_str(base);
    if chars.len() > 0 && chars[chars.len() - 1] != '/' {
        out.push('/');
    }
    out.append(part);
    out
}

/// The creator's username as a path segment: in snake case.
pub fn normalize_creator(username: &str) -> (out: String)
    ensures
        out@ == snake_case(username@),
{
    to_snake_case(username)
}

/// The directory of a video below `root`.
pub fn video_root(root: &str, video_id: i32) -> (out: String)
    ensures
        out@ == spec_video_root(root@, video_id as int),
{
    let mut id = String::new();
    push_decimal(&mut id, video_id);
    join_path(root, id.as_str())
}

/// The directory of a creator within a video.
pub fn creator_dir(root: &str, video_id: i32, creator_segment: &str) -> (out: String)
    ensures
        out@ == spec_creator_dir(root@, video_id as int, creator_segment@),
{
    let video = video_root(root, video_id);
    join_path(video.as_str(), creator_segment)
}

/// The directory that holds the downloaded clips of a creator.
pub fn video_dir(root: &str, video_id: i32, creator_segment: &str) -> (out: String)
    ensures
        out@ == spec_video_dir(root@, video_id as int, creator_segment@),
{
    let creator = creator_dir(root, video_id, creator_segment);
    join_path(creator.as_str(), "video")
}

/// The file that holds the credit text of a creator.
pub fn info_path(root: &str, video_id: i32, creator_segment: &str) -> (out: String)
    ensures
        out@ == spec_info_path(root@, video_id as int, creator_segment@),
{
    let creator = creator_dir(root, video_id, creator_segment);
    join_path(creator.as_str(), "info.txt")
}

/// Picks the file name of a clip from the path segments of its URL.
pub fn file_name_from_segments(segments: &Option<Vec<String>>) -> (out: String)
    ensures
        out@ == file_name_from(segments.deep_view()),
{
    match segments {
        Some(parts) => {
            let mut i: usize = parts.len();
            assert(parts.deep_view().take(i as int) == parts.deep_view());
            while i > 0
                invariant
                    i <= parts.len(),
                    segments.deep_view() == Some(parts.deep_view()),
                    last_nonempty(parts.deep_view()) == last_nonempty(
                        parts.deep_view().take(i as int),
                    ),
                decreases i,
            {
                proof {
                    let seen = parts.deep_view().take(i as int);
                    assert(seen.last() == parts[i as int - 1]@);
                    assert(seen.drop_last() == parts.deep_view().take(i as int - 1));
                }
                if !parts[i - 1].as_str().is_empty() {
                    return parts[i - 1].clone();
                }
                i -= 1;
            }
            String::from_str("video.mp4")
        },
        None => String::from_str("video.mp4"),
    }
}

/// The file name under which the clip served at `url` is stored: the last
/// path segment of the URL that is not empty; `video.mp4` where the URL has
/// none, cannot be a base, or is no absolute URL.
pub fn destination_filename(url: &str) -> (out: String)
    ensures
        out@ == file_name_from(url_path_segments(url@)),
{
    let segments = path_segments_of(url);
    file_name_from_segments(&segments)
}

/// Where the clip served at `url`, made by the creator `username`, is stored
/// below `root`.
pub fn destination_path(root: &str, video_id: i32, username: &str, url: &str) -> (out: String)
    ensures
        out@ == spec_destination_path(root@, video_id as int, username@, url@),
{
    let creator = normalize_creator(username);
    let directory = video_dir(root, video_id, creator.as_str());
    let name = destination_filename(url);
    join_path(directory.as_str(), name.as_str())
}

/// The directory that holds the encoded clips of a creator.
pub fn burned_dir(creator_dir: &str) -> (out: String)
    ensures
        out@ == joined(creator_dir@, burned_dir_name()),
{
    join_path(creator_dir, "burned")
}

/// Where the encoded form of a creator's file is stored.
pub fn burned_path(creator_dir: &str, file_name: &str) -> (out: String)
    ensures
        out@ == spec_burned_path(creator_dir@, file_name@),
{
    let directory = burned_dir(creator_dir);
    join_path(directory.as_str(), file_name)
}

/// Tells whether an entry of a creator's directory is the directory of
/// encoded clips, which the cleaning of encoded clips removes.
pub fn is_burned_dir(name: &str, is_dir: bool) -> (out: bool)
    ensures
        out == (is_dir && name@ == burned_dir_name()),
{
    is_dir && same_text(name, "burned")
}

/// The file that receives the encoder's diagnostics when encoding to
/// `destination` fails.
pub fn error_log_path(destination: &str) -> (out: String)
    ensures
        out@ == destination@ + error_log_suffix(),
{
    let mut out = String::from_str(destination);
    out.append(".error.log");
    out
}

} // verus!
