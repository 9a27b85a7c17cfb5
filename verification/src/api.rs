//! The metadata service: the clip list of a video, the request that asks for
//! it, and the reading of the answer.

use vstd::prelude::*;
use crate::config::Config;
use crate::text::{decimal, push_decimal};

verus! {

/// The contributor who produced a clip.
pub struct Creator {
    pub id: String,
    /// The name shown in credits.
    pub name: String,
    /// The account name; directories are named after its normalized form.
    pub username: String,
}

/// A creator as plain text.
pub struct CreatorView {
    pub id: Seq<char>,
    pub name: Seq<char>,
    pub username: Seq<char>,
}

impl View for Creator {
    type V = CreatorView;

    open spec fn view(&self) -> CreatorView {
        CreatorView { id: self.id@, name: self.name@, username: self.username@ }
    }
}

impl DeepView for Creator {
    type V = CreatorView;

    open spec fn deep_view(&self) -> CreatorView {
        self@
    }
}

/// One candidate segment of a video.
pub struct Clip {
    pub id: String,
    pub created_by_id: String,
    /// The video that the clip was cut from.
    pub video_id: i32,
    /// Where the clip's file is served, as an absolute URL.
    pub url: String,
    pub title: String,
    /// Whether the clip was chosen for download.
    pub selected: bool,
    pub created_at: String,
    pub creator: Creator,
}

/// A clip as plain values.
pub struct ClipView {
    pub id: Seq<char>,
    pub created_by_id: Seq<char>,
    pub video_id: int,
    pub url: Seq<char>,
    pub title: Seq<char>,
    pub selected: bool,
    pub created_at: Seq<char>,
    pub creator: CreatorView,
}

impl View for Clip {
    type V = ClipView;

    open spec fn view(&self) -> ClipView {
        ClipView {
            id: self.id@,
            created_by_id: self.created_by_id@,
            video_id: self.video_id as int,
            url: self.url@,
            title: self.title@,
            selected: self.selected,
            created_at: self.created_at@,
            creator: self.creator@,
        }
    }
}

impl DeepView for Clip {
    type V = ClipView;

    open spec fn deep_view(&self) -> ClipView {
        self@
    }
}

/// The clip list of a video, as the service returns it.
pub struct ClipsResponse {
    pub clips: Vec<Clip>,
}

impl View for ClipsResponse {
    type V = Seq<ClipView>;

    open spec fn view(&self) -> Seq<ClipView> {
        self.clips.deep_view()
    }
}

impl DeepView for ClipsResponse {
    type V = Seq<ClipView>;

    open spec fn deep_view(&self) -> Seq<ClipView> {
        self@
    }
}

/// Why the clip list could not be had.
#[derive(Clone, Copy, PartialEq, Eq, Structural, Debug)]
pub enum FetchError {
    /// The service refused the key: status 401 or 403.
    Auth { status: u16 },
    /// The service answered with any other status outside 200 to 299.
    Remote { status: u16 },
    /// The status was a success, but the body is no clip list.
    Decode,
}

/// The request that asks for the clip list of a video.
pub struct ClipsRequest {
    /// The address to `GET`.
    pub url: String,
    /// The name of the header that carries the key.
    pub header_name: String,
    /// The key.
    pub header_value: String,
}

/// A request as plain text.
pub struct ClipsRequestView {
    pub url: Seq<char>,
    pub header_name: Seq<char>,
    pub header_value: Seq<char>,
}

impl View for ClipsRequest {
    type V = ClipsRequestView;

    open spec fn view(&self) -> ClipsRequestView {
        ClipsRequestView {
            url: self.url@,
            header_name: self.header_name@,
            header_value: self.header_value@,
        }
    }
}

/// Where the metadata service lives.
pub open spec fn api_base_url() -> Seq<char> {
    "https://ttcore.gurkz.me"@
}

/// The address of the clip list of video `video_id`.
pub open spec fn clips_url(video_id: int) -> Seq<char> {
    api_base_url() + "/api/videos/"@ + decimal(video_id) + "/list"@
}

/// The request for the clip list of video `video_id`, with `key` as the API key.
pub open spec fn clips_request_for(video_id: int, key: Seq<char>) -> ClipsRequestView {
    ClipsRequestView { url: clips_url(video_id), header_name: "x-api-key"@, header_value: key }
}

/// A status that stands for success: 200 to 299.
pub open spec fn is_success(status: u16) -> bool {
    200 <= status <= 299
}

/// A status with which the service refuses the key.
pub open spec fn is_auth_failure(status: u16) -> bool {
    status == 401 || status == 403
}

/// What an answer of the service amounts to: an error for a status outside
/// 200 to 299, whatever the body; else the decoded clip list, or a decode
/// error where the body could not be decoded.
pub open spec fn response_outcome(status: u16, decoded: Option<Seq<ClipView>>) -> Result<
    Seq<ClipView>,
    FetchError,
> {
    if is_auth_failure(status) {
        Err(FetchError::Auth { status })
    } else if !is_success(status) {
        Err(FetchError::Remote { status })
    } else {
        match decoded {
            Some(clips) => Ok(clips),
            None => Err(FetchError::Decode),
        }
    }
}

/// Builds the request for the clip list of video `video_id`: a `GET` of the
/// list's address with the configured API key in the `x-api-key` header.
pub fn clips_request(video_id: i32, config: &Config) -> (out: ClipsRequest)
    ensures
        out@ == clips_request_for(video_id as int, config.api.key@),
{
    let mut url = String::from_str("https://ttcore.gurkz.me");
    url.append("/api/videos/");
    push_decimal(&mut url, video_id);
    url.append("/list");
    ClipsRequest {
        url,
        header_name: String::from_str("x-api-key"),
        header_value: config.api.key.clone(),
    }
}

/// Reads the answer of the service. `decoded` is the body as a clip list, or
/// `None` where the body does not have the shape of one.
pub fn read_clips_response(status: u16, decoded: Option<ClipsResponse>) -> (out: Result<
    ClipsResponse,
    FetchError,
>)
    ensures
        match out {
            Ok(response) => response_outcome(status, decoded.deep_view()) == Ok::<
                Seq<ClipView>,
                FetchError,
            >(response@),
            Err(error) => response_outcome(status, decoded.deep_view()) == Err::<
                Seq<ClipView>,
                FetchError,
            >(error),
        },
{
    if status == 401 || status == 403 {
        Err(FetchError::Auth { status })
    } else if status < 200 || status > 299 {
        Err(FetchError::Remote { status })
    } else {
        match decoded {
            Some(response) => Ok(response),
            None => Err(FetchError::Decode),
        }
    }
}

} // verus!
