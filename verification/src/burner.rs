//! The burn command: which files are encoded, what one run of the encoder
//! goes through, and the plan of a whole batch.
//!
//! The directory tree is read by the caller and handed over as a listing.
//! A creator's directory is a source of jobs only if it holds both the credit
//! text and a `video` directory; each regular file of that directory is one
//! job. The jobs of a batch run one after the other, and a job that fails
//! does not stop those behind it.

use vstd::prelude::*;
use crate::encoder::{
    build_encoder_command,
    encoder_command,
    parse_progress,
    progress_timestamp,
    EncoderCommand,
    EncoderCommandView,
};
use crate::layout::{
    burned_path,
    error_log_path,
    error_log_suffix,
    join_path,
    joined,
    spec_burned_path,
    video_dir_name,
};
use crate::pool::{Pool, PoolView};

verus! {

/// An entry of a creator's `video` directory.
pub struct FileEntry {
    /// The entry's name, without any directory.
    pub name: String,
    /// Whether the entry is a regular file.
    pub is_file: bool,
}

/// An entry as plain values.
pub struct FileEntryView {
    pub name: Seq<char>,
    pub is_file: bool,
}

impl View for FileEntry {
    type V = FileEntryView;

    open spec fn view(&self) -> FileEntryView {
        FileEntryView { name: self.name@, is_file: self.is_file }
    }
}

impl DeepView for FileEntry {
    type V = FileEntryView;

    open spec fn deep_view(&self) -> FileEntryView {
        self@
    }
}

/// An entry of a video's directory: a creator's directory, if it is one.
pub struct CreatorEntry {
    /// The entry's name, without any directory.
    pub name: String,
    /// Whether the entry is a directory.
    pub is_dir: bool,
    /// What the credit file below the entry holds; `None` where there is no
    /// such file or it cannot be read as text.
    pub info_text: Option<String>,
    /// The entries of the `video` directory below the entry; `None` where
    /// there is no such directory.
    pub video_entries: Option<Vec<FileEntry>>,
}

/// A creator's entry as plain values.
pub struct CreatorEntryView {
    pub name: Seq<char>,
    pub is_dir: bool,
    pub info_text: Option<Seq<char>>,
    pub video_entries: Option<Seq<FileEntryView>>,
}

impl View for CreatorEntry {
    type V = CreatorEntryView;

    open spec fn view(&self) -> CreatorEntryView {
        CreatorEntryView {
            name: self.name@,
            is_dir: self.is_dir,
            info_text: self.info_text.deep_view(),
            video_entries: self.video_entries.deep_view(),
        }
    }
}

impl DeepView for CreatorEntry {
    type V = CreatorEntryView;

    open spec fn deep_view(&self) -> CreatorEntryView {
        self@
    }
}

/// An entry of the output root: a video's directory, if it is one.
pub struct VideoEntry {
    /// The entry's name, without any directory.
    pub name: String,
    /// Whether the entry is a directory.
    pub is_dir: bool,
    /// The entries below it.
    pub creators: Vec<CreatorEntry>,
}

/// A video's entry as plain values.
pub struct VideoEntryView {
    pub name: Seq<char>,
    pub is_dir: bool,
    pub creators: Seq<CreatorEntryView>,
}

impl View for VideoEntry {
    type V = VideoEntryView;

    open spec fn view(&self) -> VideoEntryView {
        VideoEntryView {
            name: self.name@,
            is_dir: self.is_dir,
            creators: self.creators.deep_view(),
        }
    }
}

impl DeepView for VideoEntry {
    type V = VideoEntryView;

    open spec fn deep_view(&self) -> VideoEntryView {
        self@
    }
}

/// One file to encode.
pub struct EncodeJob {
    /// The downloaded file.
    pub source: String,
    /// The file that receives the encoded clip.
    pub destination: String,
    /// The credit text to overlay, as the creator's credit file holds it.
    pub overlay_text: String,
}

/// A job as plain text.
pub struct EncodeJobView {
    pub source: Seq<char>,
    pub destination: Seq<char>,
    pub overlay_text: Seq<char>,
}

impl View for EncodeJob {
    type V = EncodeJobView;

    open spec fn view(&self) -> EncodeJobView {
        EncodeJobView {
            source: self.source@,
            destination: self.destination@,
            overlay_text: self.overlay_text@,
        }
    }
}

impl DeepView for EncodeJob {
    type V = EncodeJobView;

    open spec fn deep_view(&self) -> EncodeJobView {
        self@
    }
}

/// A creator's entry is a source of jobs: it is a directory and holds both
/// the credit text and a `video` directory.
pub open spec fn qualifies(creator: CreatorEntryView) -> bool {
    creator.is_dir && creator.info_text is Some && creator.video_entries is Some
}

/// The job for the file `file_name` of the creator whose directory is
/// `creator_dir`: the file in `video` is encoded to the file of the same name
/// in `burned`, with `text` overlaid.
pub open spec fn job_for(creator_dir: Seq<char>, text: Seq<char>, file_name: Seq<char>)
    -> EncodeJobView {
    EncodeJobView {
        source: joined(joined(creator_dir, video_dir_name()), file_name),
        destination: spec_burned_path(creator_dir, file_name),
        overlay_text: text,
    }
}

/// The jobs for the entries of a `video` directory: one for each regular
/// file, in order, all with the same text.
pub open spec fn jobs_of_files(creator_dir: Seq<char>, text: Seq<char>, files: Seq<FileEntryView>)
    -> Seq<EncodeJobView> {
    files.filter(|file: FileEntryView| file.is_file).map_values(
        |file: FileEntryView| job_for(creator_dir, text, file.name),
    )
}

/// The jobs that one entry of a video's directory gives: those of its files
/// where it qualifies, none where it does not.
pub open spec fn jobs_of_creator(video_dir: Seq<char>, creator: CreatorEntryView) -> Seq<
    EncodeJobView,
> {
    if qualifies(creator) {
        jobs_of_files(
            joined(video_dir, creator.name),
            creator.info_text->0,
            creator.video_entries->0,
        )
    } else {
        Seq::empty()
    }
}

/// The jobs of a video's directory: those of its entries, in order.
pub open spec fn jobs_of_creators(video_dir: Seq<char>, creators: Seq<CreatorEntryView>) -> Seq<
    EncodeJobView,
>
    decreases creators.len(),
{
    if creators.len() == 0 {
        Seq::empty()
    } else {
        jobs_of_creators(video_dir, creators.drop_last()) + jobs_of_creator(
            video_dir,
            creators.last(),
        )
    }
}

/// The jobs that one entry of the output root gives: those of its creators
/// where it is a directory, none where it is not.
pub open spec fn jobs_of_video(root: Seq<char>, video: VideoEntryView) -> Seq<EncodeJobView> {
    if video.is_dir {
        jobs_of_creators(joined(root, video.name), video.creators)
    } else {
        Seq::empty()
    }
}

/// The jobs of the whole output root: those of its entries, in order.
pub open spec fn jobs_of_videos(root: Seq<char>, videos: Seq<VideoEntryView>) -> Seq<
    EncodeJobView,
>
    decreases videos.len(),
{
    if videos.len() == 0 {
        Seq::empty()
    } else {
        jobs_of_videos(root, videos.drop_last()) + jobs_of_video(root, videos.last())
    }
}

fn push_file_jobs(jobs: &mut Vec<EncodeJob>, creator_dir: &str, text: &str, files: &Vec<FileEntry>)
    ensures
        final(jobs).deep_view() == old(jobs).deep_view() + jobs_of_files(
            creator_dir@,
            text@,
            files.deep_view(),
        ),
{
    let video_dir = join_path(creator_dir, "video");
    let ghost before = jobs.deep_view();
    let ghost all = files.deep_view();
    proof {
        reveal(Seq::filter);
        assert(all.take(0) == Seq::<FileEntryView>::empty());
        assert(jobs_of_files(creator_dir@, text@, all.take(0)) == Seq::<EncodeJobView>::empty());
        assert(before + Seq::<EncodeJobView>::empty() == before);
    }
    let mut i: usize = 0;
    while i < files.len()
        invariant
            i <= files.len(),
            all == files.deep_view(),
            video_dir@ == joined(creator_dir@, video_dir_name()),
            jobs.deep_view() == before + jobs_of_files(creator_dir@, text@, all.take(i as int)),
        decreases files.len() - i,
    {
        proof {
            reveal(Seq::filter);
            let seen = all.take(i as int + 1);
            assert(seen.drop_last() == all.take(i as int));
            assert(seen.last() == files[i as int]@);
        }
        if files[i].is_file {
            let ghost so_far = jobs.deep_view();
            let job = EncodeJob {
                source: join_path(video_dir.as_str(), files[i].name.as_str()),
                destination: burned_path(creator_dir, files[i].name.as_str()),
                overlay_text: String::from_str(text),
            };
            jobs.push(job);
            proof {
                assert(jobs.deep_view() == so_far.push(job@));
                let regular = all.take(i as int).filter(|file: FileEntryView| file.is_file);
                let make = |file: FileEntryView| job_for(creator_dir@, text@, file.name);
                assert(regular.push(files[i as int]@).map_values(make) == regular.map_values(
                    make,
                ).push(make(files[i as int]@)));
                let earlier = jobs_of_files(creator_dir@, text@, all.take(i as int));
                assert((before + earlier).push(job@) == before + earlier.push(job@));
            }
        }
        i += 1;
    }
    proof {
        assert(all.take(files.len() as int) == all);
    }
}

fn push_creator_jobs(jobs: &mut Vec<EncodeJob>, video_dir: &str, creator: &CreatorEntry)
    ensures
        final(jobs).deep_view() == old(jobs).deep_view() + jobs_of_creator(video_dir@, creator@),
{
    if creator.is_dir {
        if let Some(text) = &creator.info_text {
            if let Some(files) = &creator.video_entries {
                let creator_dir = join_path(video_dir, creator.name.as_str());
                push_file_jobs(jobs, creator_dir.as_str(), text.as_str(), files);
                return ;
            }
        }
    }
    proof {
        assert(jobs.deep_view() + Seq::<EncodeJobView>::empty() == jobs.deep_view());
    }
}

fn push_video_jobs(jobs: &mut Vec<EncodeJob>, video_dir: &str, creators: &Vec<CreatorEntry>)
    ensures
        final(jobs).deep_view() == old(jobs).deep_view() + jobs_of_creators(
            video_dir@,
            creators.deep_view(),
        ),
{
    let ghost before = jobs.deep_view();
    let ghost all = creators.deep_view();
    proof {
        assert(all.take(0) == Seq::<CreatorEntryView>::empty());
        assert(before + Seq::<EncodeJobView>::empty() == before);
    }
    let mut i: usize = 0;
    while i < creators.len()
        invariant
            i <= creators.len(),
            all == creators.deep_view(),
            jobs.deep_view() == before + jobs_of_creators(video_dir@, all.take(i as int)),
        decreases creators.len() - i,
    {
        proof {
            let seen = all.take(i as int + 1);
            assert(seen.drop_last() == all.take(i as int));
            assert(seen.last() == creators[i as int]@);
            let earlier = jobs_of_creators(video_dir@, all.take(i as int));
            let added = jobs_of_creator(video_dir@, creators[i as int]@);
            assert((before + earlier) + added == before + (earlier + added));
        }
        push_creator_jobs(jobs, video_dir, &creators[i]);
        i += 1;
    }
    proof {
        assert(all.take(creators.len() as int) == all);
    }
}

/// Collects the jobs of one video from the listing of its directory
/// `video_dir`. An entry that is no directory, or lacks the credit text or
/// the `video` directory, is passed over without an error.
pub fn collect_video_jobs(video_dir: &str, creators: &Vec<CreatorEntry>) -> (jobs: Vec<EncodeJob>)
    ensures
        jobs.deep_view() == jobs_of_creators(video_dir@, creators.deep_view()),
{
    let mut jobs: Vec<EncodeJob> = Vec::new();
    push_video_jobs(&mut jobs, video_dir, creators);
    proof {
        let found = jobs_of_creators(video_dir@, creators.deep_view());
        assert(Seq::<EncodeJobView>::empty() + found == found);
    }
    jobs
}

/// Collects the jobs of every video below `root` from the listing of the
/// three levels below it: videos, creators, files.
pub fn collect_jobs(root: &str, videos: &Vec<VideoEntry>) -> (jobs: Vec<EncodeJob>)
    ensures
        jobs.deep_view() == jobs_of_videos(root@, videos.deep_view()),
{
    let mut jobs: Vec<EncodeJob> = Vec::new();
    let ghost all = videos.deep_view();
    proof {
        assert(all.take(0) == Seq::<VideoEntryView>::empty());
    }
    let mut i: usize = 0;
    while i < videos.len()
        invariant
            i <= videos.len(),
            all == videos.deep_view(),
            jobs.deep_view() == jobs_of_videos(root@, all.take(i as int)),
        decreases videos.len() - i,
    {
        proof {
            let seen = all.take(i as int + 1);
            assert(seen.drop_last() == all.take(i as int));
            assert(seen.last() == videos[i as int]@);
        }
        if videos[i].is_dir {
            let video_dir = join_path(root, videos[i].name.as_str());
            push_video_jobs(&mut jobs, video_dir.as_str(), &videos[i].creators);
        } else {
            proof {
                assert(jobs.deep_view() + Seq::<EncodeJobView>::empty() == jobs.deep_view());
            }
        }
        i += 1;
    }
    proof {
        assert(all.take(videos.len() as int) == all);
    }
    jobs
}

proof fn lemma_jobs_of_creators_concat(
    video_dir: Seq<char>,
    front: Seq<CreatorEntryView>,
    back: Seq<CreatorEntryView>,
)
    ensures
        jobs_of_creators(video_dir, front + back) == jobs_of_creators(video_dir, front)
            + jobs_of_creators(video_dir, back),
    decreases back.len(),
{
    if back.len() == 0 {
        assert(front + back == front);
        assert(jobs_of_creators(video_dir, front) + Seq::<EncodeJobView>::empty()
            == jobs_of_creators(video_dir, front));
    } else {
        assert((front + back).drop_last() == front + back.drop_last());
        assert((front + back).last() == back.last());
        lemma_jobs_of_creators_concat(video_dir, front, back.drop_last());
        let a = jobs_of_creators(video_dir, front);
        let b = jobs_of_creators(video_dir, back.drop_last());
        let c = jobs_of_creator(video_dir, back.last());
        assert((a + b) + c == a + (b + c));
    }
}

/// An entry that lacks the credit text or the `video` directory, or is no
/// directory, gives no job, and the listing gives the jobs that it would give
/// without that entry.
pub proof fn lemma_unqualified_creator_is_skipped(
    video_dir: Seq<char>,
    creators: Seq<CreatorEntryView>,
    at: int,
)
    requires
        0 <= at < creators.len(),
        !qualifies(creators[at]),
    ensures
        jobs_of_creator(video_dir, creators[at]) == Seq::<EncodeJobView>::empty(),
        jobs_of_creators(video_dir, creators) == jobs_of_creators(video_dir, creators.remove(at)),
{
    let front = creators.take(at);
    let one = seq![creators[at]];
    let back = creators.skip(at + 1);
    assert(creators == front + one + back);
    assert(creators.remove(at) == front + back);
    lemma_jobs_of_creators_concat(video_dir, front + one, back);
    lemma_jobs_of_creators_concat(video_dir, front, one);
    lemma_jobs_of_creators_concat(video_dir, front, back);
    assert(one.drop_last() == Seq::<CreatorEntryView>::empty());
    assert(jobs_of_creators(video_dir, one.drop_last()) == Seq::<EncodeJobView>::empty());
    assert(jobs_of_creators(video_dir, one) == Seq::<EncodeJobView>::empty());
    assert(jobs_of_creators(video_dir, front) + Seq::<EncodeJobView>::empty() == jobs_of_creators(
        video_dir,
        front,
    ));
}

/// Every job of a creator carries the creator's credit text and leads from
/// the creator's `video` directory to the file of the same name in `burned`.
pub proof fn lemma_jobs_mirror_their_sources(
    video_dir: Seq<char>,
    creator: CreatorEntryView,
    index: int,
)
    requires
        0 <= index < jobs_of_creator(video_dir, creator).len(),
    ensures
        qualifies(creator),
        exists|name: Seq<char>| #[trigger]
            job_for(joined(video_dir, creator.name), creator.info_text->0, name)
                == jobs_of_creator(video_dir, creator)[index],
{
    let files = creator.video_entries->0;
    let regular = files.filter(|file: FileEntryView| file.is_file);
    let name = regular[index].name;
    assert(job_for(joined(video_dir, creator.name), creator.info_text->0, name) == jobs_of_creator(
        video_dir,
        creator,
    )[index]);
}

/// Why a job failed.
#[derive(Clone, Copy, PartialEq, Eq, Structural, Debug)]
pub enum EncodeFailure {
    /// The encoder could not be started.
    Spawn,
    /// The encoder ended with a status other than zero.
    Exit,
}

/// Where a job stands.
#[derive(Clone, Copy, PartialEq, Eq, Structural, Debug)]
pub enum JobState {
    /// The encoder was not started yet.
    Pending,
    /// The encoder runs.
    Running,
    /// The encoder ended with status zero.
    Succeeded,
    /// The job failed.
    Failed(EncodeFailure),
}

/// What happens to a job.
pub enum JobEvent {
    /// The encoder was started.
    Started,
    /// The encoder could not be started.
    SpawnFailed,
    /// The encoder wrote this line to its diagnostic stream.
    Line(String),
    /// The encoder ended, with status zero or not.
    Exited { success: bool },
}

/// An event as plain values.
pub enum JobEventView {
    Started,
    SpawnFailed,
    Line(Seq<char>),
    Exited { success: bool },
}

impl View for JobEvent {
    type V = JobEventView;

    open spec fn view(&self) -> JobEventView {
        match self {
            JobEvent::Started => JobEventView::Started,
            JobEvent::SpawnFailed => JobEventView::SpawnFailed,
            JobEvent::Line(line) => JobEventView::Line(line@),
            JobEvent::Exited { success } => JobEventView::Exited { success: *success },
        }
    }
}

/// What the caller is to do after an event.
pub enum JobAction {
    /// Nothing.
    Nothing,
    /// Show this timestamp as the job's progress.
    ShowProgress(String),
    /// Report that the encoder could not be started.
    ReportSpawnFailure,
    /// Report the failure and write `contents` to the file `path`.
    WriteErrorLog { path: String, contents: String },
}

/// An action as plain values.
pub enum JobActionView {
    Nothing,
    ShowProgress(Seq<char>),
    ReportSpawnFailure,
    WriteErrorLog { path: Seq<char>, contents: Seq<char> },
}

impl View for JobAction {
    type V = JobActionView;

    open spec fn view(&self) -> JobActionView {
        match self {
            JobAction::Nothing => JobActionView::Nothing,
            JobAction::ShowProgress(timestamp) => JobActionView::ShowProgress(timestamp@),
            JobAction::ReportSpawnFailure => JobActionView::ReportSpawnFailure,
            JobAction::WriteErrorLog { path, contents } => JobActionView::WriteErrorLog {
                path: path@,
                contents: contents@,
            },
        }
    }
}

/// One run of the encoder on a job.
pub struct JobRun {
    /// Where the job stands.
    pub state: JobState,
    /// All that the encoder wrote to its diagnostic stream so far, each line
    /// followed by a line feed.
    pub captured: String,
    /// The timestamp of the last progress marker seen.
    pub progress: Option<String>,
}

/// A run as plain values.
pub struct JobRunView {
    pub state: JobState,
    pub captured: Seq<char>,
    pub progress: Option<Seq<char>>,
}

impl View for JobRun {
    type V = JobRunView;

    open spec fn view(&self) -> JobRunView {
        JobRunView {
            state: self.state,
            captured: self.captured@,
            progress: self.progress.deep_view(),
        }
    }
}

impl JobRunView {
    /// A run before the encoder was started.
    pub open spec fn initial() -> JobRunView {
        JobRunView { state: JobState::Pending, captured: Seq::empty(), progress: None }
    }

    /// Whether the run has come to its end.
    pub open spec fn is_over(self) -> bool {
        self.state == JobState::Succeeded || self.state is Failed
    }

    /// The run after `event`, and what the caller is to do, for a job that
    /// writes to `destination`.
    ///
    /// A pending run starts or fails to start. A running one takes lines,
    /// each of which is kept, and ends with the encoder: well, and nothing
    /// is written; or not, and all that was kept goes to the error log
    /// beside the destination. Any other event changes nothing.
    pub open spec fn step(self, destination: Seq<char>, event: JobEventView) -> (
        JobRunView,
        JobActionView,
    ) {
        match (self.state, event) {
            (JobState::Pending, JobEventView::Started) => (
                JobRunView { state: JobState::Running, ..self },
                JobActionView::Nothing,
            ),
            (JobState::Pending, JobEventView::SpawnFailed) => (
                JobRunView { state: JobState::Failed(EncodeFailure::Spawn), ..self },
                JobActionView::ReportSpawnFailure,
            ),
            (JobState::Running, JobEventView::Line(line)) => {
                let captured = self.captured + line + seq!['\n'];
                match progress_timestamp(line) {
                    Some(timestamp) => (
                        JobRunView { captured, progress: Some(timestamp), ..self },
                        JobActionView::ShowProgress(timestamp),
                    ),
                    None => (JobRunView { captured, ..self }, JobActionView::Nothing),
                }
            },
            (JobState::Running, JobEventView::Exited { success }) => if success {
                (JobRunView { state: JobState::Succeeded, ..self }, JobActionView::Nothing)
            } else {
                (
                    JobRunView { state: JobState::Failed(EncodeFailure::Exit), ..self },
                    JobActionView::WriteErrorLog {
                        path: destination + error_log_suffix(),
                        contents: self.captured,
                    },
                )
            },
            _ => (self, JobActionView::Nothing),
        }
    }

    /// The run after the lines of `lines` were taken one after the other.
    pub open spec fn after_lines(self, destination: Seq<char>, lines: Seq<Seq<char>>) -> JobRunView
        decreases lines.len(),
    {
        if lines.len() == 0 {
            self
        } else {
            self.after_lines(destination, lines.drop_last()).step(
                destination,
                JobEventView::Line(lines.last()),
            ).0
        }
    }
}

/// The lines of `lines`, each followed by a line feed.
pub open spec fn joined_lines(lines: Seq<Seq<char>>) -> Seq<char>
    decreases lines.len(),
{
    if lines.len() == 0 {
        Seq::empty()
    } else {
        joined_lines(lines.drop_last()) + lines.last() + seq!['\n']
    }
}

impl JobRun {
    /// A run before the encoder was started.
    pub fn new() -> (run: JobRun)
        ensures
            run@ == JobRunView::initial(),
    {
        JobRun { state: JobState::Pending, captured: String::new(), progress: None }
    }

    /// Takes note of `event` for a run of `job` and says what to do.
    pub fn step(&mut self, job: &EncodeJob, event: JobEvent) -> (action: JobAction)
        ensures
            (final(self)@, action@) == old(self)@.step(job.destination@, event@),
    {
        match event {
            JobEvent::Started => {
                if self.state == JobState::Pending {
                    self.state = JobState::Running;
                }
                JobAction::Nothing
            },
            JobEvent::SpawnFailed => {
                if self.state == JobState::Pending {
                    self.state = JobState::Failed(EncodeFailure::Spawn);
                    JobAction::ReportSpawnFailure
                } else {
                    JobAction::Nothing
                }
            },
            JobEvent::Line(line) => {
                if self.state == JobState::Running {
                    self.captured.append(line.as_str());
                    self.captured.push('\n');
                    assert(self.captured@ == old(self).captured@ + line@ + seq!['\n']);
                    match parse_progress(line.as_str()) {
                        Some(timestamp) => {
                            self.progress = Some(timestamp.clone());
                            JobAction::ShowProgress(timestamp)
                        },
                        None => JobAction::Nothing,
                    }
                } else {
                    JobAction::Nothing
                }
            },
            JobEvent::Exited { success } => {
                if self.state == JobState::Running {
                    if success {
                        self.state = JobState::Succeeded;
                        JobAction::Nothing
                    } else {
                        self.state = JobState::Failed(EncodeFailure::Exit);
                        JobAction::WriteErrorLog {
                            path: error_log_path(job.destination.as_str()),
                            contents: self.captured.clone(),
                        }
                    }
                } else {
                    JobAction::Nothing
                }
            },
        }
    }
}

/// A run that has come to its end stays as it is, whatever is reported to
/// it, and asks for nothing more.
pub proof fn lemma_ended_run_is_final(run: JobRunView, destination: Seq<char>, event: JobEventView)
    requires
        run.is_over(),
    ensures
        run.step(destination, event) == (run, JobActionView::Nothing),
{
}

/// A run never goes back: what was captured stays in front of what is
/// captured later, and a run that was started is never pending again.
pub proof fn lemma_captured_only_grows(run: JobRunView, destination: Seq<char>, event: JobEventView)
    ensures
        run.captured.is_prefix_of(run.step(destination, event).0.captured),
        run.state == JobState::Running ==> run.step(destination, event).0.state
            != JobState::Pending,
{
    let next = run.step(destination, event).0;
    if next.captured != run.captured {
        let line = event->Line_0;
        assert(next.captured == run.captured + (line + seq!['\n']));
    }
}

proof fn lemma_after_lines(run: JobRunView, destination: Seq<char>, lines: Seq<Seq<char>>)
    requires
        run.state == JobState::Running,
    ensures
        run.after_lines(destination, lines).state == JobState::Running,
        run.after_lines(destination, lines).captured == run.captured + joined_lines(lines),
    decreases lines.len(),
{
    if lines.len() == 0 {
        assert(run.captured + Seq::<char>::empty() == run.captured);
    } else {
        lemma_after_lines(run, destination, lines.drop_last());
        let before = run.after_lines(destination, lines.drop_last());
        let earlier = joined_lines(lines.drop_last());
        assert((run.captured + earlier) + lines.last() + seq!['\n'] == run.captured + (earlier
            + lines.last() + seq!['\n']));
    }
}

/// A job whose encoder starts, writes any lines and ends with a status other
/// than zero fails, and the log asked for is the file named after the
/// destination with `.error.log` behind it, holding every line that was
/// written. Where the encoder ends with status zero, the job succeeds and no
/// log is asked for.
pub proof fn lemma_failed_job_logs_everything(
    destination: Seq<char>,
    lines: Seq<Seq<char>>,
    success: bool,
)
    ensures
        ({
            let running = JobRunView::initial().step(destination, JobEventView::Started).0;
            let (end, action) = running.after_lines(destination, lines).step(
                destination,
                JobEventView::Exited { success },
            );
            if success {
                end.state == JobState::Succeeded && action == JobActionView::Nothing
            } else {
                end.state == JobState::Failed(EncodeFailure::Exit) && action
                    == JobActionView::WriteErrorLog {
                    path: destination + error_log_suffix(),
                    contents: joined_lines(lines),
                }
            }
        }),
{
    let running = JobRunView::initial().step(destination, JobEventView::Started).0;
    lemma_after_lines(running, destination, lines);
    assert(Seq::<char>::empty() + joined_lines(lines) == joined_lines(lines));
}

/// What the burn command works through: its jobs, the encoder's invocation
/// for each, and the pool that lets them run one at a time.
pub struct BurnPlan {
    /// The jobs, in the order in which they run.
    pub jobs: Vec<EncodeJob>,
    /// The invocation of the encoder for each job, by index.
    pub commands: Vec<EncoderCommand>,
    /// The pool over the jobs, by index.
    pub pool: Pool,
}

/// The invocations of the encoder for `jobs`, with the overlay set in
/// `font_file`.
pub open spec fn commands_for(jobs: Seq<EncodeJobView>, font_file: Seq<char>) -> Seq<
    EncoderCommandView,
> {
    jobs.map_values(
        |job: EncodeJobView|
            encoder_command(job.source, job.destination, job.overlay_text, font_file),
    )
}

/// Plans the batch that overlays credits on the clips of one video: the jobs
/// found in the listing of the video's directory `base_folder`, the
/// encoder's invocation for each with the overlay set in `font_file`, and a
/// pool that runs them strictly one after the other.
pub fn burn_multiline_text_batch(
    base_folder: &str,
    font_file: &str,
    creators: &Vec<CreatorEntry>,
) -> (plan: BurnPlan)
    ensures
        plan.jobs.deep_view() == jobs_of_creators(base_folder@, creators.deep_view()),
        plan.commands.deep_view() == commands_for(plan.jobs.deep_view(), font_file@),
        plan.pool.wf(),
        plan.pool@ == PoolView::initial(plan.jobs.len() as nat, 1),
{
    let jobs = collect_video_jobs(base_folder, creators);
    let mut commands: Vec<EncoderCommand> = Vec::new();
    let mut i: usize = 0;
    while i < jobs.len()
        invariant
            i <= jobs.len(),
            commands.len() == i,
            forall|k: int|
                0 <= k < i ==> (#[trigger] commands[k])@ == encoder_command(
                    jobs[k].source@,
                    jobs[k].destination@,
                    jobs[k].overlay_text@,
                    font_file@,
                ),
        decreases jobs.len() - i,
    {
        let command = build_encoder_command(
            jobs[i].source.as_str(),
            jobs[i].destination.as_str(),
            jobs[i].overlay_text.as_str(),
            font_file,
        );
        commands.push(command);
        i += 1;
    }
    let pool = Pool::sequential(jobs.len());
    proof {
        assert(commands.deep_view() =~= commands_for(jobs.deep_view(), font_file@));
    }
    BurnPlan { jobs, commands, pool }
}

} // verus!
