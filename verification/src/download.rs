//! The download command: which clips are downloaded and where to, how the
//! bytes of one download are counted, and what a fetched clip list leads to.

use vstd::prelude::*;
use crate::api::{is_success, Clip, ClipView, ClipsResponse, Creator, CreatorView, FetchError};
use crate::config::Config;
use crate::layout::{
    destination_filename,
    file_name_from,
    info_path,
    join_path,
    joined,
    normalize_creator,
    snake_case,
    spec_destination_path,
    spec_info_path,
    spec_video_dir,
    url_path_segments,
    video_dir,
};
use crate::pool::{Pool, PoolView, MAX_CONCURRENT_DOWNLOADS};

verus! {

/// One clip to download.
pub struct DownloadTask {
    /// The clip's title, for reports.
    pub title: String,
    /// Where the clip is fetched from.
    pub source_url: String,
    /// The directory that receives the file.
    pub directory: String,
    /// The file that receives the clip.
    pub destination: String,
    /// The file that receives the creator's credit text.
    pub info_path: String,
    /// The creator's credit text.
    pub info_text: String,
}

/// A download task as plain text.
pub struct DownloadTaskView {
    pub title: Seq<char>,
    pub source_url: Seq<char>,
    pub directory: Seq<char>,
    pub destination: Seq<char>,
    pub info_path: Seq<char>,
    pub info_text: Seq<char>,
}

impl View for DownloadTask {
    type V = DownloadTaskView;

    open spec fn view(&self) -> DownloadTaskView {
        DownloadTaskView {
            title: self.title@,
            source_url: self.source_url@,
            directory: self.directory@,
            destination: self.destination@,
            info_path: self.info_path@,
            info_text: self.info_text@,
        }
    }
}

impl DeepView for DownloadTask {
    type V = DownloadTaskView;

    open spec fn deep_view(&self) -> DownloadTaskView {
        self@
    }
}

/// The credit text of a creator: the display name, and on a second line the
/// username behind an `@`.
pub open spec fn credit_text(creator: CreatorView) -> Seq<char> {
    creator.name + "\n@"@ + creator.username
}

/// The task that downloads `clip` as part of video `video_id` below `root`.
pub open spec fn task_for(root: Seq<char>, video_id: int, clip: ClipView) -> DownloadTaskView {
    let creator = snake_case(clip.creator.username);
    let directory = spec_video_dir(root, video_id, creator);
    DownloadTaskView {
        title: clip.title,
        source_url: clip.url,
        directory,
        destination: joined(directory, file_name_from(url_path_segments(clip.url))),
        info_path: spec_info_path(root, video_id, creator),
        info_text: credit_text(clip.creator),
    }
}

/// The clips that were chosen for download, in their order.
pub open spec fn selected_clips(clips: Seq<ClipView>) -> Seq<ClipView> {
    clips.filter(|clip: ClipView| clip.selected)
}

/// The tasks of a download: one for each selected clip, in the clips' order,
/// and none for any other clip.
pub open spec fn planned_tasks(root: Seq<char>, video_id: int, clips: Seq<ClipView>) -> Seq<
    DownloadTaskView,
> {
    selected_clips(clips).map_values(|clip: ClipView| task_for(root, video_id, clip))
}

/// Writes the credit text of a creator.
pub fn info_text(creator: &Creator) -> (out: String)
    ensures
        out@ == credit_text(creator@),
{
    let mut out = creator.name.clone();
    out.append("\n@");
    out.append(creator.username.as_str());
    out
}

/// Plans the download of one clip.
pub fn plan_task(root: &str, video_id: i32, clip: &Clip) -> (out: DownloadTask)
    ensures
        out@ == task_for(root@, video_id as int, clip@),
{
    let creator = normalize_creator(clip.creator.username.as_str());
    let directory = video_dir(root, video_id, creator.as_str());
    let name = destination_filename(clip.url.as_str());
    let destination = join_path(directory.as_str(), name.as_str());
    DownloadTask {
        title: clip.title.clone(),
        source_url: clip.url.clone(),
        directory,
        destination,
        info_path: info_path(root, video_id, creator.as_str()),
        info_text: info_text(&clip.creator),
    }
}

/// Plans the downloads of a video: a task for each clip that is selected, in
/// the order of the clips. A clip that is not selected gets no task, and so
/// neither a file nor a directory.
pub fn plan_downloads(root: &str, video_id: i32, clips: &Vec<Clip>) -> (tasks: Vec<DownloadTask>)
    ensures
        tasks.deep_view() == planned_tasks(root@, video_id as int, clips.deep_view()),
{
    let mut tasks: Vec<DownloadTask> = Vec::new();
    let ghost all = clips.deep_view();
    proof {
        reveal(Seq::filter);
        assert(all.take(0) == Seq::<ClipView>::empty());
        assert(tasks.deep_view() == planned_tasks(root@, video_id as int, all.take(0)));
    }
    let mut i: usize = 0;
    while i < clips.len()
        invariant
            i <= clips.len(),
            all == clips.deep_view(),
            tasks.deep_view() == planned_tasks(root@, video_id as int, all.take(i as int)),
        decreases clips.len() - i,
    {
        proof {
            reveal(Seq::filter);
            let seen = all.take(i as int + 1);
            assert(seen.drop_last() == all.take(i as int));
            assert(seen.last() == clips[i as int]@);
        }
        let ghost before = tasks.deep_view();
        if clips[i].selected {
            let task = plan_task(root, video_id, &clips[i]);
            tasks.push(task);
            proof {
                assert(tasks.deep_view() == before.push(task@));
                let chosen = selected_clips(all.take(i as int));
                let make = |clip: ClipView| task_for(root@, video_id as int, clip);
                assert(chosen.push(clips[i as int]@).map_values(make) == chosen.map_values(
                    make,
                ).push(make(clips[i as int]@)));
            }
        }
        i += 1;
    }
    proof {
        assert(all.take(clips.len() as int) == all);
    }
    tasks
}

/// The selected clips and the planned tasks correspond one to one: there are
/// as many tasks as selected clips, the task at each position is that of the
/// selected clip at the same position, every clip behind a task is selected,
/// and every selected clip of the list is behind a task.
pub proof fn lemma_tasks_are_the_selected_clips(
    root: Seq<char>,
    video_id: int,
    clips: Seq<ClipView>,
)
    ensures
        planned_tasks(root, video_id, clips).len() == selected_clips(clips).len(),
        selected_clips(clips).len() <= clips.len(),
        forall|j: int|
            0 <= j < selected_clips(clips).len() ==> (#[trigger] selected_clips(clips)[j]).selected
                && clips.contains(selected_clips(clips)[j]) && planned_tasks(
                root,
                video_id,
                clips,
            )[j] == task_for(root, video_id, selected_clips(clips)[j]),
        forall|i: int|
            0 <= i < clips.len() && (#[trigger] clips[i]).selected ==> selected_clips(
                clips,
            ).contains(clips[i]),
{
    let chosen = |clip: ClipView| clip.selected;
    clips.lemma_filter_len(chosen);
    assert forall|j: int| 0 <= j < selected_clips(clips).len() implies (#[trigger] selected_clips(
        clips,
    )[j]).selected && clips.contains(selected_clips(clips)[j]) by {
        clips.lemma_filter_pred(chosen, j);
        clips.lemma_filter_contains_rev(chosen, selected_clips(clips)[j]);
    }
    assert forall|i: int| 0 <= i < clips.len() && (#[trigger] clips[i]).selected implies selected_clips(
        clips,
    ).contains(clips[i]) by {
        clips.lemma_filter_contains(chosen, i);
    }
}

/// Where a clip is stored depends on nothing but the output root, the video,
/// the creator's username and the clip's URL: two clips that agree in
/// username and URL get the same destination, whatever else they hold.
pub proof fn lemma_destination_depends_on_username_and_url(
    root: Seq<char>,
    video_id: int,
    first: ClipView,
    second: ClipView,
)
    requires
        first.creator.username == second.creator.username,
        first.url == second.url,
    ensures
        task_for(root, video_id, first).destination == task_for(root, video_id, second).destination,
        task_for(root, video_id, first).destination == spec_destination_path(
            root,
            video_id,
            first.creator.username,
            first.url,
        ),
{
}

/// Two clips of one creator share the creator's credit file: their tasks
/// name the same file and write the same text to it.
pub proof fn lemma_one_info_file_per_creator(
    root: Seq<char>,
    video_id: int,
    first: ClipView,
    second: ClipView,
)
    requires
        first.creator == second.creator,
    ensures
        task_for(root, video_id, first).info_path == task_for(root, video_id, second).info_path,
        task_for(root, video_id, first).info_text == task_for(root, video_id, second).info_text,
        task_for(root, video_id, first).directory == task_for(root, video_id, second).directory,
{
}

/// Why a download failed.
#[derive(Clone, Copy, PartialEq, Eq, Structural, Debug)]
pub enum DownloadFailure {
    /// The server answered with this status, which is outside 200 to 299.
    Status(u16),
    /// The transfer broke.
    Network,
    /// A directory or file could not be made or written.
    Filesystem,
}

/// Judges the status of a download's response: any status outside 200 to 299
/// fails the task.
pub fn check_download_status(status: u16) -> (out: Result<(), DownloadFailure>)
    ensures
        out == if is_success(status) {
            Ok::<(), DownloadFailure>(())
        } else {
            Err::<(), DownloadFailure>(DownloadFailure::Status(status))
        },
{
    if 200 <= status && status <= 299 {
        Ok(())
    } else {
        Err(DownloadFailure::Status(status))
    }
}

/// The bytes of one download: how many have arrived, how many the server
/// said there would be, and whether the download is complete.
#[derive(Clone, Copy, PartialEq, Eq, Structural, Debug)]
pub struct ByteProgress {
    /// The bytes counted so far.
    pub received: u64,
    /// The length that the server declared, if it declared one.
    pub declared: Option<u64>,
    /// Whether the download was completed.
    pub finished: bool,
}

/// The count after `bytes` more bytes: the sum, or the largest count there
/// is where the sum is beyond it.
pub open spec fn advanced(received: u64, bytes: u64) -> u64 {
    if received + bytes > u64::MAX {
        u64::MAX
    } else {
        (received + bytes) as u64
    }
}

/// The count after the chunks of `sizes` arrived one after the other.
pub open spec fn after_chunks(received: u64, sizes: Seq<u64>) -> u64
    decreases sizes.len(),
{
    if sizes.len() == 0 {
        received
    } else {
        advanced(after_chunks(received, sizes.drop_last()), sizes.last())
    }
}

/// The count shown for a completed download: the declared length where one
/// was declared, else the bytes counted.
pub open spec fn completed_count(received: u64, declared: Option<u64>) -> u64 {
    match declared {
        Some(length) => length,
        None => received,
    }
}

impl ByteProgress {
    /// The progress of a download that has not received anything yet.
    pub fn new() -> (out: ByteProgress)
        ensures
            out == (ByteProgress { received: 0, declared: None, finished: false }),
    {
        ByteProgress { received: 0, declared: None, finished: false }
    }

    /// Takes note of the length that the server declared.
    pub fn declare(&mut self, length: u64)
        ensures
            *final(self) == (ByteProgress { declared: Some(length), ..*old(self) }),
    {
        self.declared = Some(length);
    }

    /// Counts a chunk of `bytes` bytes. The count never goes down.
    pub fn advance(&mut self, bytes: u64)
        ensures
            *final(self) == (ByteProgress {
                received: advanced(old(self).received, bytes),
                ..*old(self)
            }),
            final(self).received >= old(self).received,
    {
        self.received = self.received.saturating_add(bytes);
    }

    /// Completes the download: where a length was declared, the count is set
    /// to it.
    pub fn finish(&mut self)
        ensures
            *final(self) == (ByteProgress {
                received: completed_count(old(self).received, old(self).declared),
                finished: true,
                ..*old(self)
            }),
    {
        match self.declared {
            Some(length) => {
                self.received = length;
            },
            None => {},
        }
        self.finished = true;
    }
}

/// While chunks arrive, the count of a download never goes down: after any
/// number of the chunks it is at most what it is after all of them.
pub proof fn lemma_bytes_never_decrease(received: u64, sizes: Seq<u64>, earlier: int)
    requires
        0 <= earlier <= sizes.len(),
    ensures
        received <= after_chunks(received, sizes.take(earlier)) <= after_chunks(received, sizes),
    decreases sizes.len(),
{
    if earlier == sizes.len() {
        assert(sizes.take(earlier) == sizes);
        if sizes.len() > 0 {
            assert(sizes.drop_last() == sizes.drop_last().take(sizes.len() - 1));
            lemma_bytes_never_decrease(received, sizes.drop_last(), sizes.len() - 1);
        }
    } else {
        assert(sizes.drop_last().take(earlier) == sizes.take(earlier));
        lemma_bytes_never_decrease(received, sizes.drop_last(), earlier);
    }
}

/// A completed download whose server declared a length shows that length.
/// Completing does not lower the count either, as long as no more bytes
/// arrived than were declared.
pub proof fn lemma_completed_count_is_declared_length(sizes: Seq<u64>, length: u64)
    ensures
        completed_count(after_chunks(0, sizes), Some(length)) == length,
        after_chunks(0, sizes) <= length ==> completed_count(after_chunks(0, sizes), Some(length))
            >= after_chunks(0, sizes),
{
}

/// Where one download stands.
#[derive(Clone, Copy, PartialEq, Eq, Structural, Debug)]
pub enum DownloadStage {
    /// Nothing was done yet.
    Pending,
    /// The destination directory is being made.
    MakingDirectory,
    /// The creator's credit file is being written.
    WritingInfo,
    /// The clip was asked for; the answer is awaited.
    Requesting,
    /// The answer was a success; the destination file is being created.
    CreatingFile,
    /// The body is being written to the destination file.
    Streaming,
    /// The whole body was written.
    Saved,
    /// The download failed.
    Failed(DownloadFailure),
}

/// What happens to a download.
#[derive(Clone, Copy, PartialEq, Eq, Structural, Debug)]
pub enum DownloadEvent {
    /// The download is to begin.
    Begin,
    /// The destination directory exists.
    DirectoryReady,
    /// The credit file was written.
    InfoWritten,
    /// The server answered with this status and, if it declared one, this
    /// length of the body.
    Responded { status: u16, length: Option<u64> },
    /// The destination file was created.
    FileCreated,
    /// A chunk of this many bytes arrived and was written to the file.
    Chunk { bytes: u64 },
    /// The body has ended.
    BodyEnded,
    /// The step that was asked for failed.
    Broke(DownloadFailure),
}

/// What the caller is to do next for a download.
pub enum DownloadAction {
    /// Nothing.
    Nothing,
    /// Make this directory and all above it; it may exist already.
    CreateDirectory(String),
    /// Write `text` to the file `path`, replacing what it holds.
    WriteInfo { path: String, text: String },
    /// Send a `GET` for this URL.
    SendRequest(String),
    /// Create this file, replacing what it holds.
    CreateFile(String),
    /// Read the next chunk of the body and write it to the file.
    ReadChunk,
    /// The download is complete; report it as saved.
    ReportSaved,
    /// The download failed; report why. Nothing more is done for it.
    ReportFailure(DownloadFailure),
}

/// An action as plain values.
pub enum DownloadActionView {
    Nothing,
    CreateDirectory(Seq<char>),
    WriteInfo { path: Seq<char>, text: Seq<char> },
    SendRequest(Seq<char>),
    CreateFile(Seq<char>),
    ReadChunk,
    ReportSaved,
    ReportFailure(DownloadFailure),
}

impl View for DownloadAction {
    type V = DownloadActionView;

    open spec fn view(&self) -> DownloadActionView {
        match self {
            DownloadAction::Nothing => DownloadActionView::Nothing,
            DownloadAction::CreateDirectory(path) => DownloadActionView::CreateDirectory(path@),
            DownloadAction::WriteInfo { path, text } => DownloadActionView::WriteInfo {
                path: path@,
                text: text@,
            },
            DownloadAction::SendRequest(url) => DownloadActionView::SendRequest(url@),
            DownloadAction::CreateFile(path) => DownloadActionView::CreateFile(path@),
            DownloadAction::ReadChunk => DownloadActionView::ReadChunk,
            DownloadAction::ReportSaved => DownloadActionView::ReportSaved,
            DownloadAction::ReportFailure(failure) => DownloadActionView::ReportFailure(*failure),
        }
    }
}

/// One attempt to download a clip: its stage and its count of bytes.
#[derive(Clone, Copy, PartialEq, Eq, Structural, Debug)]
pub struct DownloadRun {
    /// Where the download stands.
    pub stage: DownloadStage,
    /// The bytes of the body.
    pub progress: ByteProgress,
}

impl DownloadRun {
    /// An attempt of which nothing was done yet.
    pub open spec fn initial() -> DownloadRun {
        DownloadRun {
            stage: DownloadStage::Pending,
            progress: ByteProgress { received: 0, declared: None, finished: false },
        }
    }

    /// Whether the attempt has come to its end, well or not.
    pub open spec fn is_over(self) -> bool {
        self.stage == DownloadStage::Saved || self.stage is Failed
    }

    /// The attempt after `event`, and what the caller is to do, for the
    /// download `task`.
    ///
    /// The steps follow one another: directory, credit file, request,
    /// destination file, body. The destination file is created only after
    /// the server answered with a success. A step that breaks, or an answer
    /// that is no success, fails the attempt. An event that does not belong
    /// to the stage changes nothing.
    pub open spec fn next(self, task: DownloadTaskView, event: DownloadEvent) -> (
        DownloadRun,
        DownloadActionView,
    ) {
        match (self.stage, event) {
            (DownloadStage::Pending, DownloadEvent::Begin) => (
                DownloadRun { stage: DownloadStage::MakingDirectory, ..self },
                DownloadActionView::CreateDirectory(task.directory),
            ),
            (DownloadStage::MakingDirectory, DownloadEvent::DirectoryReady) => (
                DownloadRun { stage: DownloadStage::WritingInfo, ..self },
                DownloadActionView::WriteInfo { path: task.info_path, text: task.info_text },
            ),
            (DownloadStage::WritingInfo, DownloadEvent::InfoWritten) => (
                DownloadRun { stage: DownloadStage::Requesting, ..self },
                DownloadActionView::SendRequest(task.source_url),
            ),
            (DownloadStage::Requesting, DownloadEvent::Responded { status, length }) => if is_success(
                status,
            ) {
                (
                    DownloadRun {
                        stage: DownloadStage::CreatingFile,
                        progress: ByteProgress { declared: length, ..self.progress },
                    },
                    DownloadActionView::CreateFile(task.destination),
                )
            } else {
                (
                    DownloadRun {
                        stage: DownloadStage::Failed(DownloadFailure::Status(status)),
                        ..self
                    },
                    DownloadActionView::ReportFailure(DownloadFailure::Status(status)),
                )
            },
            (DownloadStage::CreatingFile, DownloadEvent::FileCreated) => (
                DownloadRun { stage: DownloadStage::Streaming, ..self },
                DownloadActionView::ReadChunk,
            ),
            (DownloadStage::Streaming, DownloadEvent::Chunk { bytes }) => (
                DownloadRun {
                    progress: ByteProgress {
                        received: advanced(self.progress.received, bytes),
                        ..self.progress
                    },
                    ..self
                },
                DownloadActionView::ReadChunk,
            ),
            (DownloadStage::Streaming, DownloadEvent::BodyEnded) => (
                DownloadRun {
                    stage: DownloadStage::Saved,
                    progress: ByteProgress {
                        received: completed_count(self.progress.received, self.progress.declared),
                        finished: true,
                        ..self.progress
                    },
                },
                DownloadActionView::ReportSaved,
            ),
            (_, DownloadEvent::Broke(failure)) => if self.is_over() || self.stage
                == DownloadStage::Pending {
                (self, DownloadActionView::Nothing)
            } else {
                (
                    DownloadRun { stage: DownloadStage::Failed(failure), ..self },
                    DownloadActionView::ReportFailure(failure),
                )
            },
            _ => (self, DownloadActionView::Nothing),
        }
    }

    /// An attempt of which nothing was done yet.
    pub fn new() -> (run: DownloadRun)
        ensures
            run == DownloadRun::initial(),
    {
        DownloadRun { stage: DownloadStage::Pending, progress: ByteProgress::new() }
    }

    /// Takes note of `event` for the download `task` and says what to do next.
    pub fn step(&mut self, task: &DownloadTask, event: DownloadEvent) -> (action: DownloadAction)
        ensures
            (*final(self), action@) == old(self).next(task@, event),
    {
        match event {
            DownloadEvent::Begin => {
                if self.stage == DownloadStage::Pending {
                    self.stage = DownloadStage::MakingDirectory;
                    return DownloadAction::CreateDirectory(task.directory.clone());
                }
            },
            DownloadEvent::DirectoryReady => {
                if self.stage == DownloadStage::MakingDirectory {
                    self.stage = DownloadStage::WritingInfo;
                    return DownloadAction::WriteInfo {
                        path: task.info_path.clone(),
                        text: task.info_text.clone(),
                    };
                }
            },
            DownloadEvent::InfoWritten => {
                if self.stage == DownloadStage::WritingInfo {
                    self.stage = DownloadStage::Requesting;
                    return DownloadAction::SendRequest(task.source_url.clone());
                }
            },
            DownloadEvent::Responded { status, length } => {
                if self.stage == DownloadStage::Requesting {
                    match check_download_status(status) {
                        Ok(()) => {
                            self.stage = DownloadStage::CreatingFile;
                            self.progress.declared = length;
                            return DownloadAction::CreateFile(task.destination.clone());
                        },
                        Err(failure) => {
                            self.stage = DownloadStage::Failed(failure);
                            return DownloadAction::ReportFailure(failure);
                        },
                    }
                }
            },
            DownloadEvent::FileCreated => {
                if self.stage == DownloadStage::CreatingFile {
                    self.stage = DownloadStage::Streaming;
                    return DownloadAction::ReadChunk;
                }
            },
            DownloadEvent::Chunk { bytes } => {
                if self.stage == DownloadStage::Streaming {
                    self.progress.advance(bytes);
                    return DownloadAction::ReadChunk;
                }
            },
            DownloadEvent::BodyEnded => {
                if self.stage == DownloadStage::Streaming {
                    self.progress.finish();
                    self.stage = DownloadStage::Saved;
                    return DownloadAction::ReportSaved;
                }
            },
            DownloadEvent::Broke(failure) => {
                match self.stage {
                    DownloadStage::Pending | DownloadStage::Saved | DownloadStage::Failed(_) => {},
                    _ => {
                        self.stage = DownloadStage::Failed(failure);
                        return DownloadAction::ReportFailure(failure);
                    },
                }
            },
        }
        DownloadAction::Nothing
    }
}

/// The destination file is created only for a download whose server answered
/// with a success: a download that is refused leaves no file behind, not even
/// an empty one.
pub proof fn lemma_file_only_after_success(
    run: DownloadRun,
    task: DownloadTaskView,
    event: DownloadEvent,
)
    ensures
        run.next(task, event).1 is CreateFile ==> run.stage == DownloadStage::Requesting
            && event is Responded && is_success(event->status),
        run.next(task, event).0.stage == DownloadStage::CreatingFile ==> run.stage
            == DownloadStage::CreatingFile || run.next(task, event).1 is CreateFile,
        run.next(task, event).0.stage == DownloadStage::Streaming ==> run.stage
            == DownloadStage::Streaming || run.stage == DownloadStage::CreatingFile,
{
}

/// A download that has come to its end stays as it is, whatever is reported
/// to it, and asks for nothing more.
pub proof fn lemma_ended_download_is_final(
    run: DownloadRun,
    task: DownloadTaskView,
    event: DownloadEvent,
)
    requires
        run.is_over(),
    ensures
        run.next(task, event) == (run, DownloadActionView::Nothing),
{
}

/// The count of a download's bytes goes up or stays with every step but the
/// one that completes it, and with that one too unless more bytes arrived
/// than were declared. A completed download with a declared length shows
/// that length.
pub proof fn lemma_download_progress(run: DownloadRun, task: DownloadTaskView, event: DownloadEvent)
    ensures
        ({
            let next = run.next(task, event).0;
            &&& !(run.stage == DownloadStage::Streaming && event is BodyEnded)
                ==> next.progress.received >= run.progress.received
            &&& run.stage == DownloadStage::Streaming && event is BodyEnded ==> {
                &&& next.stage == DownloadStage::Saved
                &&& next.progress.finished
                &&& run.progress.declared is Some ==> next.progress.received
                    == run.progress.declared->0
                &&& run.progress.declared is None ==> next.progress.received
                    == run.progress.received
            }
        }),
{
}

/// What the download command works through: its tasks, and the pool that
/// says which of them may run.
pub struct DownloadPlan {
    /// The tasks, one for each selected clip.
    pub tasks: Vec<DownloadTask>,
    /// The pool over the tasks, by index.
    pub pool: Pool,
}

/// Turns what the metadata service returned for video `video_id` into the
/// plan of the download. An error of the fetch ends the command and is
/// handed on as it is. A fetched list always gives a plan, whatever becomes
/// of its tasks later: the tasks for the selected clips below the configured
/// output directory, and a pool over them that lets three run at once.
pub fn download_selected_files(
    video_id: i32,
    config: &Config,
    fetched: Result<ClipsResponse, FetchError>,
) -> (out: Result<DownloadPlan, FetchError>)
    ensures
        match fetched {
            Ok(response) => out matches Ok(plan) && plan.tasks.deep_view() == planned_tasks(
                config.fs.out_dir@,
                video_id as int,
                response@,
            ) && plan.pool.wf() && plan.pool@ == PoolView::initial(
                plan.tasks.len() as nat,
                MAX_CONCURRENT_DOWNLOADS as nat,
            ),
            Err(error) => out matches Err(same) && same == error,
        },
{
    match fetched {
        Ok(response) => {
            let tasks = plan_downloads(config.fs.out_dir.as_str(), video_id, &response.clips);
            let pool = Pool::for_downloads(tasks.len());
            Ok(DownloadPlan { tasks, pool })
        },
        Err(error) => Err(error),
    }
}

} // verus!
