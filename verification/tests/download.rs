use clip_preparer::api::{Clip, ClipsResponse, Creator, FetchError};
use clip_preparer::config::{ApiConfig, Config, FsConfig};
use clip_preparer::download::{
    check_download_status, download_selected_files, info_text, plan_downloads, plan_task,
    ByteProgress, DownloadAction, DownloadEvent, DownloadFailure, DownloadRun, DownloadStage,
    DownloadTask,
};
use clip_preparer::pool::{PoolAction, PoolEvent, TaskState};

fn creator(name: &str, username: &str) -> Creator {
    Creator { id: format!("id-{}", username), name: String::from(name), username: String::from(username) }
}

fn clip(id: &str, url: &str, selected: bool, name: &str, username: &str) -> Clip {
    Clip {
        id: String::from(id),
        created_by_id: format!("id-{}", username),
        video_id: 123,
        url: String::from(url),
        title: format!("Clip {}", id),
        selected,
        created_at: String::from("2024-01-01T00:00:00Z"),
        creator: creator(name, username),
    }
}

fn config(out_dir: &str) -> Config {
    Config {
        api: ApiConfig { key: String::from("k") },
        fs: FsConfig { out_dir: String::from(out_dir), font_file: String::from("font.ttf") },
    }
}

#[test]
fn credit_text_is_name_and_username_on_two_lines() {
    assert_eq!(info_text(&creator("Jane Doe", "JaneDoe")), "Jane Doe\n@JaneDoe");
    assert_eq!(info_text(&creator("", "")), "\n@");
}

#[test]
fn task_of_one_clip() {
    let task = plan_task(
        "out",
        123,
        &clip("a", "https://cdn.example.com/clips/abc.mp4", true, "Jane Doe", "JaneDoe"),
    );
    assert_eq!(task.title, "Clip a");
    assert_eq!(task.source_url, "https://cdn.example.com/clips/abc.mp4");
    assert_eq!(task.directory, "out/123/jane_doe/video");
    assert_eq!(task.destination, "out/123/jane_doe/video/abc.mp4");
    assert_eq!(task.info_path, "out/123/jane_doe/info.txt");
    assert_eq!(task.info_text, "Jane Doe\n@JaneDoe");
}

#[test]
fn the_video_id_of_the_command_names_the_directory() {
    let mut other = clip("a", "https://cdn.example.com/abc.mp4", true, "Jane", "jane");
    other.video_id = 999;
    let task = plan_task("out", 5, &other);
    assert_eq!(task.destination, "out/5/jane/video/abc.mp4");
}

#[test]
fn one_selected_and_one_unselected_clip_give_one_task() {
    let clips = vec![
        clip("a", "https://cdn.example.com/clips/first.mp4", true, "Jane Doe", "JaneDoe"),
        clip("b", "https://cdn.example.com/clips/second.mp4", false, "John Roe", "JohnRoe"),
    ];
    let tasks = plan_downloads("out", 123, &clips);
    assert_eq!(tasks.len(), 1);
    assert_eq!(tasks[0].destination, "out/123/jane_doe/video/first.mp4");
    assert_eq!(tasks[0].info_path, "out/123/jane_doe/info.txt");
    assert_eq!(tasks[0].directory, "out/123/jane_doe/video");
    assert!(!tasks[0].destination.contains("john_roe"));
}

#[test]
fn tasks_follow_the_order_of_the_selected_clips() {
    let clips = vec![
        clip("a", "https://h.example/1.mp4", false, "A", "a"),
        clip("b", "https://h.example/2.mp4", true, "B", "b"),
        clip("c", "https://h.example/3.mp4", true, "C", "c"),
        clip("d", "https://h.example/4.mp4", false, "D", "d"),
        clip("e", "https://h.example/5.mp4", true, "B", "b"),
    ];
    let tasks = plan_downloads("out", 1, &clips);
    let destinations: Vec<&str> = tasks.iter().map(|t| t.destination.as_str()).collect();
    assert_eq!(
        destinations,
        vec!["out/1/b/video/2.mp4", "out/1/c/video/3.mp4", "out/1/b/video/5.mp4"]
    );
    assert_eq!(tasks[0].info_path, tasks[2].info_path);
}

#[test]
fn no_selected_clip_gives_no_task() {
    let clips = vec![
        clip("a", "https://h.example/1.mp4", false, "A", "a"),
        clip("b", "https://h.example/2.mp4", false, "B", "b"),
    ];
    assert!(plan_downloads("out", 1, &clips).is_empty());
    assert!(plan_downloads("out", 1, &Vec::new()).is_empty());
}

#[test]
fn a_failed_fetch_ends_the_command_with_its_error() {
    for error in [
        FetchError::Auth { status: 401 },
        FetchError::Remote { status: 500 },
        FetchError::Decode,
    ] {
        let out = download_selected_files(123, &config("out"), Err(error));
        assert_eq!(out.err(), Some(error));
    }
}

#[test]
fn a_fetched_list_gives_a_plan_over_its_selected_clips() {
    let response = ClipsResponse {
        clips: vec![
            clip("a", "https://h.example/1.mp4", true, "A", "a"),
            clip("b", "https://h.example/2.mp4", false, "B", "b"),
            clip("c", "https://h.example/3.mp4", true, "C", "c"),
            clip("d", "https://h.example/4.mp4", true, "D", "d"),
            clip("e", "https://h.example/5.mp4", true, "E", "e"),
        ],
    };
    let mut plan = download_selected_files(7, &config("/data"), Ok(response)).ok().unwrap();
    assert_eq!(plan.tasks.len(), 4);
    assert_eq!(plan.tasks[0].destination, "/data/7/a/video/1.mp4");
    assert_eq!(plan.pool.total(), 4);
    assert_eq!(plan.pool.limit(), 3);
    assert_eq!(plan.pool.in_flight(), 0);
    assert_eq!(plan.pool.step(PoolEvent::Poll), PoolAction::Start(0));
}

#[test]
fn the_command_ends_well_even_if_every_download_fails() {
    let response = ClipsResponse {
        clips: vec![
            clip("a", "https://h.example/1.mp4", true, "A", "a"),
            clip("b", "https://h.example/2.mp4", true, "B", "b"),
        ],
    };
    let out = download_selected_files(7, &config("out"), Ok(response));
    assert!(out.is_ok());
    let mut plan = out.ok().unwrap();
    assert_eq!(plan.pool.step(PoolEvent::Poll), PoolAction::Start(0));
    assert_eq!(plan.pool.step(PoolEvent::Poll), PoolAction::Start(1));
    assert_eq!(plan.pool.step(PoolEvent::Finished { task: 0, success: false }), PoolAction::Wait);
    assert_eq!(plan.pool.step(PoolEvent::Finished { task: 1, success: false }), PoolAction::Done);
    assert_eq!(plan.pool.failed(), 2);
    assert_eq!(plan.pool.succeeded(), 0);
}

#[test]
fn a_download_with_a_bad_status_fails_alone() {
    let response = ClipsResponse {
        clips: vec![
            clip("a", "https://h.example/1.mp4", true, "A", "a"),
            clip("b", "https://h.example/2.mp4", true, "B", "b"),
            clip("c", "https://h.example/3.mp4", true, "C", "c"),
        ],
    };
    let mut plan = download_selected_files(7, &config("out"), Ok(response)).ok().unwrap();
    plan.pool.step(PoolEvent::Poll);
    plan.pool.step(PoolEvent::Poll);
    plan.pool.step(PoolEvent::Poll);
    let verdict = check_download_status(404);
    assert_eq!(verdict, Err(DownloadFailure::Status(404)));
    plan.pool.step(PoolEvent::Finished { task: 1, success: verdict.is_ok() });
    plan.pool.step(PoolEvent::Finished { task: 0, success: check_download_status(200).is_ok() });
    plan.pool.step(PoolEvent::Finished { task: 2, success: check_download_status(206).is_ok() });
    assert_eq!(plan.pool.state(0), Some(TaskState::Succeeded));
    assert_eq!(plan.pool.state(1), Some(TaskState::Failed));
    assert_eq!(plan.pool.state(2), Some(TaskState::Succeeded));
    assert!(plan.pool.is_done());
}

#[test]
fn statuses_of_a_download() {
    assert_eq!(check_download_status(200), Ok(()));
    assert_eq!(check_download_status(299), Ok(()));
    assert_eq!(check_download_status(199), Err(DownloadFailure::Status(199)));
    assert_eq!(check_download_status(300), Err(DownloadFailure::Status(300)));
    assert_eq!(check_download_status(403), Err(DownloadFailure::Status(403)));
    assert_eq!(check_download_status(500), Err(DownloadFailure::Status(500)));
    assert_eq!(check_download_status(0), Err(DownloadFailure::Status(0)));
}

#[test]
fn byte_progress_starts_empty() {
    let progress = ByteProgress::new();
    assert_eq!(progress, ByteProgress { received: 0, declared: None, finished: false });
}

#[test]
fn byte_progress_counts_chunks_and_never_goes_down() {
    let mut progress = ByteProgress::new();
    progress.declare(10);
    let mut last = 0;
    for chunk in [0u64, 3, 0, 4, 3] {
        progress.advance(chunk);
        assert!(progress.received >= last);
        last = progress.received;
    }
    assert_eq!(progress.received, 10);
    assert!(!progress.finished);
    progress.finish();
    assert_eq!(progress, ByteProgress { received: 10, declared: Some(10), finished: true });
}

#[test]
fn a_finished_download_shows_the_declared_length() {
    let mut progress = ByteProgress::new();
    progress.declare(1000);
    progress.advance(400);
    progress.finish();
    assert_eq!(progress.received, 1000);
    assert!(progress.finished);
}

#[test]
fn a_finished_download_without_a_declared_length_keeps_its_count() {
    let mut progress = ByteProgress::new();
    progress.advance(400);
    progress.advance(1);
    progress.finish();
    assert_eq!(progress, ByteProgress { received: 401, declared: None, finished: true });
}

#[test]
fn byte_progress_stops_at_the_largest_count() {
    let mut progress = ByteProgress::new();
    progress.advance(u64::MAX - 1);
    progress.advance(5);
    assert_eq!(progress.received, u64::MAX);
    progress.advance(1);
    assert_eq!(progress.received, u64::MAX);
}

fn a_task() -> DownloadTask {
    plan_task(
        "out",
        123,
        &clip("a", "https://cdn.example.com/clips/abc.mp4", true, "Jane Doe", "JaneDoe"),
    )
}

#[test]
fn a_download_goes_through_its_steps_in_order() {
    let task = a_task();
    let mut run = DownloadRun::new();
    assert_eq!(run.stage, DownloadStage::Pending);
    match run.step(&task, DownloadEvent::Begin) {
        DownloadAction::CreateDirectory(path) => assert_eq!(path, "out/123/jane_doe/video"),
        _ => panic!("the directory comes first"),
    }
    match run.step(&task, DownloadEvent::DirectoryReady) {
        DownloadAction::WriteInfo { path, text } => {
            assert_eq!(path, "out/123/jane_doe/info.txt");
            assert_eq!(text, "Jane Doe\n@JaneDoe");
        }
        _ => panic!("the credit file comes second"),
    }
    match run.step(&task, DownloadEvent::InfoWritten) {
        DownloadAction::SendRequest(url) => {
            assert_eq!(url, "https://cdn.example.com/clips/abc.mp4")
        }
        _ => panic!("the request comes third"),
    }
    match run.step(&task, DownloadEvent::Responded { status: 200, length: Some(10) }) {
        DownloadAction::CreateFile(path) => assert_eq!(path, "out/123/jane_doe/video/abc.mp4"),
        _ => panic!("the file comes after a success"),
    }
    assert_eq!(run.progress.declared, Some(10));
    assert!(matches!(run.step(&task, DownloadEvent::FileCreated), DownloadAction::ReadChunk));
    assert!(matches!(run.step(&task, DownloadEvent::Chunk { bytes: 4 }), DownloadAction::ReadChunk));
    assert_eq!(run.progress.received, 4);
    assert!(matches!(run.step(&task, DownloadEvent::Chunk { bytes: 6 }), DownloadAction::ReadChunk));
    assert_eq!(run.progress.received, 10);
    assert!(matches!(run.step(&task, DownloadEvent::BodyEnded), DownloadAction::ReportSaved));
    assert_eq!(run.stage, DownloadStage::Saved);
    assert_eq!(run.progress, ByteProgress { received: 10, declared: Some(10), finished: true });
}

#[test]
fn a_refused_download_creates_no_file() {
    let task = a_task();
    let mut run = DownloadRun::new();
    run.step(&task, DownloadEvent::Begin);
    run.step(&task, DownloadEvent::DirectoryReady);
    run.step(&task, DownloadEvent::InfoWritten);
    match run.step(&task, DownloadEvent::Responded { status: 404, length: Some(10) }) {
        DownloadAction::ReportFailure(failure) => assert_eq!(failure, DownloadFailure::Status(404)),
        _ => panic!("a refused download fails"),
    }
    assert_eq!(run.stage, DownloadStage::Failed(DownloadFailure::Status(404)));
    for event in [
        DownloadEvent::FileCreated,
        DownloadEvent::Chunk { bytes: 5 },
        DownloadEvent::BodyEnded,
        DownloadEvent::Responded { status: 200, length: None },
        DownloadEvent::Broke(DownloadFailure::Network),
        DownloadEvent::Begin,
    ] {
        assert!(matches!(run.step(&task, event), DownloadAction::Nothing));
        assert_eq!(run.stage, DownloadStage::Failed(DownloadFailure::Status(404)));
    }
    assert_eq!(run.progress.received, 0);
}

#[test]
fn a_step_that_breaks_fails_the_download() {
    let task = a_task();
    let mut run = DownloadRun::new();
    run.step(&task, DownloadEvent::Begin);
    match run.step(&task, DownloadEvent::Broke(DownloadFailure::Filesystem)) {
        DownloadAction::ReportFailure(failure) => assert_eq!(failure, DownloadFailure::Filesystem),
        _ => panic!("a broken step fails the download"),
    }
    assert_eq!(run.stage, DownloadStage::Failed(DownloadFailure::Filesystem));

    let mut streaming = DownloadRun::new();
    streaming.step(&task, DownloadEvent::Begin);
    streaming.step(&task, DownloadEvent::DirectoryReady);
    streaming.step(&task, DownloadEvent::InfoWritten);
    streaming.step(&task, DownloadEvent::Responded { status: 200, length: None });
    streaming.step(&task, DownloadEvent::FileCreated);
    streaming.step(&task, DownloadEvent::Chunk { bytes: 7 });
    match streaming.step(&task, DownloadEvent::Broke(DownloadFailure::Network)) {
        DownloadAction::ReportFailure(failure) => assert_eq!(failure, DownloadFailure::Network),
        _ => panic!("a broken transfer fails the download"),
    }
    assert_eq!(streaming.stage, DownloadStage::Failed(DownloadFailure::Network));
    assert_eq!(streaming.progress.received, 7);
}

#[test]
fn events_that_do_not_belong_to_the_stage_change_nothing() {
    let task = a_task();
    let mut run = DownloadRun::new();
    for event in [
        DownloadEvent::DirectoryReady,
        DownloadEvent::InfoWritten,
        DownloadEvent::Responded { status: 200, length: None },
        DownloadEvent::FileCreated,
        DownloadEvent::Chunk { bytes: 1 },
        DownloadEvent::BodyEnded,
        DownloadEvent::Broke(DownloadFailure::Network),
    ] {
        assert!(matches!(run.step(&task, event), DownloadAction::Nothing));
        assert_eq!(run, DownloadRun { stage: DownloadStage::Pending, progress: ByteProgress::new() });
    }
    run.step(&task, DownloadEvent::Begin);
    assert!(matches!(run.step(&task, DownloadEvent::Begin), DownloadAction::Nothing));
    assert!(matches!(run.step(&task, DownloadEvent::Chunk { bytes: 1 }), DownloadAction::Nothing));
    assert_eq!(run.stage, DownloadStage::MakingDirectory);
    assert_eq!(run.progress.received, 0);
}

#[test]
fn a_download_without_a_declared_length_keeps_its_count_when_saved() {
    let task = a_task();
    let mut run = DownloadRun::new();
    run.step(&task, DownloadEvent::Begin);
    run.step(&task, DownloadEvent::DirectoryReady);
    run.step(&task, DownloadEvent::InfoWritten);
    run.step(&task, DownloadEvent::Responded { status: 206, length: None });
    run.step(&task, DownloadEvent::FileCreated);
    run.step(&task, DownloadEvent::Chunk { bytes: 3 });
    run.step(&task, DownloadEvent::Chunk { bytes: 0 });
    run.step(&task, DownloadEvent::Chunk { bytes: 2 });
    assert!(matches!(run.step(&task, DownloadEvent::BodyEnded), DownloadAction::ReportSaved));
    assert_eq!(run.progress, ByteProgress { received: 5, declared: None, finished: true });
}
