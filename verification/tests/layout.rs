use clip_preparer::layout::{
    burned_dir, burned_path, creator_dir, destination_filename, destination_path, error_log_path,
    file_name_from_segments, info_path, is_burned_dir, join_path, normalize_creator, video_dir,
    video_root,
};

#[test]
fn creator_names_become_snake_case() {
    assert_eq!(normalize_creator("My variable NAME"), "my_variable_name");
    assert_eq!(normalize_creator("JaneDoe"), "jane_doe");
    assert_eq!(normalize_creator("Jane Doe"), "jane_doe");
    assert_eq!(normalize_creator("jane-doe"), "jane_doe");
    assert_eq!(normalize_creator("jane_doe"), "jane_doe");
    assert_eq!(normalize_creator("JANE"), "jane");
}

#[test]
fn normalizing_is_not_the_identity() {
    let name = "ThatGurkanGurk";
    assert_ne!(normalize_creator(name), name);
    assert_eq!(normalize_creator(name), "that_gurkan_gurk");
}

#[test]
fn join_puts_one_slash_between() {
    assert_eq!(join_path("out", "123"), "out/123");
    assert_eq!(join_path("out/", "123"), "out/123");
    assert_eq!(join_path("", "123"), "123");
    assert_eq!(join_path("/", "123"), "/123");
    assert_eq!(join_path("out", ""), "out/");
}

#[test]
fn directories_of_a_video_and_a_creator() {
    assert_eq!(video_root("out", 123), "out/123");
    assert_eq!(video_root("out", -5), "out/-5");
    assert_eq!(creator_dir("out", 123, "jane_doe"), "out/123/jane_doe");
    assert_eq!(video_dir("out", 123, "jane_doe"), "out/123/jane_doe/video");
    assert_eq!(info_path("out", 123, "jane_doe"), "out/123/jane_doe/info.txt");
    assert_eq!(video_dir("/srv/clips/", 7, "a"), "/srv/clips/7/a/video");
    assert_eq!(video_dir("", 0, "a"), "0/a/video");
}

#[test]
fn file_name_is_the_last_segment_of_the_url() {
    assert_eq!(destination_filename("https://cdn.example.com/clips/abc.mp4"), "abc.mp4");
    assert_eq!(destination_filename("https://cdn.example.com/abc.mp4?token=1#t=3"), "abc.mp4");
    assert_eq!(destination_filename("https://cdn.example.com/a/b/c/d.webm"), "d.webm");
}

#[test]
fn file_name_is_percent_encoded_as_the_url_is() {
    assert_eq!(
        destination_filename("https://example.com/countries/việt nam"),
        "vi%E1%BB%87t%20nam"
    );
}

#[test]
fn empty_segments_at_the_end_are_passed_over() {
    assert_eq!(destination_filename("https://cdn.example.com/clips/abc.mp4/"), "abc.mp4");
    assert_eq!(destination_filename("https://cdn.example.com/clips//"), "clips");
}

#[test]
fn urls_without_a_usable_segment_get_the_default_name() {
    assert_eq!(destination_filename("https://example.com"), "video.mp4");
    assert_eq!(destination_filename("https://example.com/"), "video.mp4");
    assert_eq!(destination_filename("https://example.com///"), "video.mp4");
    assert_eq!(destination_filename("data:text/plain,HelloWorld"), "video.mp4");
    assert_eq!(destination_filename("mailto:someone@example.com"), "video.mp4");
    assert_eq!(destination_filename("not a url"), "video.mp4");
    assert_eq!(destination_filename(""), "video.mp4");
}

#[test]
fn file_name_from_given_segments() {
    let segments = Some(vec![String::from("a"), String::from("b.mp4")]);
    assert_eq!(file_name_from_segments(&segments), "b.mp4");
    let trailing = Some(vec![String::from("a"), String::new(), String::new()]);
    assert_eq!(file_name_from_segments(&trailing), "a");
    assert_eq!(file_name_from_segments(&Some(vec![String::new()])), "video.mp4");
    assert_eq!(file_name_from_segments(&Some(Vec::new())), "video.mp4");
    assert_eq!(file_name_from_segments(&None), "video.mp4");
}

#[test]
fn destination_is_below_the_creators_video_directory() {
    assert_eq!(
        destination_path("out", 123, "JaneDoe", "https://cdn.example.com/clips/abc.mp4"),
        "out/123/jane_doe/video/abc.mp4"
    );
    assert_eq!(
        destination_path("out", 123, "JaneDoe", "https://cdn.example.com"),
        "out/123/jane_doe/video/video.mp4"
    );
}

#[test]
fn destination_is_the_same_for_the_same_inputs() {
    let first = destination_path("out", 9, "Some Creator", "https://h.example/x/y.mp4");
    let second = destination_path("out", 9, "Some Creator", "https://h.example/x/y.mp4");
    assert_eq!(first, second);
    assert_eq!(first, "out/9/some_creator/video/y.mp4");
}

#[test]
fn different_creators_get_different_directories() {
    let a = destination_path("out", 9, "alice", "https://h.example/clip.mp4");
    let b = destination_path("out", 9, "bob", "https://h.example/clip.mp4");
    assert_eq!(a, "out/9/alice/video/clip.mp4");
    assert_eq!(b, "out/9/bob/video/clip.mp4");
}

#[test]
fn encoded_clips_go_to_burned_under_the_same_name() {
    assert_eq!(burned_dir("out/123/jane_doe"), "out/123/jane_doe/burned");
    assert_eq!(burned_path("out/123/jane_doe", "abc.mp4"), "out/123/jane_doe/burned/abc.mp4");
}

#[test]
fn error_log_is_named_after_the_destination() {
    assert_eq!(
        error_log_path("out/123/jane_doe/burned/abc.mp4"),
        "out/123/jane_doe/burned/abc.mp4.error.log"
    );
    assert_eq!(error_log_path("clip.mov"), "clip.mov.error.log");
}

#[test]
fn only_a_directory_named_burned_is_one() {
    assert!(is_burned_dir("burned", true));
    assert!(!is_burned_dir("burned", false));
    assert!(!is_burned_dir("video", true));
    assert!(!is_burned_dir("Burned", true));
    assert!(!is_burned_dir("", true));
}
