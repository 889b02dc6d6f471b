use song_consumer::resolver::{Request, RequestError, Stage};
use song_consumer::task::{format_song_line, not_found_message, SongTask, Step, TaskOutcome};

fn some(text: &str) -> Result<Option<String>, RequestError> {
    Ok(Some(text.to_string()))
}

fn searching(song: &str) -> SongTask {
    SongTask::Searching { song: song.to_string() }
}

fn fetching(song: &str, video_id: &str) -> SongTask {
    SongTask::FetchingToken { song: song.to_string(), video_id: video_id.to_string() }
}

fn converting(song: &str) -> SongTask {
    SongTask::Converting { song: song.to_string() }
}

#[test]
fn song_line_has_name_and_link() {
    assert_eq!(
        format_song_line("Hey Jude", "https://dl.example/1.mp3"),
        "🎵 *Hey Jude*\n🔗 https://dl.example/1.mp3"
    );
    assert_eq!(format_song_line("", ""), "🎵 **\n🔗 ");
}

#[test]
fn not_found_messages_name_the_stage() {
    assert_eq!(not_found_message(Stage::Search), "No video found");
    assert_eq!(not_found_message(Stage::Token), "Failed to get k parameter");
    assert_eq!(not_found_message(Stage::Convert), "Failed to get download link");
}

#[test]
fn a_task_starts_with_the_search() {
    let (task, request) = SongTask::start("Hey Jude".to_string(), "KEY");
    assert_eq!(task, searching("Hey Jude"));
    assert_eq!(task.stage(), Stage::Search);
    assert_eq!(request, Request::search("KEY", "Hey Jude"));
    assert!(request.url.ends_with("&q=Hey%20Jude&key=KEY"));
}

#[test]
fn a_found_video_leads_to_the_token_request() {
    let step = searching("Hey Jude").advance(some("vid123"));
    assert_eq!(step, Step::Call(fetching("Hey Jude", "vid123"), Request::token("vid123")));
}

#[test]
fn a_token_leads_to_the_convert_request() {
    let step = fetching("Hey Jude", "vid123").advance(some("tok"));
    assert_eq!(step, Step::Call(converting("Hey Jude"), Request::convert("vid123", "tok")));
}

#[test]
fn a_link_resolves_the_song() {
    let step = converting("Hey Jude").advance(some("https://dl.example/1.mp3"));
    assert_eq!(
        step,
        Step::Done(TaskOutcome::Resolved(
            "🎵 *Hey Jude*\n🔗 https://dl.example/1.mp3".to_string()
        ))
    );
}

#[test]
fn three_values_in_a_row_resolve_the_song() {
    let (task, first) = SongTask::start("Let It Be".to_string(), "KEY");
    assert_eq!(first.stage, Stage::Search);
    let (task, second) = match task.advance(some("v")) {
        Step::Call(task, request) => (task, request),
        other => panic!("{:?}", other),
    };
    assert_eq!(task.stage(), Stage::Token);
    assert_eq!(second.stage, Stage::Token);
    let (task, third) = match task.advance(some("k")) {
        Step::Call(task, request) => (task, request),
        other => panic!("{:?}", other),
    };
    assert_eq!(task.stage(), Stage::Convert);
    assert_eq!(third, Request::convert("v", "k"));
    assert_eq!(
        task.advance(some("L")),
        Step::Done(TaskOutcome::Resolved("🎵 *Let It Be*\n🔗 L".to_string()))
    );
}

#[test]
fn no_video_ends_the_task_at_the_search() {
    assert_eq!(searching("x").advance(Ok(None)), Step::Done(TaskOutcome::NotFound(Stage::Search)));
}

#[test]
fn no_token_ends_the_task_without_a_convert_request() {
    let step = fetching("x", "vid").advance(Ok(None));
    assert_eq!(step, Step::Done(TaskOutcome::NotFound(Stage::Token)));
    assert!(!matches!(step, Step::Call(..)));
}

#[test]
fn no_link_ends_the_task_at_the_convert_stage() {
    assert_eq!(converting("x").advance(Ok(None)), Step::Done(TaskOutcome::NotFound(Stage::Convert)));
}

#[test]
fn a_failed_request_ends_the_task_under_its_stage() {
    assert_eq!(
        searching("x").advance(Err(RequestError::Transport)),
        Step::Done(TaskOutcome::RequestFailed(Stage::Search, RequestError::Transport))
    );
    assert_eq!(
        searching("x").advance(Err(RequestError::Body)),
        Step::Done(TaskOutcome::RequestFailed(Stage::Search, RequestError::Body))
    );
    assert_eq!(
        fetching("x", "v").advance(Err(RequestError::Status)),
        Step::Done(TaskOutcome::RequestFailed(Stage::Token, RequestError::Status))
    );
    assert_eq!(
        fetching("x", "v").advance(Err(RequestError::Body)),
        Step::Done(TaskOutcome::RequestFailed(Stage::Token, RequestError::Body))
    );
    assert_eq!(
        converting("x").advance(Err(RequestError::Transport)),
        Step::Done(TaskOutcome::RequestFailed(Stage::Convert, RequestError::Transport))
    );
}

#[test]
fn the_video_is_escaped_nowhere_but_in_the_search() {
    let step = searching("x").advance(some("a b&c"));
    match step {
        Step::Call(_, request) => {
            assert_eq!(request.form[0].1, "https://www.youtube.com/watch?v=a b&c");
        }
        other => panic!("{:?}", other),
    }
}
