//! The resolution of one song: three lookups, each fed by the one before.
//!
//! A task never talks to a service itself. It names the next request, is
//! handed the reply, and either names another request or ends.

use crate::resolver::{
    convert_request, reply_view, search_request, token_request, Request, RequestError,
    RequestView, Stage, StageReply, StageReplyView,
};
use vstd::prelude::*;
use vstd::string::*;

verus! {

/// How a task ended.
#[derive(Debug, Clone, PartialEq, Eq)]
pub enum TaskOutcome {
    /// All three lookups gave a value; this is the line for the reply.
    Resolved(String),
    /// The lookup of this stage gave nothing.
    NotFound(Stage),
    /// The lookup of this stage failed.
    RequestFailed(Stage, RequestError),
    /// The task broke off before it reached an end of its own.
    Aborted,
}

/// A `TaskOutcome` as plain values.
pub enum TaskOutcomeView {
    Resolved(Seq<char>),
    NotFound(Stage),
    RequestFailed(Stage, RequestError),
    Aborted,
}

impl View for TaskOutcome {
    type V = TaskOutcomeView;

    open spec fn view(&self) -> TaskOutcomeView {
        match self {
            TaskOutcome::Resolved(line) => TaskOutcomeView::Resolved(line@),
            TaskOutcome::NotFound(stage) => TaskOutcomeView::NotFound(*stage),
            TaskOutcome::RequestFailed(stage, error) => TaskOutcomeView::RequestFailed(
                *stage,
                *error,
            ),
            TaskOutcome::Aborted => TaskOutcomeView::Aborted,
        }
    }
}

impl DeepView for TaskOutcome {
    type V = TaskOutcomeView;

    open spec fn deep_view(&self) -> TaskOutcomeView {
        self@
    }
}

/// A song on its way through the lookups, named by the reply it waits for.
#[derive(Debug, Clone, PartialEq, Eq)]
pub enum SongTask {
    /// The search is out.
    Searching { song: String },
    /// The video is known, the token request is out.
    FetchingToken { song: String, video_id: String },
    /// The token is known, the convert request is out.
    Converting { song: String },
}

/// A `SongTask` as plain values.
pub enum SongTaskView {
    Searching { song: Seq<char> },
    FetchingToken { song: Seq<char>, video_id: Seq<char> },
    Converting { song: Seq<char> },
}

impl SongTaskView {
    /// The stage whose reply the task waits for.
    pub open spec fn stage(self) -> Stage {
        match self {
            SongTaskView::Searching { .. } => Stage::Search,
            SongTaskView::FetchingToken { .. } => Stage::Token,
            SongTaskView::Converting { .. } => Stage::Convert,
        }
    }

    /// The song the task resolves.
    pub open spec fn song(self) -> Seq<char> {
        match self {
            SongTaskView::Searching { song } => song,
            SongTaskView::FetchingToken { song, .. } => song,
            SongTaskView::Converting { song } => song,
        }
    }
}

impl View for SongTask {
    type V = SongTaskView;

    open spec fn view(&self) -> SongTaskView {
        match self {
            SongTask::Searching { song } => SongTaskView::Searching { song: song@ },
            SongTask::FetchingToken { song, video_id } => SongTaskView::FetchingToken {
                song: song@,
                video_id: video_id@,
            },
            SongTask::Converting { song } => SongTaskView::Converting { song: song@ },
        }
    }
}

/// What a task does with a reply.
#[derive(Debug, Clone, PartialEq, Eq)]
pub enum Step {
    /// Send the request and wait for its reply in the state given.
    Call(SongTask, Request),
    /// The task is over.
    Done(TaskOutcome),
}

/// A `Step` as plain values.
pub enum StepView {
    Call(SongTaskView, RequestView),
    Done(TaskOutcomeView),
}

impl View for Step {
    type V = StepView;

    open spec fn view(&self) -> StepView {
        match self {
            Step::Call(task, request) => StepView::Call(task@, request@),
            Step::Done(outcome) => StepView::Done(outcome@),
        }
    }
}

/// The line that stands for a resolved song in the reply.
pub open spec fn song_line(song: Seq<char>, link: Seq<char>) -> Seq<char> {
    "🎵 *"@ + song + "*\n🔗 "@ + link
}

/// What a task does with a reply. An error or an empty reply ends it at
/// once, under the stage it was in; a value moves it one stage on, and
/// after the last stage gives the line.
pub open spec fn advance_model(task: SongTaskView, reply: StageReplyView) -> StepView {
    match reply {
        Err(error) => StepView::Done(TaskOutcomeView::RequestFailed(task.stage(), error)),
        Ok(None) => StepView::Done(TaskOutcomeView::NotFound(task.stage())),
        Ok(Some(value)) => match task {
            SongTaskView::Searching { song } => StepView::Call(
                SongTaskView::FetchingToken { song, video_id: value },
                token_request(value),
            ),
            SongTaskView::FetchingToken { song, video_id } => StepView::Call(
                SongTaskView::Converting { song },
                convert_request(video_id, value),
            ),
            SongTaskView::Converting { song } => StepView::Done(
                TaskOutcomeView::Resolved(song_line(song, value)),
            ),
        },
    }
}

/// How the resolution of `song` ends when the three services would answer
/// with `found`, `token` and `link`: the first reply without a value
/// decides, and the replies after it play no part.
pub open spec fn resolution(
    song: Seq<char>,
    found: StageReplyView,
    token: StageReplyView,
    link: StageReplyView,
) -> TaskOutcomeView {
    match found {
        Err(error) => TaskOutcomeView::RequestFailed(Stage::Search, error),
        Ok(None) => TaskOutcomeView::NotFound(Stage::Search),
        Ok(Some(_)) => match token {
            Err(error) => TaskOutcomeView::RequestFailed(Stage::Token, error),
            Ok(None) => TaskOutcomeView::NotFound(Stage::Token),
            Ok(Some(_)) => match link {
                Err(error) => TaskOutcomeView::RequestFailed(Stage::Convert, error),
                Ok(None) => TaskOutcomeView::NotFound(Stage::Convert),
                Ok(Some(address)) => TaskOutcomeView::Resolved(song_line(song, address)),
            },
        },
    }
}

/// The text under which the lack of a value at `stage` is reported.
pub open spec fn not_found_text(stage: Stage) -> Seq<char> {
    match stage {
        Stage::Search => "No video found"@,
        Stage::Token => "Failed to get k parameter"@,
        Stage::Convert => "Failed to get download link"@,
    }
}

/// The text under which the lack of a value at `stage` is reported.
pub fn not_found_message(stage: Stage) -> (text: &'static str)
    ensures
        text@ == not_found_text(stage),
{
    match stage {
        Stage::Search => "No video found",
        Stage::Token => "Failed to get k parameter",
        Stage::Convert => "Failed to get download link",
    }
}

/// Formats the line of a resolved song.
pub fn format_song_line(song: &str, link: &str) -> (line: String)
    ensures
        line@ == song_line(song@, link@),
{
    let mut line = String::from_str("🎵 *");
    line.append(song);
    line.append("*\n🔗 ");
    line.append(link);
    line
}

impl SongTask {
    /// Begins the resolution of `song`: the task, and the search to send.
    pub fn start(song: String, api_key: &str) -> (begun: (SongTask, Request))
        ensures
            begun.0@ == (SongTaskView::Searching { song: song@ }),
            begun.1@ == search_request(api_key@, song@),
    {
        let request = Request::search(api_key, song.as_str());
        (SongTask::Searching { song }, request)
    }

    /// The stage whose reply the task waits for.
    pub fn stage(&self) -> (stage: Stage)
        ensures
            stage == self@.stage(),
    {
        match self {
            SongTask::Searching { .. } => Stage::Search,
            SongTask::FetchingToken { .. } => Stage::Token,
            SongTask::Converting { .. } => Stage::Convert,
        }
    }

    /// Takes the reply to the request that is out and says what comes next.
    pub fn advance(self, reply: StageReply) -> (step: Step)
        ensures
            step@ == advance_model(self@, reply_view(reply)),
    {
        let stage = self.stage();
        match reply {
            Err(error) => Step::Done(TaskOutcome::RequestFailed(stage, error)),
            Ok(None) => Step::Done(TaskOutcome::NotFound(stage)),
            Ok(Some(value)) => match self {
                SongTask::Searching { song } => {
                    let request = Request::token(value.as_str());
                    Step::Call(SongTask::FetchingToken { song, video_id: value }, request)
                },
                SongTask::FetchingToken { song, video_id } => {
                    let request = Request::convert(video_id.as_str(), value.as_str());
                    Step::Call(SongTask::Converting { song }, request)
                },
                SongTask::Converting { song } => Step::Done(
                    TaskOutcome::Resolved(format_song_line(song.as_str(), value.as_str())),
                ),
            },
        }
    }
}

/// A task sends a request only on a reply that holds a value, and then the
/// request of the stage that follows the one it was in. So a stage with an
/// empty reply or an error is the last one the task makes a call for, and
/// the task ends under that stage.
pub proof fn lemma_calls_follow_values(task: SongTaskView, reply: StageReplyView)
    ensures
        advance_model(task, reply) matches StepView::Call(next, request) ==> {
            &&& reply matches Ok(Some(_))
            &&& request.stage == next.stage()
            &&& next.song() == task.song()
            &&& task.stage() == Stage::Search ==> next.stage() == Stage::Token
            &&& task.stage() == Stage::Token ==> next.stage() == Stage::Convert
            &&& task.stage() != Stage::Convert
        },
        reply matches Ok(None) ==> advance_model(task, reply) == StepView::Done(
            TaskOutcomeView::NotFound(task.stage()),
        ),
        reply matches Err(error) ==> advance_model(task, reply) == StepView::Done(
            TaskOutcomeView::RequestFailed(task.stage(), error),
        ),
        !(advance_model(task, reply) matches StepView::Done(TaskOutcomeView::Aborted)),
{
}

/// Driving a task from its start with the replies of the three services
/// ends as `resolution` says, after at most three replies.
pub proof fn lemma_task_run(
    song: Seq<char>,
    found: StageReplyView,
    token: StageReplyView,
    link: StageReplyView,
)
    ensures
        match advance_model(SongTaskView::Searching { song }, found) {
            StepView::Done(outcome) => outcome == resolution(song, found, token, link),
            StepView::Call(second, _) => match advance_model(second, token) {
                StepView::Done(outcome) => outcome == resolution(song, found, token, link),
                StepView::Call(third, _) => advance_model(third, link) == StepView::Done(
                    resolution(song, found, token, link),
                ),
            },
        },
{
}

} // verus!
