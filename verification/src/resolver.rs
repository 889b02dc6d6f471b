//! The three lookups that resolve one song: what to ask of each service,
//! and what its answer means.

use crate::encoding::{percent_encode, percent_encoded};
use crate::models::{ConvertResponse, Tomp3Response, YouTubeResponse};
use vstd::prelude::*;
use vstd::string::*;

verus! {

/// One of the three lookups, in the order they are made.
#[derive(Clone, Copy, Debug, PartialEq, Eq, Structural)]
pub enum Stage {
    /// Find a video for the song name.
    Search,
    /// Get the token that permits converting the video.
    Token,
    /// Convert the video and get its download link.
    Convert,
}

/// Why a lookup gave no answer that could be read.
#[derive(Clone, Copy, Debug, PartialEq, Eq, Structural)]
pub enum RequestError {
    /// The request did not get through, or no answer came back.
    Transport,
    /// The service answered with a status outside 200..=299.
    Status,
    /// The body of the answer could not be decoded.
    Body,
}

/// What a lookup gave: a value, nothing, or an error.
pub type StageReply = Result<Option<String>, RequestError>;

/// A `StageReply` as plain values.
pub type StageReplyView = Result<Option<Seq<char>>, RequestError>;

/// The plain values of a reply.
pub open spec fn reply_view(reply: StageReply) -> StageReplyView {
    match reply {
        Ok(value) => Ok(value.deep_view()),
        Err(error) => Err(error),
    }
}

/// A request to one of the services. `Search` is sent with GET and has no
/// form; the other two are sent with POST and carry `form` url-encoded.
#[derive(Debug, Clone, PartialEq, Eq)]
pub struct Request {
    pub stage: Stage,
    pub url: String,
    pub form: Vec<(String, String)>,
}

/// A `Request` as plain values.
pub struct RequestView {
    pub stage: Stage,
    pub url: Seq<char>,
    pub form: Seq<(Seq<char>, Seq<char>)>,
}

impl View for Request {
    type V = RequestView;

    open spec fn view(&self) -> RequestView {
        RequestView { stage: self.stage, url: self.url@, form: self.form.deep_view() }
    }
}

/// Address of the video search for `query`: one hit, the most viewed.
pub open spec fn search_url(api_key: Seq<char>, query: Seq<char>) -> Seq<char> {
    "https://www.googleapis.com/youtube/v3/search?part=snippet&type=video&order=viewCount&maxResults=1&q="@
        + percent_encoded(query) + "&key="@ + api_key
}

/// Address at which a video is watched.
pub open spec fn watch_url(video_id: Seq<char>) -> Seq<char> {
    "https://www.youtube.com/watch?v="@ + video_id
}

/// The search for a song name.
pub open spec fn search_request(api_key: Seq<char>, query: Seq<char>) -> RequestView {
    RequestView { stage: Stage::Search, url: search_url(api_key, query), form: Seq::empty() }
}

/// The request for the token of a video.
pub open spec fn token_request(video_id: Seq<char>) -> RequestView {
    RequestView {
        stage: Stage::Token,
        url: "https://tomp3.cc/api/ajax/search"@,
        form: seq![("query"@, watch_url(video_id)), ("vt"@, "downloader"@)],
    }
}

/// The request for the download link of a video.
pub open spec fn convert_request(video_id: Seq<char>, token: Seq<char>) -> RequestView {
    RequestView {
        stage: Stage::Convert,
        url: "https://tomp3.cc/api/ajax/convert"@,
        form: seq![("vid"@, video_id), ("k"@, token)],
    }
}

/// Whether a status code reports success.
pub open spec fn is_success(status: u16) -> bool {
    200 <= status <= 299
}

/// What the answer to a search means. A status outside 200..=299 is an
/// error whatever the body holds; then a body that could not be decoded is
/// one; a decoded body gives the video of its first hit, or nothing.
pub open spec fn search_reply_model(status: u16, body: Option<YouTubeResponse>) -> StageReplyView {
    if !is_success(status) {
        Err(RequestError::Status)
    } else {
        match body {
            Some(response) => Ok(response.first_video()),
            None => Err(RequestError::Body),
        }
    }
}

/// What the answer to a convert request means: a body that could not be
/// decoded is an error, a decoded body gives its link.
pub open spec fn convert_reply_model(body: Option<ConvertResponse>) -> StageReplyView {
    match body {
        Some(response) => Ok(Some(response.dlink@)),
        None => Err(RequestError::Body),
    }
}

/// What the answer to a token request means. A status outside 200..=299 is
/// an error whatever the body holds; then a body that could not be decoded
/// is one; a decoded body gives its token, or nothing.
pub open spec fn token_reply_model(status: u16, body: Option<Tomp3Response>) -> StageReplyView {
    if !is_success(status) {
        Err(RequestError::Status)
    } else {
        match body {
            Some(response) => Ok(response.token()),
            None => Err(RequestError::Body),
        }
    }
}

impl Request {
    /// The search for a song name.
    pub fn search(api_key: &str, query: &str) -> (request: Request)
        ensures
            request@ == search_request(api_key@, query@),
    {
        let mut url = String::from_str(
            "https://www.googleapis.com/youtube/v3/search?part=snippet&type=video&order=viewCount&maxResults=1&q=",
        );
        let encoded = percent_encode(query);
        url.append(encoded.as_str());
        url.append("&key=");
        url.append(api_key);
        let form: Vec<(String, String)> = Vec::new();
        proof {
            assert(form.deep_view() =~= Seq::empty());
        }
        Request { stage: Stage::Search, url, form }
    }

    /// The request for the token of a video.
    pub fn token(video_id: &str) -> (request: Request)
        ensures
            request@ == token_request(video_id@),
    {
        let mut watch = String::from_str("https://www.youtube.com/watch?v=");
        watch.append(video_id);
        let mut form: Vec<(String, String)> = Vec::new();
        form.push((String::from_str("query"), watch));
        form.push((String::from_str("vt"), String::from_str("downloader")));
        proof {
            assert(form.deep_view() =~= token_request(video_id@).form);
        }
        Request { stage: Stage::Token, url: String::from_str("https://tomp3.cc/api/ajax/search"), form }
    }

    /// The request for the download link of a video.
    pub fn convert(video_id: &str, token: &str) -> (request: Request)
        ensures
            request@ == convert_request(video_id@, token@),
    {
        let mut form: Vec<(String, String)> = Vec::new();
        form.push((String::from_str("vid"), String::from_str(video_id)));
        form.push((String::from_str("k"), String::from_str(token)));
        proof {
            assert(form.deep_view() =~= convert_request(video_id@, token@).form);
        }
        Request {
            stage: Stage::Convert,
            url: String::from_str("https://tomp3.cc/api/ajax/convert"),
            form,
        }
    }
}

impl Stage {
    /// Whether the requests of this stage go through the client that keeps
    /// the cookies of one batch. The search stands apart from it.
    pub fn keeps_cookies(self) -> (keeps: bool)
        ensures
            keeps == (self != Stage::Search),
    {
        match self {
            Stage::Search => false,
            Stage::Token => true,
            Stage::Convert => true,
        }
    }

    /// Whether the requests of this stage carry the session cookies that
    /// the caller holds for the service.
    pub fn sends_session(self) -> (sends: bool)
        ensures
            sends == (self == Stage::Token),
    {
        match self {
            Stage::Token => true,
            _ => false,
        }
    }
}

/// Whether a status code reports success.
pub fn status_is_success(status: u16) -> (success: bool)
    ensures
        success == is_success(status),
{
    200 <= status && status <= 299
}

/// Reads the answer to a search: its status, and its body where it could
/// be decoded.
pub fn search_reply(status: u16, body: Option<YouTubeResponse>) -> (reply: StageReply)
    ensures
        reply_view(reply) == search_reply_model(status, body),
{
    if !status_is_success(status) {
        Err(RequestError::Status)
    } else {
        match body {
            Some(response) => Ok(response.first_video_id()),
            None => Err(RequestError::Body),
        }
    }
}

/// Reads the answer to a convert request: its body where it could be
/// decoded.
pub fn convert_reply(body: Option<ConvertResponse>) -> (reply: StageReply)
    ensures
        reply_view(reply) == convert_reply_model(body),
{
    match body {
        Some(response) => Ok(response.download_link()),
        None => Err(RequestError::Body),
    }
}

/// Reads the answer to a token request: its status, and its body where it
/// could be decoded.
pub fn token_reply(status: u16, body: Option<Tomp3Response>) -> (reply: StageReply)
    ensures
        reply_view(reply) == token_reply_model(status, body),
{
    if !status_is_success(status) {
        Err(RequestError::Status)
    } else {
        match body {
            Some(response) => Ok(response.conversion_token()),
            None => Err(RequestError::Body),
        }
    }
}

} // verus!
