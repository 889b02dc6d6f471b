use song_consumer::models::{
    ConvertResponse, Links, Mp3Link, Tomp3Response, YouTubeItem, YouTubeResponse, YouTubeVideoId,
};
use song_consumer::resolver::{
    convert_reply, search_reply, status_is_success, token_reply, Request, RequestError, Stage,
};

const SEARCH: &str = "https://www.googleapis.com/youtube/v3/search?part=snippet&type=video&order=viewCount&maxResults=1&q=";

fn hits(ids: &[&str]) -> YouTubeResponse {
    YouTubeResponse {
        items: ids
            .iter()
            .map(|id| YouTubeItem { id: YouTubeVideoId { videoId: id.to_string() } })
            .collect(),
    }
}

fn table(entries: &[(&str, &str)]) -> Links {
    Links::from_entries(
        entries.iter().map(|(key, k)| (key.to_string(), Mp3Link { k: k.to_string() })).collect(),
    )
}

#[test]
fn search_request_is_a_get_on_the_search_address() {
    let request = Request::search("KEY", "hello");
    assert_eq!(request.stage, Stage::Search);
    assert_eq!(request.url, format!("{}hello&key=KEY", SEARCH));
    assert!(request.form.is_empty());
}

#[test]
fn search_request_escapes_the_query() {
    let request = Request::search("KEY", "hello world");
    assert_eq!(request.url, format!("{}hello%20world&key=KEY", SEARCH));
}

#[test]
fn search_request_escapes_what_would_split_the_query() {
    let request = Request::search("k", "a&b=c#d+e?f/g%h");
    assert_eq!(request.url, format!("{}a%26b%3Dc%23d%2Be%3Ff%2Fg%25h&key=k", SEARCH));
}

#[test]
fn search_request_keeps_unreserved_characters() {
    let request = Request::search("k", "AZaz09-._~");
    assert_eq!(request.url, format!("{}AZaz09-._~&key=k", SEARCH));
}

#[test]
fn search_request_escapes_utf8_bytes_in_upper_case() {
    let request = Request::search("k", "é👾 Exterminate!");
    assert_eq!(request.url, format!("{}%C3%A9%F0%9F%91%BE%20Exterminate%21&key=k", SEARCH));
}

#[test]
fn search_request_with_empty_query() {
    let request = Request::search("k", "");
    assert_eq!(request.url, format!("{}&key=k", SEARCH));
}

#[test]
fn search_request_leaves_the_key_as_it_is() {
    let request = Request::search("a b&c", "q");
    assert_eq!(request.url, format!("{}q&key=a b&c", SEARCH));
}

#[test]
fn token_request_posts_the_watch_address() {
    let request = Request::token("dQw4w9WgXcQ");
    assert_eq!(request.stage, Stage::Token);
    assert_eq!(request.url, "https://tomp3.cc/api/ajax/search");
    assert_eq!(
        request.form,
        vec![
            ("query".to_string(), "https://www.youtube.com/watch?v=dQw4w9WgXcQ".to_string()),
            ("vt".to_string(), "downloader".to_string()),
        ]
    );
}

#[test]
fn convert_request_posts_video_and_token() {
    let request = Request::convert("dQw4w9WgXcQ", "tok/en==");
    assert_eq!(request.stage, Stage::Convert);
    assert_eq!(request.url, "https://tomp3.cc/api/ajax/convert");
    assert_eq!(
        request.form,
        vec![
            ("vid".to_string(), "dQw4w9WgXcQ".to_string()),
            ("k".to_string(), "tok/en==".to_string()),
        ]
    );
}

#[test]
fn only_the_conversion_stages_keep_cookies() {
    assert!(!Stage::Search.keeps_cookies());
    assert!(Stage::Token.keeps_cookies());
    assert!(Stage::Convert.keeps_cookies());
}

#[test]
fn only_the_token_stage_sends_the_session() {
    assert!(!Stage::Search.sends_session());
    assert!(Stage::Token.sends_session());
    assert!(!Stage::Convert.sends_session());
}

#[test]
fn success_is_the_two_hundreds() {
    assert!(!status_is_success(0));
    assert!(!status_is_success(199));
    assert!(status_is_success(200));
    assert!(status_is_success(204));
    assert!(status_is_success(299));
    assert!(!status_is_success(300));
    assert!(!status_is_success(404));
    assert!(!status_is_success(u16::MAX));
}

#[test]
fn first_video_of_an_answer() {
    assert_eq!(hits(&[]).first_video_id(), None);
    assert_eq!(hits(&["abc"]).first_video_id(), Some("abc".to_string()));
    assert_eq!(hits(&["first", "second"]).first_video_id(), Some("first".to_string()));
}

#[test]
fn search_reply_gives_the_first_hit() {
    assert_eq!(search_reply(200, Some(hits(&["abc", "def"]))), Ok(Some("abc".to_string())));
}

#[test]
fn search_reply_without_hits_is_no_error() {
    assert_eq!(search_reply(200, Some(hits(&[]))), Ok(None));
}

#[test]
fn search_reply_with_bad_status_is_an_error() {
    assert_eq!(search_reply(403, Some(hits(&["abc"]))), Err(RequestError::Status));
    assert_eq!(search_reply(500, None), Err(RequestError::Status));
}

#[test]
fn search_reply_with_undecodable_body_is_an_error() {
    assert_eq!(search_reply(200, None), Err(RequestError::Body));
}

#[test]
fn token_of_a_full_answer() {
    let response = Tomp3Response { links: Some(table(&[("mp3128", "TOKEN")])) };
    assert_eq!(response.conversion_token(), Some("TOKEN".to_string()));
    assert_eq!(token_reply(200, Some(response)), Ok(Some("TOKEN".to_string())));
}

#[test]
fn token_is_found_among_other_entries() {
    let response =
        Tomp3Response { links: Some(table(&[("mp3320", "A"), ("mp3128", "B"), ("mp364", "C")])) };
    assert_eq!(token_reply(200, Some(response)), Ok(Some("B".to_string())));
}

#[test]
fn token_missing_at_any_level_is_no_error() {
    assert_eq!(token_reply(200, Some(Tomp3Response { links: None })), Ok(None));
    assert_eq!(token_reply(200, Some(Tomp3Response { links: Some(Links { mp3: None }) })), Ok(None));
    assert_eq!(token_reply(200, Some(Tomp3Response { links: Some(table(&[])) })), Ok(None));
    assert_eq!(
        token_reply(200, Some(Tomp3Response { links: Some(table(&[("mp3320", "A")])) })),
        Ok(None)
    );
    assert_eq!(
        token_reply(200, Some(Tomp3Response { links: Some(table(&[("MP3128", "A")])) })),
        Ok(None)
    );
}

#[test]
fn token_reply_with_bad_status_is_an_error() {
    let response = Tomp3Response { links: Some(table(&[("mp3128", "TOKEN")])) };
    assert_eq!(token_reply(503, Some(response)), Err(RequestError::Status));
    assert_eq!(token_reply(199, None), Err(RequestError::Status));
    assert_eq!(token_reply(300, None), Err(RequestError::Status));
}

#[test]
fn token_reply_with_undecodable_body_is_an_error() {
    assert_eq!(token_reply(200, None), Err(RequestError::Body));
    assert_eq!(token_reply(299, None), Err(RequestError::Body));
}

#[test]
fn link_table_keeps_the_later_of_two_entries() {
    let response = Tomp3Response { links: Some(table(&[("mp3128", "old"), ("mp3128", "new")])) };
    assert_eq!(response.conversion_token(), Some("new".to_string()));
}

#[test]
fn convert_reply_gives_the_link() {
    let body = ConvertResponse { dlink: "https://dl.example/file.mp3".to_string() };
    assert_eq!(body.download_link(), Some("https://dl.example/file.mp3".to_string()));
    assert_eq!(convert_reply(Some(body)), Ok(Some("https://dl.example/file.mp3".to_string())));
}

#[test]
fn convert_reply_with_undecodable_body_is_an_error() {
    assert_eq!(convert_reply(None), Err(RequestError::Body));
}
