//! The wire records: the queue message and the bodies the three lookup
//! services answer with.

use vstd::hash_map::StringHashMap;
use vstd::prelude::*;

verus! {

/// A queue message, incoming or outgoing: a chat and a text.
#[derive(Debug, Clone, PartialEq, Eq)]
pub struct RabbitMessage {
    pub chat_id: i64,
    pub text: String,
}

/// What a `RabbitMessage` holds, as plain values.
pub struct RabbitMessageView {
    pub chat_id: i64,
    pub text: Seq<char>,
}

impl View for RabbitMessage {
    type V = RabbitMessageView;

    open spec fn view(&self) -> RabbitMessageView {
        RabbitMessageView { chat_id: self.chat_id, text: self.text@ }
    }
}

/// Body of a video search answer.
#[derive(Debug, Clone, PartialEq, Eq)]
pub struct YouTubeResponse {
    pub items: Vec<YouTubeItem>,
}

/// One search hit.
#[derive(Debug, Clone, PartialEq, Eq)]
pub struct YouTubeItem {
    pub id: YouTubeVideoId,
}

/// The identifier part of a search hit.
#[derive(Debug, Clone, PartialEq, Eq)]
#[allow(non_snake_case)]
pub struct YouTubeVideoId {
    pub videoId: String,
}

/// Body of a conversion-token answer.
pub struct Tomp3Response {
    pub links: Option<Links>,
}

/// The link table of a conversion-token answer.
pub struct Links {
    pub mp3: Option<StringHashMap<Mp3Link>>,
}

/// One entry of the link table.
#[derive(Debug, Clone, PartialEq, Eq)]
pub struct Mp3Link {
    pub k: String,
}

/// Body of a convert answer.
#[derive(Debug, Clone, PartialEq, Eq)]
pub struct ConvertResponse {
    pub dlink: String,
}

impl YouTubeResponse {
    /// The video of the first hit, if there is a hit.
    pub open spec fn first_video(&self) -> Option<Seq<char>> {
        if self.items.len() > 0 {
            Some(self.items[0].id.videoId@)
        } else {
            None
        }
    }

    /// The video of the first hit; `None` for an empty result list.
    pub fn first_video_id(&self) -> (id: Option<String>)
        ensures
            id.deep_view() == self.first_video(),
    {
        if self.items.len() > 0 {
            Some(self.items[0].id.videoId.clone())
        } else {
            None
        }
    }
}

impl Tomp3Response {
    /// The token under `links.mp3.mp3128.k`, if every key on the way is there.
    pub open spec fn token(&self) -> Option<Seq<char>> {
        match self.links {
            Some(links) => match links.mp3 {
                Some(table) => if table@.contains_key("mp3128"@) {
                    Some(table@["mp3128"@].k@)
                } else {
                    None
                },
                None => None,
            },
            None => None,
        }
    }

    /// The token under `links.mp3.mp3128.k`; `None` where a key is missing.
    pub fn conversion_token(&self) -> (token: Option<String>)
        ensures
            token.deep_view() == self.token(),
    {
        match &self.links {
            Some(links) => match &links.mp3 {
                Some(table) => match table.get("mp3128") {
                    Some(link) => Some(link.k.clone()),
                    None => None,
                },
                None => None,
            },
            None => None,
        }
    }
}

/// The table that inserting `entries` one after the other gives: of two
/// entries under one key the later stays.
pub open spec fn table_of(entries: Seq<(String, Mp3Link)>) -> Map<Seq<char>, Mp3Link>
    decreases entries.len(),
{
    if entries.len() == 0 {
        Map::empty()
    } else {
        table_of(entries.drop_last()).insert(entries.last().0@, entries.last().1)
    }
}

impl Links {
    /// A link table with the given entries.
    pub fn from_entries(entries: Vec<(String, Mp3Link)>) -> (links: Links)
        ensures
            links.mp3 is Some,
            links.mp3->0@ == table_of(entries@),
    {
        let ghost all = entries@;
        let mut table: StringHashMap<Mp3Link> = StringHashMap::new();
        for entry in it: entries
            invariant
                it.seq() == all,
                table@ == table_of(all.take(it.index())),
        {
            proof {
                assert(all.take(it.index() + 1).drop_last() =~= all.take(it.index()));
            }
            let (key, link) = entry;
            table.insert(key, link);
        }
        proof {
            assert(all.take(all.len() as int) =~= all);
        }
        Links { mp3: Some(table) }
    }
}

impl ConvertResponse {
    /// The download link of the answer.
    pub fn download_link(&self) -> (link: Option<String>)
        ensures
            link.deep_view() == Some(self.dlink@),
    {
        Some(self.dlink.clone())
    }
}

} // verus!
