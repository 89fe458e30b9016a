use crate::database::models::Channel;
use crate::database::models::ChannelView;
use crate::database::models::TagView;
use crate::database::models::Video;
use crate::database::models::VideoTagsView;
use crate::database::models::VideoView;
use crate::database::models::WatchHistory;
use crate::database::models::WatchHistoryView;
use crate::database::store::Store;
use crate::database::store::StoreView;
use crate::database::store::lemma_index_of_unique;
use crate::database::store::tag_ids;
use crate::database::store::tag_views;
use crate::database::store::video_tag_views;
use crate::text::texts;
use vstd::prelude::*;
use vstd::string::*;

verus! {

/// The direction of a sort.
#[derive(Debug, Clone, Copy, PartialEq, Eq, Structural)]
pub enum SortOrder {
    Asc,
    Desc,
}

/// One page of a listing, with the count of the whole table.
pub struct PaginatedResponse<T> {
    pub data: Vec<T>,
    pub offset: Option<i64>,
    pub limit: Option<i64>,
    pub total: i64,
}

impl<T> PaginatedResponse<T> {
    /// The page `data`, cut by `offset` and `limit` from a table of `total`
    /// rows.
    pub fn new(data: Vec<T>, offset: Option<i64>, limit: Option<i64>, total: i64) -> (page: Self)
        ensures
            page.data == data,
            page.offset == offset,
            page.limit == limit,
            page.total == total,
    {
        PaginatedResponse { data, offset, limit, total }
    }
}

/// A channel as it is answered, as a mathematical value.
pub struct ChannelResponseView {
    pub channel: ChannelView,
    pub avatar_endpoint: Seq<char>,
}

/// A channel as it is answered: the row, and where its avatar is served.
#[derive(Debug, PartialEq, Eq)]
pub struct ChannelResponse {
    pub channel: Channel,
    pub avatar_endpoint: String,
}

impl View for ChannelResponse {
    type V = ChannelResponseView;

    open spec fn view(&self) -> ChannelResponseView {
        ChannelResponseView { channel: self.channel@, avatar_endpoint: self.avatar_endpoint@ }
    }
}

/// The address at which the avatar of the channel `id` is served.
pub open spec fn avatar_endpoint(id: Seq<char>) -> Seq<char> {
    "/api/avaters/"@ + id
}

/// The address at which the thumbnail of the video `id` is served.
pub open spec fn thumbnail_endpoint(id: Seq<char>) -> Seq<char> {
    "/api/thumbnails/"@ + id
}

/// The answer that stands for the channel `channel`.
pub open spec fn channel_response(channel: ChannelView) -> ChannelResponseView {
    ChannelResponseView { channel, avatar_endpoint: avatar_endpoint(channel.id) }
}

impl ChannelResponse {
    /// The answer that stands for `channel`.
    pub fn new(channel: Channel) -> (response: Self)
        ensures
            response@ == channel_response(channel@),
    {
        let mut endpoint = String::from_str("/api/avaters/");
        endpoint.append(channel.id.as_str());
        ChannelResponse { channel, avatar_endpoint: endpoint }
    }
}

/// A video as it is answered, as a mathematical value.
pub struct VideoResponseView {
    pub video: VideoView,
    pub thumbnail_endpoint: Seq<char>,
    pub tags: Seq<Seq<char>>,
    pub channel: Option<ChannelResponseView>,
}

/// A video as it is answered: the row, where its thumbnail is served, the
/// names of its tags, and its channel where the answer is not given below
/// that channel.
#[derive(Debug, PartialEq, Eq)]
pub struct VideoResponse {
    pub video: Video,
    pub thumbnail_endpoint: String,
    pub tags: Vec<String>,
    pub channel: Option<ChannelResponse>,
}

/// The answer that `channel` holds, if any.
pub open spec fn optional_channel(channel: Option<ChannelResponse>) -> Option<
    ChannelResponseView,
> {
    match channel {
        Some(response) => Some(response@),
        None => None,
    }
}

impl View for VideoResponse {
    type V = VideoResponseView;

    open spec fn view(&self) -> VideoResponseView {
        VideoResponseView {
            video: self.video@,
            thumbnail_endpoint: self.thumbnail_endpoint@,
            tags: texts(self.tags@),
            channel: optional_channel(self.channel),
        }
    }
}

/// The answer that stands for `video`, with the tag names and the channel
/// given.
pub open spec fn video_response(
    video: VideoView,
    tags: Seq<Seq<char>>,
    channel: Option<ChannelResponseView>,
) -> VideoResponseView {
    VideoResponseView { video, thumbnail_endpoint: thumbnail_endpoint(video.id), tags, channel }
}

impl VideoResponse {
    /// The answer that stands for `video`, with the tag names and the
    /// channel given.
    pub fn new(video: Video, tags: Vec<String>, channel: Option<ChannelResponse>) -> (response:
        Self)
        ensures
            response@ == video_response(video@, texts(tags@), optional_channel(channel)),
    {
        let mut endpoint = String::from_str("/api/thumbnails/");
        endpoint.append(video.id.as_str());
        VideoResponse { video, thumbnail_endpoint: endpoint, tags, channel }
    }
}

/// A channel with its videos as it is answered, as a mathematical value.
pub struct ChannelWithVideosResponseView {
    pub channel: ChannelResponseView,
    pub videos: Seq<VideoResponseView>,
}

/// A channel as it is answered, with the videos that belong to it.
#[derive(Debug, PartialEq, Eq)]
pub struct ChannelWithVideosResponse {
    pub channel: ChannelResponse,
    pub videos: Vec<VideoResponse>,
}

/// The answers that `videos` hold.
pub open spec fn video_responses(videos: Seq<VideoResponse>) -> Seq<VideoResponseView> {
    Seq::new(videos.len(), |i: int| videos[i]@)
}

impl View for ChannelWithVideosResponse {
    type V = ChannelWithVideosResponseView;

    open spec fn view(&self) -> ChannelWithVideosResponseView {
        ChannelWithVideosResponseView {
            channel: self.channel@,
            videos: video_responses(self.videos@),
        }
    }
}

/// A watch session as it is answered, as a mathematical value.
pub struct WatchHistoryResponseView {
    pub watch_history: WatchHistoryView,
    pub video: VideoResponseView,
}

/// A watch session as it is answered: the row, and the video that was
/// watched.
#[derive(Debug, PartialEq, Eq)]
pub struct WatchHistoryResponse {
    pub watch_history: WatchHistory,
    pub video: VideoResponse,
}

impl View for WatchHistoryResponse {
    type V = WatchHistoryResponseView;

    open spec fn view(&self) -> WatchHistoryResponseView {
        WatchHistoryResponseView { watch_history: self.watch_history@, video: self.video@ }
    }
}

/// The names of the tags that the pairings `pairs` give the video
/// `video_id`, in the order of the pairings.
pub open spec fn names_among(pairs: Seq<VideoTagsView>, tags: Seq<TagView>, video_id: Seq<char>)
    -> Seq<Seq<char>>
    decreases pairs.len(),
{
    if pairs.len() == 0 {
        Seq::empty()
    } else {
        let rest = names_among(pairs.drop_last(), tags, video_id);
        let pairing = pairs.last();
        if pairing.video_id == video_id && tag_ids(tags).contains(pairing.tag_id) {
            rest.push(tags[tag_ids(tags).index_of(pairing.tag_id)].name)
        } else {
            rest
        }
    }
}

/// The names of the tags of the video `video_id`, in the order in which the
/// video was paired with them.
pub open spec fn video_tag_names(s: StoreView, video_id: Seq<char>) -> Seq<Seq<char>> {
    names_among(s.video_tags, s.tags, video_id)
}

/// The names of the tags of the video `video_id`.
pub fn tags_of_video(store: &Store, video_id: &String) -> (names: Vec<String>)
    requires
        store.wf(),
    ensures
        texts(names@) == video_tag_names(store@, video_id@),
{
    let pairs = store.video_tags();
    let tags = store.tags();
    let mut names: Vec<String> = Vec::new();
    let mut i: usize = 0;
    while i < pairs.len()
        invariant
            store.wf(),
            i <= pairs@.len(),
            video_tag_views(pairs@) == store@.video_tags,
            tag_views(tags@) == store@.tags,
            texts(names@) == names_among(store@.video_tags.take(i as int), store@.tags, video_id@),
        decreases pairs@.len() - i,
    {
        let ghost before = names@;
        proof {
            assert(store@.video_tags.take(i + 1).drop_last() =~= store@.video_tags.take(i as int));
            assert(video_tag_views(pairs@)[i as int] == pairs@[i as int]@);
        }
        if pairs[i].video_id == *video_id {
            match store.find_tag(&pairs[i].tag_id) {
                Some(t) => {
                    proof {
                        lemma_index_of_unique(tag_ids(store@.tags), pairs@[i as int]@.tag_id, t as int);
                        assert(tag_views(tags@)[t as int] == tags@[t as int]@);
                    }
                    names.push(tags[t].name.clone());
                    assert(texts(names@) =~= texts(before).push(tags@[t as int].name@));
                },
                None => {},
            }
        }
        i += 1;
    }
    assert(store@.video_tags.take(i as int) =~= store@.video_tags);
    names
}

} // verus!
