use crate::api_prelude::ChannelResponse;
use crate::api_prelude::ChannelResponseView;
use crate::api_prelude::PaginatedResponse;
use crate::api_prelude::VideoResponse;
use crate::api_prelude::VideoResponseView;
use crate::api_prelude::channel_response;
use crate::api_prelude::tags_of_video;
use crate::api_prelude::video_response;
use crate::api_prelude::video_responses;
use crate::api_prelude::video_tag_names;
use crate::database::models::VideoView;
use crate::database::store::Store;
use crate::database::store::StoreView;
use crate::database::store::channel_ids;
use crate::database::store::channel_views;
use crate::database::store::lemma_index_of_unique;
use crate::database::store::video_ids;
use crate::database::store::video_views;
use crate::errors::ApiError;
use crate::listing::count_rows;
use crate::listing::flag_is;
use crate::listing::found_in;
use crate::listing::is_flag;
use crate::listing::is_found_in;
use crate::listing::is_text;
use crate::listing::is_within;
use crate::listing::lemma_selected_sound;
use crate::listing::page;
use crate::listing::page_of;
use crate::listing::row_count;
use crate::listing::select;
use crate::listing::selected;
use crate::listing::text_is;
use crate::listing::within;
use crate::text::texts;
use vstd::prelude::*;
use vstd::string::*;

verus! {

/// The filters and the page of a listing of videos. A filter that is absent
/// lets every video through.
pub struct GetVideosParams {
    /// Data list offset
    pub offset: Option<i64>,
    /// Data list limit
    pub limit: Option<i64>,
    /// Search videos by title
    pub search: Option<String>,
    /// List only videos that belong to specified channel
    pub channel_id: Option<String>,
    /// List only videos of channels that are, or are not, subscribed to
    pub is_subscribed: Option<bool>,
    /// Channel subscribers_count equal to specified value
    pub subscribers_count: Option<i64>,
    /// Channel subscribers_count greater than specified value
    pub min_subscribers_count: Option<i64>,
    /// Channel subscribers_count less than specified value
    pub max_subscribers_count: Option<i64>,
    /// List only videos that have one of the specified tags
    pub tags: Option<Vec<String>>,
    /// Video watch_counter equal to specified value
    pub watch_counter: Option<i64>,
    /// Video watch_counter greater than specified value
    pub min_watch_counter: Option<i64>,
    /// Video watch_counter less than specified value
    pub max_watch_counter: Option<i64>,
    /// Video duration_seconds equal to specified value
    pub duration_seconds: Option<i64>,
    /// Video duration_seconds greater than specified value
    pub min_duration_seconds: Option<i64>,
    /// Video duration_seconds less than specified value
    pub max_duration_seconds: Option<i64>,
    /// Video likes_count equal to specified value
    pub likes_count: Option<i64>,
    /// Video likes_count greater than specified value
    pub min_likes_count: Option<i64>,
    /// Video likes_count less than specified value
    pub max_likes_count: Option<i64>,
    /// Video view_count equal to specified value
    pub view_count: Option<i64>,
    /// Video view_count greater than specified value
    pub min_view_count: Option<i64>,
    /// Video view_count less than specified value
    pub max_view_count: Option<i64>,
    /// Video comments_count equal to specified value
    pub comments_count: Option<i64>,
    /// Video comments_count greater than specified value
    pub min_comments_count: Option<i64>,
    /// Video comments_count less than specified value
    pub max_comments_count: Option<i64>,
    /// Video published_at equal to specified value
    pub published_at: Option<i64>,
    /// Video published_at before specified timestamp
    pub published_before: Option<i64>,
    /// Video published_at after specified timestamp
    pub published_after: Option<i64>,
}

impl GetVideosParams {
    /// The parameters that filter nothing and cut no page.
    pub fn new() -> (params: Self)
        ensures
            params.offset is None,
            params.limit is None,
            params.search is None,
            params.channel_id is None,
            params.is_subscribed is None,
            params.subscribers_count is None,
            params.min_subscribers_count is None,
            params.max_subscribers_count is None,
            params.tags is None,
            params.watch_counter is None,
            params.min_watch_counter is None,
            params.max_watch_counter is None,
            params.duration_seconds is None,
            params.min_duration_seconds is None,
            params.max_duration_seconds is None,
            params.likes_count is None,
            params.min_likes_count is None,
            params.max_likes_count is None,
            params.view_count is None,
            params.min_view_count is None,
            params.max_view_count is None,
            params.comments_count is None,
            params.min_comments_count is None,
            params.max_comments_count is None,
            params.published_at is None,
            params.published_before is None,
            params.published_after is None,
            forall|s: StoreView, v: VideoView|
                #[trigger] video_matches(s, params, v) == channel_ids(s.channels).contains(
                    v.channel_id,
                ),
    {
        GetVideosParams {
            offset: None,
            limit: None,
            search: None,
            channel_id: None,
            is_subscribed: None,
            subscribers_count: None,
            min_subscribers_count: None,
            max_subscribers_count: None,
            tags: None,
            watch_counter: None,
            min_watch_counter: None,
            max_watch_counter: None,
            duration_seconds: None,
            min_duration_seconds: None,
            max_duration_seconds: None,
            likes_count: None,
            min_likes_count: None,
            max_likes_count: None,
            view_count: None,
            min_view_count: None,
            max_view_count: None,
            comments_count: None,
            min_comments_count: None,
            max_comments_count: None,
            published_at: None,
            published_before: None,
            published_after: None,
        }
    }
}

/// Whether a video with the tag names `names` passes a filter for tags: one
/// of its names is among the wanted ones.
pub open spec fn tagged_with(wanted: Option<Vec<String>>, names: Seq<Seq<char>>) -> bool {
    wanted matches Some(list) ==> exists|k: int|
        0 <= k < names.len() && texts(list@).contains(#[trigger] names[k])
}

/// Whether a video with the tag names `names` passes a filter for tags.
pub fn is_tagged_with(wanted: &Option<Vec<String>>, names: &Vec<String>) -> (passes: bool)
    ensures
        passes == tagged_with(*wanted, texts(names@)),
{
    match wanted {
        None => true,
        Some(list) => {
            let mut k: usize = 0;
            while k < names.len()
                invariant
                    *wanted == Some(*list),
                    k <= names@.len(),
                    forall|j: int| 0 <= j < k ==> !texts(list@).contains(#[trigger] texts(names@)[j]),
                decreases names@.len() - k,
            {
                let mut l: usize = 0;
                while l < list.len()
                    invariant
                        *wanted == Some(*list),
                        k < names@.len(),
                        l <= list@.len(),
                        forall|j: int| 0 <= j < l ==> texts(list@)[j] != names@[k as int]@,
                    decreases list@.len() - l,
                {
                    if list[l] == names[k] {
                        assert(texts(list@)[l as int] == texts(names@)[k as int]);
                        assert(texts(list@).contains(texts(names@)[k as int]));
                        return true;
                    }
                    l += 1;
                }
                assert(texts(names@)[k as int] == names@[k as int]@);
                k += 1;
            }
            false
        },
    }
}

/// Whether the video `v` passes the filters `p`. A video is listed with its
/// channel, so one whose channel is missing passes nothing. Of a number, the
/// filter by its own name asks for equality, and the two filters beside it
/// are strict bounds.
pub open spec fn video_matches(s: StoreView, p: GetVideosParams, v: VideoView) -> bool {
    let ids = channel_ids(s.channels);
    let channel = s.channels[ids.index_of(v.channel_id)];
    &&& ids.contains(v.channel_id)
    &&& found_in(p.search, v.title)
    &&& text_is(p.channel_id, channel.id)
    &&& flag_is(p.is_subscribed, channel.is_subscribed)
    &&& within(
        p.subscribers_count,
        p.min_subscribers_count,
        p.max_subscribers_count,
        channel.subscribers_count,
    )
    &&& tagged_with(p.tags, video_tag_names(s, v.id))
    &&& within(p.watch_counter, p.min_watch_counter, p.max_watch_counter, v.watch_counter)
    &&& within(
        p.duration_seconds,
        p.min_duration_seconds,
        p.max_duration_seconds,
        v.duration_seconds,
    )
    &&& within(p.likes_count, p.min_likes_count, p.max_likes_count, v.likes_count)
    &&& within(p.view_count, p.min_view_count, p.max_view_count, v.view_count)
    &&& within(p.comments_count, p.min_comments_count, p.max_comments_count, v.comments_count)
    &&& within(p.published_at, p.published_after, p.published_before, v.published_at)
}

/// For each video, in storage order, whether it passes the filters `p`.
pub open spec fn video_flags(s: StoreView, p: GetVideosParams) -> Seq<bool> {
    Seq::new(s.videos.len(), |i: int| video_matches(s, p, s.videos[i]))
}

/// The positions of the videos that a listing with the parameters `p`
/// answers: those that pass the filters, in storage order and each once, cut
/// to the page.
pub open spec fn video_listing(s: StoreView, p: GetVideosParams) -> Seq<usize> {
    page(selected(video_flags(s, p)), p.offset, p.limit)
}

/// The channel that is answered with the video `v`.
pub open spec fn channel_beside(s: StoreView, v: VideoView) -> Option<ChannelResponseView> {
    let ids = channel_ids(s.channels);
    if ids.contains(v.channel_id) {
        Some(channel_response(s.channels[ids.index_of(v.channel_id)]))
    } else {
        None
    }
}

/// The answer that stands for the video `v`: the row, with the names of its
/// tags and with its channel.
pub open spec fn video_answer(s: StoreView, v: VideoView) -> VideoResponseView {
    video_response(v, video_tag_names(s, v.id), channel_beside(s, v))
}

/// The answers of a listing of videos with the parameters `p`.
pub open spec fn video_page(s: StoreView, p: GetVideosParams) -> Seq<VideoResponseView> {
    let listing = video_listing(s, p);
    Seq::new(listing.len(), |k: int| video_answer(s, s.videos[listing[k] as int]))
}

/// Whether the video at position `i` passes the filters `p`.
fn matches_video(store: &Store, p: &GetVideosParams, i: usize) -> (passes: bool)
    requires
        store.wf(),
        i < store@.videos.len(),
    ensures
        passes == video_matches(store@, *p, store@.videos[i as int]),
{
    let videos = store.videos();
    let channels = store.channels();
    let video = &videos[i];
    assert(video_views(videos@)[i as int] == video@);
    match store.find_channel(&video.channel_id) {
        None => false,
        Some(c) => {
            let channel = &channels[c];
            proof {
                lemma_index_of_unique(channel_ids(store@.channels), video@.channel_id, c as int);
                assert(channel_views(channels@)[c as int] == channel@);
            }
            if !(is_found_in(&p.search, &video.title) && is_text(&p.channel_id, &channel.id)
                && is_flag(p.is_subscribed, channel.is_subscribed) && is_within(
                p.subscribers_count,
                p.min_subscribers_count,
                p.max_subscribers_count,
                channel.subscribers_count,
            ) && is_within(
                p.watch_counter,
                p.min_watch_counter,
                p.max_watch_counter,
                video.watch_counter,
            ) && is_within(
                p.duration_seconds,
                p.min_duration_seconds,
                p.max_duration_seconds,
                video.duration_seconds,
            ) && is_within(p.likes_count, p.min_likes_count, p.max_likes_count, video.likes_count)
                && is_within(p.view_count, p.min_view_count, p.max_view_count, video.view_count)
                && is_within(
                p.comments_count,
                p.min_comments_count,
                p.max_comments_count,
                video.comments_count,
            ) && is_within(
                p.published_at,
                p.published_after,
                p.published_before,
                video.published_at,
            )) {
                return false;
            }
            if p.tags.is_none() {
                return true;
            }
            let names = tags_of_video(store, &video.id);
            is_tagged_with(&p.tags, &names)
        },
    }
}

/// The answer that stands for the video at position `i`.
pub fn answer_video(store: &Store, i: usize) -> (answer: VideoResponse)
    requires
        store.wf(),
        i < store@.videos.len(),
    ensures
        answer@ == video_answer(store@, store@.videos[i as int]),
{
    let videos = store.videos();
    let channels = store.channels();
    let video = videos[i].clone();
    assert(video_views(videos@)[i as int] == video@);
    let tags = tags_of_video(store, &video.id);
    let channel = match store.find_channel(&video.channel_id) {
        None => None,
        Some(c) => {
            proof {
                lemma_index_of_unique(channel_ids(store@.channels), video@.channel_id, c as int);
                assert(channel_views(channels@)[c as int] == channels@[c as int]@);
            }
            Some(ChannelResponse::new(channels[c].clone()))
        },
    };
    VideoResponse::new(video, tags, channel)
}

/// Lists the videos that pass the filters of `params`, in storage order and
/// each once, cut to the page that `offset` and `limit` ask for. `total`
/// counts the whole table, whatever the filters.
pub fn get_videos(store: &Store, params: &GetVideosParams) -> (listed: PaginatedResponse<
    VideoResponse,
>)
    requires
        store.wf(),
    ensures
        video_responses(listed.data@) == video_page(store@, *params),
        listed.offset == params.offset,
        listed.limit == params.limit,
        listed.total == row_count(store@.videos.len()),
{
    let rows = store.videos();
    let count: usize = rows.len();
    assert(video_views(rows@).len() == count);
    let mut flags: Vec<bool> = Vec::new();
    let mut i: usize = 0;
    while i < count
        invariant
            store.wf(),
            count == store@.videos.len(),
            i <= count,
            flags@.len() == i,
            forall|j: int|
                0 <= j < i ==> flags@[j] == video_matches(store@, *params, store@.videos[j]),
        decreases count - i,
    {
        flags.push(matches_video(store, params, i));
        i += 1;
    }
    assert(flags@ =~= video_flags(store@, *params));
    let hits = select(&flags);
    let listing = page_of(&hits, params.offset, params.limit);
    proof {
        lemma_selected_sound(flags@);
    }
    let mut data: Vec<VideoResponse> = Vec::new();
    let mut k: usize = 0;
    while k < listing.len()
        invariant
            store.wf(),
            count == store@.videos.len(),
            k <= listing@.len(),
            listing@ == video_listing(store@, *params),
            forall|j: int| 0 <= j < listing@.len() ==> listing@[j] < count,
            data@.len() == k,
            forall|j: int|
                0 <= j < k ==> (#[trigger] data@[j])@ == video_answer(
                    store@,
                    store@.videos[listing@[j] as int],
                ),
        decreases listing@.len() - k,
    {
        data.push(answer_video(store, listing[k]));
        k += 1;
    }
    assert(video_responses(data@) =~= video_page(store@, *params));
    PaginatedResponse::new(data, params.offset, params.limit, count_rows(count))
}

/// Fetches the video `id`, with the names of its tags and with its channel.
/// `NotFound` where no video has the id.
pub fn get_video(store: &Store, id: &String) -> (found: Result<VideoResponse, ApiError>)
    requires
        store.wf(),
    ensures
        match found {
            Ok(answer) => video_ids(store@.videos).contains(id@) && answer@ == video_answer(
                store@,
                store@.videos[video_ids(store@.videos).index_of(id@)],
            ),
            Err(error) => error == ApiError::NotFound && !video_ids(store@.videos).contains(id@),
        },
{
    match store.find_video(id) {
        Some(i) => {
            proof {
                lemma_index_of_unique(video_ids(store@.videos), id@, i as int);
            }
            Ok(answer_video(store, i))
        },
        None => Err(ApiError::NotFound),
    }
}

} // verus!
