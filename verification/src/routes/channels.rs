use crate::api_prelude::ChannelResponse;
use crate::api_prelude::ChannelWithVideosResponse;
use crate::api_prelude::ChannelWithVideosResponseView;
use crate::api_prelude::PaginatedResponse;
use crate::api_prelude::SortOrder;
use crate::api_prelude::VideoResponse;
use crate::api_prelude::VideoResponseView;
use crate::api_prelude::channel_response;
use crate::api_prelude::tags_of_video;
use crate::api_prelude::video_response;
use crate::api_prelude::video_responses;
use crate::api_prelude::video_tag_names;
use crate::database::models::ChannelView;
use crate::database::models::VideoView;
use crate::database::store::Store;
use crate::database::store::StoreView;
use crate::database::store::channel_ids;
use crate::database::store::channel_views;
use crate::database::store::lemma_index_of_unique;
use crate::database::store::video_views;
use crate::errors::ApiError;
use crate::listing::SortKey;
use crate::listing::SortKeyView;
use crate::listing::count_rows;
use crate::listing::flag_is;
use crate::listing::found_in;
use crate::listing::is_flag;
use crate::listing::is_found_in;
use crate::listing::is_within;
use crate::listing::key_views;
use crate::listing::lemma_selected_sound;
use crate::listing::page;
use crate::listing::page_of;
use crate::listing::row_count;
use crate::listing::select;
use crate::listing::selected;
use crate::listing::sort;
use crate::listing::sorted_by;
use crate::listing::within;
use crate::text::chars_of;
use vstd::prelude::*;
use vstd::string::*;

verus! {

/// The column by which a listing of channels is sorted.
#[derive(Debug, Clone, Copy, PartialEq, Eq, Structural)]
pub enum SortBy {
    Name,
    IsSubscribed,
    SubscribersCount,
}

/// The filters, the sort and the page of a listing of channels. A filter
/// that is absent lets every channel through.
pub struct GetChannelsParams {
    /// Sort order
    pub sort_order: Option<SortOrder>,
    /// Sort by specified field
    pub sort_by: Option<SortBy>,
    /// Data list offset
    pub offset: Option<i64>,
    /// Data list limit
    pub limit: Option<i64>,
    /// Search channels by name
    pub search: Option<String>,
    /// List only channels that are, or are not, subscribed to
    pub is_subscribed: Option<bool>,
    /// Channel subscribers_count equal to specified value
    pub subscribers_count: Option<i64>,
    /// Channel subscribers_count greater than specified value
    pub min_subscribers_count: Option<i64>,
    /// Channel subscribers_count less than specified value
    pub max_subscribers_count: Option<i64>,
}

impl GetChannelsParams {
    /// The parameters that filter nothing, sort nothing and cut no page.
    pub fn new() -> (params: Self)
        ensures
            params.sort_order is None,
            params.sort_by is None,
            params.offset is None,
            params.limit is None,
            params.search is None,
            params.is_subscribed is None,
            params.subscribers_count is None,
            params.min_subscribers_count is None,
            params.max_subscribers_count is None,
            forall|c: ChannelView| #[trigger] channel_matches(params, c),
    {
        GetChannelsParams {
            sort_order: None,
            sort_by: None,
            offset: None,
            limit: None,
            search: None,
            is_subscribed: None,
            subscribers_count: None,
            min_subscribers_count: None,
            max_subscribers_count: None,
        }
    }
}

/// Whether the channel `c` passes the filters `p`.
pub open spec fn channel_matches(p: GetChannelsParams, c: ChannelView) -> bool {
    &&& found_in(p.search, c.name)
    &&& flag_is(p.is_subscribed, c.is_subscribed)
    &&& within(
        p.subscribers_count,
        p.min_subscribers_count,
        p.max_subscribers_count,
        c.subscribers_count,
    )
}

/// For each channel, in storage order, whether it passes the filters `p`.
pub open spec fn channel_flags(rows: Seq<ChannelView>, p: GetChannelsParams) -> Seq<bool> {
    Seq::new(rows.len(), |i: int| channel_matches(p, rows[i]))
}

/// The value by which the channel `c` is sorted under `by`.
pub open spec fn channel_key(c: ChannelView, by: SortBy) -> SortKeyView {
    match by {
        SortBy::Name => SortKeyView::Text(c.name),
        SortBy::IsSubscribed => SortKeyView::Flag(c.is_subscribed),
        SortBy::SubscribersCount => SortKeyView::Number(c.subscribers_count),
    }
}

/// For each channel, in storage order, the value by which it is sorted.
pub open spec fn channel_keys(rows: Seq<ChannelView>, by: SortBy) -> Seq<SortKeyView> {
    Seq::new(rows.len(), |i: int| channel_key(rows[i], by))
}

/// The positions of the channels that pass the filters `p`, in the order in
/// which a listing answers them before it is cut to a page: sorted where a
/// column and a direction are both given, and in storage order otherwise.
pub open spec fn channel_order(rows: Seq<ChannelView>, p: GetChannelsParams) -> Seq<usize> {
    let hits = selected(channel_flags(rows, p));
    match (p.sort_by, p.sort_order) {
        (Some(by), Some(direction)) => sorted_by(
            hits,
            channel_keys(rows, by),
            direction == SortOrder::Desc,
        ),
        _ => hits,
    }
}

/// The positions of the channels that a listing with the parameters `p`
/// answers.
pub open spec fn channel_listing(rows: Seq<ChannelView>, p: GetChannelsParams) -> Seq<usize> {
    page(channel_order(rows, p), p.offset, p.limit)
}

/// The answers for those of `videos` that belong to the channel
/// `channel_id`, in the order of `videos`. Below a channel a video is
/// answered without its channel.
pub open spec fn videos_among(s: StoreView, videos: Seq<VideoView>, channel_id: Seq<char>) -> Seq<
    VideoResponseView,
>
    decreases videos.len(),
{
    if videos.len() == 0 {
        Seq::empty()
    } else {
        let rest = videos_among(s, videos.drop_last(), channel_id);
        let video = videos.last();
        if video.channel_id == channel_id {
            rest.push(video_response(video, video_tag_names(s, video.id), None))
        } else {
            rest
        }
    }
}

/// The answer that stands for the channel `c`: the row, and its videos in
/// storage order.
pub open spec fn channel_answer(s: StoreView, c: ChannelView) -> ChannelWithVideosResponseView {
    ChannelWithVideosResponseView {
        channel: channel_response(c),
        videos: videos_among(s, s.videos, c.id),
    }
}

/// The answers that `channels` hold.
pub open spec fn channel_answers(channels: Seq<ChannelWithVideosResponse>) -> Seq<
    ChannelWithVideosResponseView,
> {
    Seq::new(channels.len(), |i: int| channels[i]@)
}

/// The answers of a listing of channels with the parameters `p`.
pub open spec fn channel_page(s: StoreView, p: GetChannelsParams) -> Seq<
    ChannelWithVideosResponseView,
> {
    let listing = channel_listing(s.channels, p);
    Seq::new(listing.len(), |k: int| channel_answer(s, s.channels[listing[k] as int]))
}

/// The answers for the videos of the channel `channel_id`.
pub fn videos_of_channel(store: &Store, channel_id: &String) -> (answers: Vec<VideoResponse>)
    requires
        store.wf(),
    ensures
        video_responses(answers@) == videos_among(store@, store@.videos, channel_id@),
{
    let videos = store.videos();
    let mut answers: Vec<VideoResponse> = Vec::new();
    let mut i: usize = 0;
    while i < videos.len()
        invariant
            store.wf(),
            i <= videos@.len(),
            video_views(videos@) == store@.videos,
            video_responses(answers@) == videos_among(
                store@,
                store@.videos.take(i as int),
                channel_id@,
            ),
        decreases videos@.len() - i,
    {
        let ghost before = answers@;
        proof {
            assert(store@.videos.take(i + 1).drop_last() =~= store@.videos.take(i as int));
            assert(video_views(videos@)[i as int] == videos@[i as int]@);
        }
        if videos[i].channel_id == *channel_id {
            let tags = tags_of_video(store, &videos[i].id);
            let answer = VideoResponse::new(videos[i].clone(), tags, None);
            answers.push(answer);
            assert(video_responses(answers@) =~= video_responses(before).push(answer@));
        }
        i += 1;
    }
    assert(store@.videos.take(i as int) =~= store@.videos);
    answers
}

/// The answer that stands for the channel at position `i`.
pub fn answer_channel(store: &Store, i: usize) -> (answer: ChannelWithVideosResponse)
    requires
        store.wf(),
        i < store@.channels.len(),
    ensures
        answer@ == channel_answer(store@, store@.channels[i as int]),
{
    let channels = store.channels();
    let channel = channels[i].clone();
    assert(channel_views(channels@)[i as int] == channel@);
    let videos = videos_of_channel(store, &channel.id);
    ChannelWithVideosResponse { channel: ChannelResponse::new(channel), videos }
}

/// For each channel, in storage order, the value by which it is sorted.
fn keys_of_channels(store: &Store, by: SortBy) -> (keys: Vec<SortKey>)
    ensures
        key_views(keys@) == channel_keys(store@.channels, by),
{
    let channels = store.channels();
    let mut keys: Vec<SortKey> = Vec::new();
    let mut i: usize = 0;
    while i < channels.len()
        invariant
            i <= channels@.len(),
            channel_views(channels@) == store@.channels,
            keys@.len() == i,
            forall|j: int|
                0 <= j < i ==> (#[trigger] keys@[j])@ == channel_key(store@.channels[j], by),
        decreases channels@.len() - i,
    {
        assert(channel_views(channels@)[i as int] == channels@[i as int]@);
        let key = match by {
            SortBy::Name => SortKey::Text(chars_of(&channels[i].name)),
            SortBy::IsSubscribed => SortKey::Flag(channels[i].is_subscribed),
            SortBy::SubscribersCount => SortKey::Number(channels[i].subscribers_count),
        };
        keys.push(key);
        i += 1;
    }
    assert(key_views(keys@) =~= channel_keys(store@.channels, by));
    keys
}

/// Lists the channels that pass the filters of `params`, sorted where a
/// column and a direction are both given and in storage order otherwise,
/// cut to the page that `offset` and `limit` ask for. `total` counts the
/// whole table, whatever the filters.
pub fn get_channels(store: &Store, params: &GetChannelsParams) -> (listed: PaginatedResponse<
    ChannelWithVideosResponse,
>)
    requires
        store.wf(),
    ensures
        channel_answers(listed.data@) == channel_page(store@, *params),
        listed.offset == params.offset,
        listed.limit == params.limit,
        listed.total == row_count(store@.channels.len()),
{
    let channels = store.channels();
    let count: usize = channels.len();
    assert(channel_views(channels@).len() == count);
    let mut flags: Vec<bool> = Vec::new();
    let mut i: usize = 0;
    while i < count
        invariant
            count == store@.channels.len(),
            count == channels@.len(),
            channel_views(channels@) == store@.channels,
            i <= count,
            flags@.len() == i,
            forall|j: int| 0 <= j < i ==> flags@[j] == channel_matches(*params, store@.channels[j]),
        decreases count - i,
    {
        let channel = &channels[i];
        assert(channel_views(channels@)[i as int] == channel@);
        let passes: bool = is_found_in(&params.search, &channel.name) && is_flag(
            params.is_subscribed,
            channel.is_subscribed,
        ) && is_within(
            params.subscribers_count,
            params.min_subscribers_count,
            params.max_subscribers_count,
            channel.subscribers_count,
        );
        flags.push(passes);
        i += 1;
    }
    assert(flags@ =~= channel_flags(store@.channels, *params));
    let hits = select(&flags);
    proof {
        lemma_selected_sound(flags@);
    }
    let ordered = match (params.sort_by, params.sort_order) {
        (Some(by), Some(direction)) => {
            let keys = keys_of_channels(store, by);
            assert(key_views(keys@).len() == count);
            sort(&hits, &keys, direction == SortOrder::Desc)
        },
        _ => hits,
    };
    assert(ordered@ == channel_order(store@.channels, *params));
    let listing = page_of(&ordered, params.offset, params.limit);
    let mut data: Vec<ChannelWithVideosResponse> = Vec::new();
    let mut k: usize = 0;
    while k < listing.len()
        invariant
            store.wf(),
            count == store@.channels.len(),
            k <= listing@.len(),
            listing@ == channel_listing(store@.channels, *params),
            forall|j: int| 0 <= j < listing@.len() ==> listing@[j] < count,
            data@.len() == k,
            forall|j: int|
                0 <= j < k ==> (#[trigger] data@[j])@ == channel_answer(
                    store@,
                    store@.channels[listing@[j] as int],
                ),
        decreases listing@.len() - k,
    {
        data.push(answer_channel(store, listing[k]));
        k += 1;
    }
    assert(channel_answers(data@) =~= channel_page(store@, *params));
    PaginatedResponse::new(data, params.offset, params.limit, count_rows(count))
}

/// Fetches the channel `id`, with its videos. `NotFound` where no channel
/// has the id.
pub fn get_channel(store: &Store, id: &String) -> (found: Result<
    ChannelWithVideosResponse,
    ApiError,
>)
    requires
        store.wf(),
    ensures
        match found {
            Ok(answer) => channel_ids(store@.channels).contains(id@) && answer@
                == channel_answer(
                store@,
                store@.channels[channel_ids(store@.channels).index_of(id@)],
            ),
            Err(error) => error == ApiError::NotFound && !channel_ids(store@.channels).contains(
                id@,
            ),
        },
{
    match store.find_channel(id) {
        Some(i) => {
            proof {
                lemma_index_of_unique(channel_ids(store@.channels), id@, i as int);
            }
            Ok(answer_channel(store, i))
        },
        None => Err(ApiError::NotFound),
    }
}

} // verus!
