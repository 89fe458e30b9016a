use crate::api_prelude::ChannelResponse;
use crate::api_prelude::PaginatedResponse;
use crate::api_prelude::VideoResponse;
use crate::api_prelude::WatchHistoryResponse;
use crate::api_prelude::WatchHistoryResponseView;
use crate::api_prelude::channel_response;
use crate::api_prelude::tags_of_video;
use crate::api_prelude::video_response;
use crate::api_prelude::video_tag_names;
use crate::calendar::day_matches;
use crate::calendar::is_day;
use crate::calendar::is_month;
use crate::calendar::is_year;
use crate::calendar::month_matches;
use crate::calendar::year_matches;
use crate::clock::unix_now;
use crate::database::store::channel_views;
use crate::database::store::video_views;
use crate::database::store::watch_history_views;
use crate::listing::count_rows;
use crate::listing::is_text;
use crate::listing::is_within;
use crate::listing::lemma_selected_sound;
use crate::listing::page;
use crate::listing::page_of;
use crate::listing::row_count;
use crate::listing::select;
use crate::listing::selected;
use crate::listing::text_is;
use crate::listing::within;
use crate::database::models::Channel;
use crate::database::models::ChannelView;
use crate::database::models::NewChannelParams;
use crate::database::models::NewVideoParams;
use crate::database::models::Tag;
use crate::database::models::TagView;
use crate::database::models::Video;
use crate::database::models::VideoTags;
use crate::database::models::VideoTagsView;
use crate::database::models::VideoView;
use crate::database::models::WatchHistory;
use crate::database::models::WatchHistoryView;
use crate::database::models::video_url;
use crate::database::store::Store;
use crate::database::store::StoreView;
use crate::database::store::channel_ids;
use crate::database::store::history_ids;
use crate::database::store::insert_tag;
use crate::database::store::insert_video_tag;
use crate::database::store::insert_watch_history;
use crate::database::store::lemma_index_of_unique;
use crate::database::store::lemma_push_keeps;
use crate::database::store::tag_ids;
use crate::database::store::tag_names;
use crate::database::store::tag_views;
use crate::database::store::upsert_channel;
use crate::database::store::upsert_video;
use crate::database::store::video_ids;
use crate::errors::ApiError;
use crate::errors::status_of;
use crate::image_cache::ImageKind;
use crate::image_cache::cacheable;
use crate::image_cache::is_cacheable;
use crate::ids::is_generated_id;
use crate::ids::random_id;
use crate::text::texts;
use vstd::prelude::*;
use vstd::string::*;

verus! {

/// The channel of a watch event, as the client describes it.
pub struct CreateWatchHistoryChannel {
    pub id: String,
    pub name: String,
    pub avater_url: String,
    pub url: String,
    pub is_subscribed: bool,
    pub subscribers_count: i64,
}

/// The video of a watch event, as the client describes it.
pub struct CreateWatchHistoryVideo {
    pub id: String,
    pub title: String,
    pub description: String,
    pub thumbnail_url: String,
    pub tags: Vec<String>,
    pub likes_count: i64,
    pub view_count: i64,
    pub comments_count: i64,
    pub duration: i64,
    pub published_at: i64,
}

/// One watch event: a session, with the channel and the video it belongs to.
pub struct CreateWatchHistoryRequest {
    pub watch_duration_seconds: i64,
    pub session_start_date: i64,
    pub session_end_date: i64,
    pub channel: CreateWatchHistoryChannel,
    pub video: CreateWatchHistoryVideo,
}

/// What the ingestion of one record draws from outside: the time, an
/// identifier for each tag name, used where the name is new, and an
/// identifier for the watch session.
pub struct Generated {
    pub now: i64,
    pub tag_ids: Vec<String>,
    pub history_id: String,
}

/// The channel row that `record` brings.
pub open spec fn incoming_channel(record: CreateWatchHistoryRequest, now: i64) -> ChannelView {
    ChannelView {
        id: record.channel.id@,
        name: record.channel.name@,
        url: record.channel.url@,
        is_subscribed: record.channel.is_subscribed,
        subscribers_count: record.channel.subscribers_count,
        added_at: now,
    }
}

/// The video row that `record` brings: it belongs to the record's channel.
pub open spec fn incoming_video(record: CreateWatchHistoryRequest, now: i64) -> VideoView {
    VideoView {
        id: record.video.id@,
        channel_id: record.channel.id@,
        url: video_url(record.video.id@),
        title: record.video.title@,
        description: record.video.description@,
        watch_counter: 0,
        duration_seconds: record.video.duration,
        likes_count: record.video.likes_count,
        view_count: record.video.view_count,
        comments_count: record.video.comments_count,
        published_at: record.video.published_at,
        added_at: now,
    }
}

/// The watch session that `record` brings, under the identifier `id`.
pub open spec fn incoming_session(record: CreateWatchHistoryRequest, id: Seq<char>, now: i64)
    -> WatchHistoryView {
    WatchHistoryView {
        id,
        video_id: record.video.id@,
        channel_id: record.channel.id@,
        watch_duration_seconds: record.watch_duration_seconds,
        session_start_date: record.session_start_date,
        session_end_date: record.session_end_date,
        added_at: now,
    }
}

/// The identifier of the tag that a video is paired with under `name`: that
/// of the tag so named, or `fresh` where the name is new.
pub open spec fn tag_id_for(tags: Seq<TagView>, name: Seq<char>, fresh: Seq<char>) -> Seq<char> {
    let names = tag_names(tags);
    if names.contains(name) {
        tags[names.index_of(name)].id
    } else {
        fresh
    }
}

/// The store after the video `video_id` was tagged `name`: the tag is
/// created under the identifier `fresh` where no tag has the name, and the
/// video is paired with it unless it is already.
pub open spec fn link_tag(
    s: StoreView,
    video_id: Seq<char>,
    name: Seq<char>,
    fresh: Seq<char>,
    now: i64,
) -> StoreView {
    let tags = if tag_names(s.tags).contains(name) {
        s.tags
    } else {
        insert_tag(s.tags, TagView { id: fresh, name, added_at: now })
    };
    let pairing = VideoTagsView { video_id, tag_id: tag_id_for(s.tags, name, fresh) };
    StoreView { tags, video_tags: insert_video_tag(s.video_tags, pairing), ..s }
}

/// The store after the video `video_id` was tagged with each of `names` in
/// turn, the k-th of them with `fresh[k]` at hand.
pub open spec fn link_tags(
    s: StoreView,
    video_id: Seq<char>,
    names: Seq<Seq<char>>,
    fresh: Seq<Seq<char>>,
    now: i64,
) -> StoreView
    recommends
        names.len() == fresh.len(),
    decreases names.len(),
{
    if names.len() == 0 {
        s
    } else {
        link_tag(
            link_tags(s, video_id, names.drop_last(), fresh.drop_last(), now),
            video_id,
            names.last(),
            fresh.last(),
            now,
        )
    }
}

/// The store after `record` was ingested with the outside values `g`: the
/// channel and the video are inserted or refreshed, the video is tagged, and
/// the session is appended.
pub open spec fn ingested(s: StoreView, record: CreateWatchHistoryRequest, g: Generated)
    -> StoreView {
    let with_channel = StoreView {
        channels: upsert_channel(s.channels, incoming_channel(record, g.now)),
        ..s
    };
    let with_video = StoreView {
        videos: upsert_video(with_channel.videos, incoming_video(record, g.now)),
        ..with_channel
    };
    let with_tags = link_tags(
        with_video,
        record.video.id@,
        texts(record.video.tags@),
        texts(g.tag_ids@),
        g.now,
    );
    StoreView {
        watch_history: insert_watch_history(
            with_tags.watch_history,
            incoming_session(record, g.history_id@, g.now),
        ),
        ..with_tags
    }
}

/// After an insert or a refresh the channel's id is in the table, and so is
/// every id that was there before.
pub proof fn lemma_upsert_channel_ids(rows: Seq<ChannelView>, row: ChannelView)
    requires
        channel_ids(rows).no_duplicates(),
    ensures
        channel_ids(upsert_channel(rows, row)).contains(row.id),
        forall|key: Seq<char>| #[trigger]
            channel_ids(rows).contains(key) ==> channel_ids(upsert_channel(rows, row)).contains(
                key,
            ),
{
    let before = channel_ids(rows);
    let after = channel_ids(upsert_channel(rows, row));
    if before.contains(row.id) {
        assert(after =~= before);
    } else {
        assert(after =~= before.push(row.id));
        assert(after[before.len() as int] == row.id);
        assert forall|key: Seq<char>| #[trigger] before.contains(key) implies after.contains(
            key,
        ) by {
            lemma_push_keeps(before, row.id, key);
        }
    }
}

/// After an insert or a refresh the video's id is in the table, and so is
/// every id that was there before.
pub proof fn lemma_upsert_video_ids(rows: Seq<VideoView>, row: VideoView)
    requires
        video_ids(rows).no_duplicates(),
    ensures
        video_ids(upsert_video(rows, row)).contains(row.id),
        forall|key: Seq<char>| #[trigger]
            video_ids(rows).contains(key) ==> video_ids(upsert_video(rows, row)).contains(key),
{
    let before = video_ids(rows);
    let after = video_ids(upsert_video(rows, row));
    if before.contains(row.id) {
        assert(after =~= before);
    } else {
        assert(after =~= before.push(row.id));
        assert(after[before.len() as int] == row.id);
        assert forall|key: Seq<char>| #[trigger] before.contains(key) implies after.contains(
            key,
        ) by {
            lemma_push_keeps(before, row.id, key);
        }
    }
}

/// Ingests `record` with the outside values `generated`.
pub fn apply_record(store: &mut Store, record: &CreateWatchHistoryRequest, generated: &Generated)
    requires
        old(store).wf(),
        generated.tag_ids@.len() == record.video.tags@.len(),
    ensures
        final(store).wf(),
        final(store)@ == ingested(old(store)@, *record, *generated),
{
    let now: i64 = generated.now;
    let channel = Channel::created_at(
        NewChannelParams {
            id: record.channel.id.clone(),
            name: record.channel.name.clone(),
            url: record.channel.url.clone(),
            is_subscribed: record.channel.is_subscribed,
            subscribers_count: record.channel.subscribers_count,
        },
        now,
    );
    assert(channel@ == incoming_channel(*record, now));
    proof {
        lemma_upsert_channel_ids(store@.channels, channel@);
    }
    store.upsert_channel(channel);
    let video = Video::created_at(
        NewVideoParams {
            id: record.video.id.clone(),
            channel_id: record.channel.id.clone(),
            title: record.video.title.clone(),
            description: record.video.description.clone(),
            duration_seconds: record.video.duration,
            likes_count: record.video.likes_count,
            view_count: record.video.view_count,
            comments_count: record.video.comments_count,
            published_at: record.video.published_at,
        },
        now,
    );
    assert(video@ == incoming_video(*record, now));
    proof {
        lemma_upsert_video_ids(store@.videos, video@);
    }
    let stored = store.upsert_video(video);
    assert(stored is Ok);
    let ghost with_video = store@;
    let ghost names = texts(record.video.tags@);
    let ghost fresh = texts(generated.tag_ids@);
    let mut k: usize = 0;
    while k < record.video.tags.len()
        invariant
            k <= record.video.tags@.len(),
            generated.tag_ids@.len() == record.video.tags@.len(),
            names == texts(record.video.tags@),
            fresh == texts(generated.tag_ids@),
            now == generated.now,
            store.wf(),
            video_ids(store@.videos).contains(record.video.id@),
            channel_ids(store@.channels).contains(record.channel.id@),
            store@ == link_tags(
                with_video,
                record.video.id@,
                names.take(k as int),
                fresh.take(k as int),
                now,
            ),
        decreases record.video.tags@.len() - k,
    {
        let ghost before = store@;
        let name = &record.video.tags[k];
        assert(name@ == names[k as int]);
        assert(generated.tag_ids@[k as int]@ == fresh[k as int]);
        let tag_id = match store.find_tag_by_name(name) {
            Some(i) => {
                let rows = store.tags();
                proof {
                    lemma_index_of_unique(tag_names(store@.tags), name@, i as int);
                    assert(tag_views(rows@)[i as int] == store@.tags[i as int]);
                    assert(tag_ids(store@.tags)[i as int] == store@.tags[i as int].id);
                }
                rows[i].id.clone()
            },
            None => {
                let id = generated.tag_ids[k].clone();
                let tag = Tag::created_at(id.clone(), name.clone(), now);
                proof {
                    let ids = tag_ids(store@.tags);
                    if !ids.contains(id@) {
                        assert(tag_ids(insert_tag(store@.tags, tag@)) =~= ids.push(id@));
                        assert(ids.push(id@)[ids.len() as int] == id@);
                    }
                }
                store.insert_tag(tag);
                id
            },
        };
        assert(tag_id@ == tag_id_for(before.tags, name@, fresh[k as int]));
        assert(tag_ids(store@.tags).contains(tag_id@));
        let linked = store.insert_video_tag(VideoTags::new(record.video.id.clone(), tag_id));
        assert(linked is Ok);
        proof {
            assert(store@ == link_tag(before, record.video.id@, name@, fresh[k as int], now));
            assert(names.take(k + 1).drop_last() =~= names.take(k as int));
            assert(fresh.take(k + 1).drop_last() =~= fresh.take(k as int));
            assert(names.take(k + 1).last() == names[k as int]);
            assert(fresh.take(k + 1).last() == fresh[k as int]);
        }
        k += 1;
    }
    proof {
        assert(names.take(k as int) =~= names);
        assert(fresh.take(k as int) =~= fresh);
    }
    let session = WatchHistory::created_at(
        generated.history_id.clone(),
        record.video.id.clone(),
        record.channel.id.clone(),
        record.watch_duration_seconds,
        record.session_start_date,
        record.session_end_date,
        now,
    );
    assert(session@ == incoming_session(*record, generated.history_id@, now));
    let appended = store.insert_watch_history(session);
    assert(appended is Ok);
}

/// Whether the identifiers of `g` are such as ingestion draws for `record`:
/// of the generated shape, one for each tag name and one for the session.
pub open spec fn identifiers_drawn_for(g: Generated, record: CreateWatchHistoryRequest) -> bool {
    &&& g.tag_ids@.len() == record.video.tags@.len()
    &&& forall|k: int| 0 <= k < g.tag_ids@.len() ==> is_generated_id(#[trigger] g.tag_ids@[k]@)
    &&& is_generated_id(g.history_id@)
}

/// Whether `g` is a draw that ingestion can make for `record`: a time at or
/// after the epoch, and identifiers of the generated shape, one for each tag
/// name and one for the session.
pub open spec fn drawn_for(g: Generated, record: CreateWatchHistoryRequest) -> bool {
    g.now >= 0 && identifiers_drawn_for(g, record)
}

/// Draws the identifiers that the ingestion of `record` may need, for the
/// time that the clock was read at: there is a draw exactly where the clock
/// gave a reading, and its time is that reading.
pub fn draw_at(record: &CreateWatchHistoryRequest, reading: Option<i64>) -> (drawn: Option<
    Generated,
>)
    ensures
        match reading {
            Some(now) => drawn matches Some(g) && g.now == now && identifiers_drawn_for(
                g,
                *record,
            ),
            None => drawn is None,
        },
{
    match reading {
        None => None,
        Some(now) => {
            let mut tag_ids: Vec<String> = Vec::new();
            let mut k: usize = 0;
            while k < record.video.tags.len()
                invariant
                    k <= record.video.tags@.len(),
                    tag_ids@.len() == k,
                    forall|j: int| 0 <= j < k ==> is_generated_id(#[trigger] tag_ids@[j]@),
                decreases record.video.tags@.len() - k,
            {
                tag_ids.push(random_id());
                k += 1;
            }
            Some(Generated { now, tag_ids, history_id: random_id() })
        },
    }
}

/// Reads the clock and draws the identifiers that the ingestion of `record`
/// may need. `None` where the system clock cannot be read as seconds since
/// the Unix epoch.
pub fn draw(record: &CreateWatchHistoryRequest) -> (drawn: Option<Generated>)
    ensures
        drawn matches Some(g) ==> drawn_for(g, *record),
{
    draw_at(record, unix_now())
}

/// Ingests `record`: reads the clock, draws the identifiers, and applies the
/// record to the store. Where the clock cannot be read the store stays as it
/// was.
pub fn ingest_record(store: &mut Store, record: &CreateWatchHistoryRequest) -> (outcome: Result<
    (),
    ApiError,
>)
    requires
        old(store).wf(),
    ensures
        final(store).wf(),
        outcome is Ok ==> exists|g: Generated|
            drawn_for(g, *record) && final(store)@ == #[trigger] ingested(
                old(store)@,
                *record,
                g,
            ),
        outcome is Err ==> outcome == Err::<(), ApiError>(ApiError::Clock) && final(store)@ == old(
            store,
        )@,
{
    match draw(record) {
        Some(generated) => {
            apply_record(store, record, &generated);
            Ok(())
        },
        None => Err(ApiError::Clock),
    }
}

/// Where the ingestion of a batch stands.
#[derive(Debug, Clone, Copy, PartialEq, Eq, Structural)]
pub enum IngestState {
    /// The avatar of the record at this position is being cached.
    Avatar(usize),
    /// The thumbnail of the record at this position is being cached.
    Thumbnail(usize),
    /// Every record was ingested.
    Created,
    /// The batch was given up at the record that failed; the records before
    /// it stay ingested.
    Failed(ApiError),
}

/// What the caller who runs an ingestion does next.
#[derive(Debug, PartialEq, Eq)]
pub enum IngestAction {
    /// Bring this image into the cache, and report how that went.
    EnsureCached { kind: ImageKind, source_id: String, fetch_url: String },
    /// Answer the request with this HTTP status, and stop.
    Respond { status: u16 },
}

/// The HTTP status that answers a batch of which every record was ingested.
pub const HTTP_CREATED: u16 = 201;

/// The state in which the record at position `k` of `payload` is taken up:
/// the batch is done where there is no such record, and given up where no
/// cache path exists for the record's channel.
pub open spec fn opening(payload: Seq<CreateWatchHistoryRequest>, k: int) -> IngestState {
    if k >= payload.len() {
        IngestState::Created
    } else if !cacheable(ImageKind::ChannelAvatar, payload[k].channel.id@) {
        IngestState::Failed(ApiError::Validation)
    } else {
        IngestState::Avatar(k as usize)
    }
}

/// Whether `action` is what the caller does in `state`.
pub open spec fn action_in(
    payload: Seq<CreateWatchHistoryRequest>,
    state: IngestState,
    action: IngestAction,
) -> bool {
    match state {
        IngestState::Avatar(k) => k < payload.len() && cacheable(
            ImageKind::ChannelAvatar,
            payload[k as int].channel.id@,
        ) && (action matches IngestAction::EnsureCached { kind, source_id, fetch_url } && kind
            == ImageKind::ChannelAvatar && source_id@ == payload[k as int].channel.id@
            && fetch_url@ == payload[k as int].channel.avater_url@),
        IngestState::Thumbnail(k) => k < payload.len() && (action matches IngestAction::EnsureCached {
            kind,
            source_id,
            fetch_url,
        } && kind == ImageKind::VideoThumbnail && source_id@ == payload[k as int].video.id@
            && fetch_url@ == payload[k as int].video.thumbnail_url@),
        IngestState::Created => action == (IngestAction::Respond { status: HTTP_CREATED }),
        IngestState::Failed(error) => action == (IngestAction::Respond { status: status_of(error) }),
    }
}

/// The state in which the record at position `k` is taken up, with the
/// action that belongs to it.
fn open_record(payload_list: &Vec<CreateWatchHistoryRequest>, k: usize) -> (next: (
    IngestState,
    IngestAction,
))
    ensures
        next.0 == opening(payload_list@, k as int),
        action_in(payload_list@, next.0, next.1),
{
    if k >= payload_list.len() {
        (IngestState::Created, IngestAction::Respond { status: HTTP_CREATED })
    } else if !is_cacheable(ImageKind::ChannelAvatar, &payload_list[k].channel.id) {
        (
            IngestState::Failed(ApiError::Validation),
            IngestAction::Respond { status: ApiError::Validation.status_code() },
        )
    } else {
        (
            IngestState::Avatar(k),
            IngestAction::EnsureCached {
                kind: ImageKind::ChannelAvatar,
                source_id: payload_list[k].channel.id.clone(),
                fetch_url: payload_list[k].channel.avater_url.clone(),
            },
        )
    }
}

/// Begins the ingestion of the batch `payload_list`: says in which state it
/// stands and what the caller does first.
pub fn create_watch_history(payload_list: &Vec<CreateWatchHistoryRequest>) -> (next: (
    IngestState,
    IngestAction,
))
    ensures
        next.0 == opening(payload_list@, 0),
        action_in(payload_list@, next.0, next.1),
{
    open_record(payload_list, 0)
}

/// Goes on with the ingestion of `payload_list` from `state`, once the image
/// that the caller was asked to cache is settled with `cached`. An image
/// that failed gives the batch up. After the avatar comes the thumbnail;
/// after the thumbnail the record's rows are written and the next record is
/// taken up. A state that is final, or that points behind the batch, is
/// left at a final one, and nothing is written.
pub fn resume_watch_history(
    store: &mut Store,
    payload_list: &Vec<CreateWatchHistoryRequest>,
    state: IngestState,
    cached: Result<(), ApiError>,
) -> (next: (IngestState, IngestAction))
    requires
        old(store).wf(),
    ensures
        final(store).wf(),
        action_in(payload_list@, next.0, next.1),
        match state {
            IngestState::Created => next.0 == state && final(store)@ == old(store)@,
            IngestState::Failed(_) => next.0 == state && final(store)@ == old(store)@,
            IngestState::Avatar(k) => final(store)@ == old(store)@ && next.0 == (if k
                >= payload_list@.len() {
                IngestState::Created
            } else {
                match cached {
                    Ok(_) => IngestState::Thumbnail(k),
                    Err(error) => IngestState::Failed(error),
                }
            }),
            IngestState::Thumbnail(k) => if k >= payload_list@.len() {
                next.0 == IngestState::Created && final(store)@ == old(store)@
            } else {
                match cached {
                    Err(error) => next.0 == IngestState::Failed(error) && final(store)@ == old(
                        store,
                    )@,
                    Ok(_) => {
                        ||| next.0 == IngestState::Failed(ApiError::Clock) && final(store)@
                            == old(store)@
                        ||| next.0 == opening(payload_list@, k + 1) && exists|g: Generated|
                            drawn_for(g, payload_list@[k as int]) && final(store)@
                                == #[trigger] ingested(old(store)@, payload_list@[k as int], g)
                    },
                }
            },
        },
{
    match state {
        IngestState::Created => (state, IngestAction::Respond { status: HTTP_CREATED }),
        IngestState::Failed(error) => (state, IngestAction::Respond { status: error.status_code() }),
        IngestState::Avatar(k) => {
            if k >= payload_list.len() {
                return (IngestState::Created, IngestAction::Respond { status: HTTP_CREATED });
            }
            match cached {
                Ok(_) => (
                    IngestState::Thumbnail(k),
                    IngestAction::EnsureCached {
                        kind: ImageKind::VideoThumbnail,
                        source_id: payload_list[k].video.id.clone(),
                        fetch_url: payload_list[k].video.thumbnail_url.clone(),
                    },
                ),
                Err(error) => (
                    IngestState::Failed(error),
                    IngestAction::Respond { status: error.status_code() },
                ),
            }
        },
        IngestState::Thumbnail(k) => {
            if k >= payload_list.len() {
                return (IngestState::Created, IngestAction::Respond { status: HTTP_CREATED });
            }
            match cached {
                Err(error) => (
                    IngestState::Failed(error),
                    IngestAction::Respond { status: error.status_code() },
                ),
                Ok(_) => match ingest_record(store, &payload_list[k]) {
                    Ok(_) => open_record(payload_list, k + 1),
                    Err(error) => (
                        IngestState::Failed(error),
                        IngestAction::Respond { status: error.status_code() },
                    ),
                },
            }
        },
    }
}

/// The filters and the page of a listing of watch sessions. A filter that
/// is absent lets every session through.
pub struct GetWatchHistoryParams {
    /// Data list offset
    pub offset: Option<i64>,
    /// Data list limit
    pub limit: Option<i64>,
    /// Only list records that belong to specified video
    pub video_id: Option<String>,
    /// Only list records that belong to specified channel
    pub channel_id: Option<String>,
    /// Only list records that have specified watch duration
    pub watch_duration_seconds: Option<i64>,
    /// Only list records that have watch duration greater than specified value
    pub min_watch_duration_seconds: Option<i64>,
    /// Only list records that have watch duration less than specified value
    pub max_watch_duration_seconds: Option<i64>,
    /// Only list records that have been watched at specified timestamp
    pub watched_at: Option<i64>,
    /// Only list records that have been watched before specified timestamp
    pub watched_before: Option<i64>,
    /// Only list records that have been watched after specified timestamp
    pub watched_after: Option<i64>,
    /// Only list records that have been watched in specified year
    pub watched_year: Option<i64>,
    /// Only list records that have been watched in specified month
    pub watched_month: Option<i64>,
    /// Only list records that have been watched in specified day
    pub watched_day: Option<i64>,
}

impl GetWatchHistoryParams {
    /// The parameters that filter nothing and cut no page.
    pub fn new() -> (params: Self)
        ensures
            params.offset is None,
            params.limit is None,
            params.video_id is None,
            params.channel_id is None,
            params.watch_duration_seconds is None,
            params.min_watch_duration_seconds is None,
            params.max_watch_duration_seconds is None,
            params.watched_at is None,
            params.watched_before is None,
            params.watched_after is None,
            params.watched_year is None,
            params.watched_month is None,
            params.watched_day is None,
            forall|s: StoreView, w: WatchHistoryView|
                #[trigger] session_matches(s, params, w) == (video_ids(s.videos).contains(
                    w.video_id,
                ) && channel_ids(s.channels).contains(w.channel_id)),
    {
        GetWatchHistoryParams {
            offset: None,
            limit: None,
            video_id: None,
            channel_id: None,
            watch_duration_seconds: None,
            min_watch_duration_seconds: None,
            max_watch_duration_seconds: None,
            watched_at: None,
            watched_before: None,
            watched_after: None,
            watched_year: None,
            watched_month: None,
            watched_day: None,
        }
    }
}

/// Whether a session begun at `start` passes the three filters on the
/// calendar date of its beginning.
pub open spec fn watched_on(
    year: Option<i64>,
    month: Option<i64>,
    day: Option<i64>,
    start: i64,
) -> bool {
    &&& year matches Some(wanted) ==> year_matches(start, wanted)
    &&& month matches Some(wanted) ==> month_matches(start, wanted)
    &&& day matches Some(wanted) ==> day_matches(start, wanted)
}

/// Whether a session begun at `start` passes the three filters on the
/// calendar date of its beginning.
pub fn is_watched_on(year: Option<i64>, month: Option<i64>, day: Option<i64>, start: i64) -> (passes:
    bool)
    ensures
        passes == watched_on(year, month, day, start),
{
    let in_year: bool = match year {
        Some(wanted) => is_year(start, wanted),
        None => true,
    };
    let in_month: bool = match month {
        Some(wanted) => is_month(start, wanted),
        None => true,
    };
    let on_day: bool = match day {
        Some(wanted) => is_day(start, wanted),
        None => true,
    };
    in_year && in_month && on_day
}

/// Whether the session `w` passes the filters `p`. A session is listed with
/// its video and its channel, so one that lacks either passes nothing. The
/// filters on the time of watching look at the beginning of the session.
pub open spec fn session_matches(s: StoreView, p: GetWatchHistoryParams, w: WatchHistoryView)
    -> bool {
    &&& video_ids(s.videos).contains(w.video_id)
    &&& channel_ids(s.channels).contains(w.channel_id)
    &&& text_is(p.video_id, w.video_id)
    &&& text_is(p.channel_id, w.channel_id)
    &&& within(
        p.watch_duration_seconds,
        p.min_watch_duration_seconds,
        p.max_watch_duration_seconds,
        w.watch_duration_seconds,
    )
    &&& within(p.watched_at, p.watched_after, p.watched_before, w.session_start_date)
    &&& watched_on(p.watched_year, p.watched_month, p.watched_day, w.session_start_date)
}

/// For each session, in storage order, whether it passes the filters `p`.
pub open spec fn session_flags(s: StoreView, p: GetWatchHistoryParams) -> Seq<bool> {
    Seq::new(s.watch_history.len(), |i: int| session_matches(s, p, s.watch_history[i]))
}

/// The positions of the sessions that a listing with the parameters `p`
/// answers: those that pass the filters, in storage order, cut to the page.
pub open spec fn session_listing(s: StoreView, p: GetWatchHistoryParams) -> Seq<usize> {
    page(selected(session_flags(s, p)), p.offset, p.limit)
}

/// The answer that stands for the session `w`: the row, with its video, and
/// with the session's channel beside the video.
pub open spec fn session_answer(s: StoreView, w: WatchHistoryView) -> WatchHistoryResponseView {
    let video = s.videos[video_ids(s.videos).index_of(w.video_id)];
    let channel = s.channels[channel_ids(s.channels).index_of(w.channel_id)];
    WatchHistoryResponseView {
        watch_history: w,
        video: video_response(
            video,
            video_tag_names(s, video.id),
            Some(channel_response(channel)),
        ),
    }
}

/// The answers that `sessions` hold.
pub open spec fn session_answers(sessions: Seq<WatchHistoryResponse>) -> Seq<
    WatchHistoryResponseView,
> {
    Seq::new(sessions.len(), |i: int| sessions[i]@)
}

/// The answers of a listing of sessions with the parameters `p`.
pub open spec fn session_page(s: StoreView, p: GetWatchHistoryParams) -> Seq<
    WatchHistoryResponseView,
> {
    let listing = session_listing(s, p);
    Seq::new(listing.len(), |k: int| session_answer(s, s.watch_history[listing[k] as int]))
}

/// Whether the session at position `i` passes the filters `p`.
fn matches_session(store: &Store, p: &GetWatchHistoryParams, i: usize) -> (passes: bool)
    requires
        i < store@.watch_history.len(),
    ensures
        passes == session_matches(store@, *p, store@.watch_history[i as int]),
{
    let sessions = store.watch_history();
    let session = &sessions[i];
    assert(watch_history_views(sessions@)[i as int] == session@);
    store.find_video(&session.video_id).is_some() && store.find_channel(
        &session.channel_id,
    ).is_some() && is_text(&p.video_id, &session.video_id) && is_text(
        &p.channel_id,
        &session.channel_id,
    ) && is_within(
        p.watch_duration_seconds,
        p.min_watch_duration_seconds,
        p.max_watch_duration_seconds,
        session.watch_duration_seconds,
    ) && is_within(p.watched_at, p.watched_after, p.watched_before, session.session_start_date)
        && is_watched_on(
        p.watched_year,
        p.watched_month,
        p.watched_day,
        session.session_start_date,
    )
}

/// The answer that stands for the session at position `i`, where its video
/// and its channel exist.
fn answer_session(store: &Store, i: usize) -> (answer: Option<WatchHistoryResponse>)
    requires
        store.wf(),
        i < store@.watch_history.len(),
    ensures
        answer is Some <==> video_ids(store@.videos).contains(store@.watch_history[i as int].video_id)
            && channel_ids(store@.channels).contains(store@.watch_history[i as int].channel_id),
        answer matches Some(a) ==> a@ == session_answer(store@, store@.watch_history[i as int]),
{
    let sessions = store.watch_history();
    let videos = store.videos();
    let channels = store.channels();
    let session = sessions[i].clone();
    assert(watch_history_views(sessions@)[i as int] == session@);
    match (store.find_video(&session.video_id), store.find_channel(&session.channel_id)) {
        (Some(v), Some(c)) => {
            proof {
                lemma_index_of_unique(video_ids(store@.videos), session@.video_id, v as int);
                lemma_index_of_unique(channel_ids(store@.channels), session@.channel_id, c as int);
                assert(video_views(videos@)[v as int] == videos@[v as int]@);
                assert(channel_views(channels@)[c as int] == channels@[c as int]@);
            }
            let video = videos[v].clone();
            let tags = tags_of_video(store, &video.id);
            let channel = ChannelResponse::new(channels[c].clone());
            Some(
                WatchHistoryResponse {
                    watch_history: session,
                    video: VideoResponse::new(video, tags, Some(channel)),
                },
            )
        },
        _ => None,
    }
}

/// Lists the watch sessions that pass the filters of `params`, in storage
/// order, cut to the page that `offset` and `limit` ask for. `total` counts
/// the whole table, whatever the filters.
pub fn get_watch_history(store: &Store, params: &GetWatchHistoryParams) -> (listed:
    PaginatedResponse<WatchHistoryResponse>)
    requires
        store.wf(),
    ensures
        session_answers(listed.data@) == session_page(store@, *params),
        listed.offset == params.offset,
        listed.limit == params.limit,
        listed.total == row_count(store@.watch_history.len()),
{
    let rows = store.watch_history();
    let count: usize = rows.len();
    assert(watch_history_views(rows@).len() == count);
    let mut flags: Vec<bool> = Vec::new();
    let mut i: usize = 0;
    while i < count
        invariant
            count == store@.watch_history.len(),
            i <= count,
            flags@.len() == i,
            forall|j: int|
                0 <= j < i ==> flags@[j] == session_matches(
                    store@,
                    *params,
                    store@.watch_history[j],
                ),
        decreases count - i,
    {
        flags.push(matches_session(store, params, i));
        i += 1;
    }
    assert(flags@ =~= session_flags(store@, *params));
    let hits = select(&flags);
    let listing = page_of(&hits, params.offset, params.limit);
    proof {
        lemma_selected_sound(flags@);
    }
    let mut data: Vec<WatchHistoryResponse> = Vec::new();
    let mut k: usize = 0;
    while k < listing.len()
        invariant
            store.wf(),
            count == store@.watch_history.len(),
            k <= listing@.len(),
            listing@ == session_listing(store@, *params),
            forall|j: int|
                0 <= j < listing@.len() ==> listing@[j] < count && session_matches(
                    store@,
                    *params,
                    store@.watch_history[listing@[j] as int],
                ),
            data@.len() == k,
            forall|j: int|
                0 <= j < k ==> (#[trigger] data@[j])@ == session_answer(
                    store@,
                    store@.watch_history[listing@[j] as int],
                ),
        decreases listing@.len() - k,
    {
        match answer_session(store, listing[k]) {
            Some(answer) => {
                data.push(answer);
            },
            None => {},
        }
        k += 1;
    }
    assert(session_answers(data@) =~= session_page(store@, *params));
    PaginatedResponse::new(data, params.offset, params.limit, count_rows(count))
}

/// Fetches the watch session `id`, with its video and its channel.
/// `NotFound` where no session has the id.
pub fn get_watch_history_entry(store: &Store, id: &String) -> (found: Result<
    WatchHistoryResponse,
    ApiError,
>)
    requires
        store.wf(),
    ensures
        match found {
            Ok(answer) => history_ids(store@.watch_history).contains(id@) && answer@
                == session_answer(
                store@,
                store@.watch_history[history_ids(store@.watch_history).index_of(id@)],
            ),
            Err(error) => error == ApiError::NotFound && !history_ids(
                store@.watch_history,
            ).contains(id@),
        },
{
    match store.find_watch_history(id) {
        Some(i) => {
            proof {
                lemma_index_of_unique(history_ids(store@.watch_history), id@, i as int);
                let session = store@.watch_history[i as int];
                assert(video_ids(store@.videos).contains(session.video_id));
                assert(channel_ids(store@.channels).contains(session.channel_id));
            }
            match answer_session(store, i) {
                Some(answer) => Ok(answer),
                None => Err(ApiError::NotFound),
            }
        },
        None => Err(ApiError::NotFound),
    }
}

} // verus!
