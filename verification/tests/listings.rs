use chianti::api_prelude::SortOrder;
use chianti::database::models::Tag;
use chianti::database::store::Store;
use chianti::errors::ApiError;
use chianti::routes::channels::get_channel;
use chianti::routes::channels::get_channels;
use chianti::routes::channels::GetChannelsParams;
use chianti::routes::channels::SortBy;
use chianti::routes::tags::get_tag;
use chianti::routes::tags::get_tags;
use chianti::routes::tags::GetTagsParams;
use chianti::routes::videos::get_video;
use chianti::routes::videos::get_videos;
use chianti::routes::videos::GetVideosParams;
use chianti::routes::watch_history::apply_record;
use chianti::routes::watch_history::get_watch_history;
use chianti::routes::watch_history::get_watch_history_entry;
use chianti::routes::watch_history::CreateWatchHistoryChannel;
use chianti::routes::watch_history::CreateWatchHistoryRequest;
use chianti::routes::watch_history::CreateWatchHistoryVideo;
use chianti::routes::watch_history::Generated;
use chianti::routes::watch_history::GetWatchHistoryParams;

struct Seed {
    channel: &'static str,
    channel_name: &'static str,
    subscribed: bool,
    subscribers: i64,
    video: &'static str,
    title: &'static str,
    tags: &'static [&'static str],
    views: i64,
    likes: i64,
    duration: i64,
    published: i64,
    watched: i64,
    start: i64,
}

fn ingest(store: &mut Store, n: usize, seed: &Seed) {
    let record = CreateWatchHistoryRequest {
        watch_duration_seconds: seed.watched,
        session_start_date: seed.start,
        session_end_date: seed.start + seed.watched,
        channel: CreateWatchHistoryChannel {
            id: seed.channel.to_string(),
            name: seed.channel_name.to_string(),
            avater_url: "https://img.example/a.png".to_string(),
            url: format!("https://www.youtube.com/channel/{}", seed.channel),
            is_subscribed: seed.subscribed,
            subscribers_count: seed.subscribers,
        },
        video: CreateWatchHistoryVideo {
            id: seed.video.to_string(),
            title: seed.title.to_string(),
            description: "".to_string(),
            thumbnail_url: "https://img.example/t.jpg".to_string(),
            tags: seed.tags.iter().map(|t| t.to_string()).collect(),
            likes_count: seed.likes,
            view_count: seed.views,
            comments_count: 0,
            duration: seed.duration,
            published_at: seed.published,
        },
    };
    let generated = Generated {
        now: 1000 + n as i64,
        tag_ids: (0..seed.tags.len()).map(|k| format!("t-{n}-{k}")).collect(),
        history_id: format!("h-{n}"),
    };
    apply_record(store, &record, &generated);
}

// 2023-11-14 22:13:20 UTC
const NOVEMBER: i64 = 1_700_000_000;
// 2021-03-05 00:00:00 UTC
const MARCH: i64 = 1_614_902_400;

fn library() -> Store {
    let seeds = [
        Seed {
            channel: "C1", channel_name: "Bravo", subscribed: true, subscribers: 300,
            video: "V1", title: "Rust in Production", tags: &["a"], views: 10, likes: 1,
            duration: 100, published: 50, watched: 30, start: NOVEMBER,
        },
        Seed {
            channel: "C2", channel_name: "alpha", subscribed: false, subscribers: 100,
            video: "V2", title: "Cooking with rust", tags: &["a", "b"], views: 20, likes: 2,
            duration: 200, published: 60, watched: 40, start: MARCH,
        },
        Seed {
            channel: "C3", channel_name: "Charlie", subscribed: true, subscribers: 200,
            video: "V3", title: "Gardening", tags: &["c"], views: 30, likes: 3,
            duration: 300, published: 70, watched: 50, start: NOVEMBER + 86_400,
        },
        Seed {
            channel: "C1", channel_name: "Bravo", subscribed: true, subscribers: 300,
            video: "V4", title: "100% crust_", tags: &[], views: 40, likes: 4,
            duration: 400, published: 80, watched: 60, start: NOVEMBER,
        },
        Seed {
            channel: "C4", channel_name: "Delta", subscribed: false, subscribers: 100,
            video: "V1", title: "Rust in Production", tags: &["b"], views: 10, likes: 1,
            duration: 100, published: 50, watched: 70, start: 0,
        },
    ];
    let mut store = Store::new();
    for (n, seed) in seeds.iter().enumerate() {
        ingest(&mut store, n, seed);
    }
    store
}

fn video_ids(store: &Store, params: &GetVideosParams) -> Vec<String> {
    get_videos(store, params).data.into_iter().map(|v| v.video.id).collect()
}

fn channel_ids(store: &Store, params: &GetChannelsParams) -> Vec<String> {
    get_channels(store, params).data.into_iter().map(|c| c.channel.channel.id).collect()
}

fn session_ids(store: &Store, params: &GetWatchHistoryParams) -> Vec<String> {
    get_watch_history(store, params).data.into_iter().map(|w| w.watch_history.id).collect()
}

#[test]
fn without_filters_every_video_is_listed_in_storage_order() {
    let store = library();
    let listed = get_videos(&store, &GetVideosParams::new());
    let ids: Vec<&str> = listed.data.iter().map(|v| v.video.id.as_str()).collect();
    assert_eq!(ids, vec!["V1", "V2", "V3", "V4"]);
    assert_eq!(listed.total, 4);
    assert_eq!(listed.offset, None);
    assert_eq!(listed.limit, None);
    let first = &listed.data[0];
    assert_eq!(first.thumbnail_endpoint, "/api/thumbnails/V1");
    // The video was tagged "a" first, and "b" when it was ingested again.
    assert_eq!(first.tags, vec!["a".to_string(), "b".to_string()]);
    let channel = first.channel.as_ref().unwrap();
    assert_eq!(channel.channel.id, "C1");
    assert_eq!(channel.avatar_endpoint, "/api/avaters/C1");
}

#[test]
fn a_video_that_matches_through_two_tags_is_listed_once() {
    let store = library();
    let mut params = GetVideosParams::new();
    params.tags = Some(vec!["a".to_string(), "b".to_string()]);
    assert_eq!(video_ids(&store, &params), vec!["V1", "V2"]);
    params.tags = Some(vec!["a".to_string()]);
    assert_eq!(video_ids(&store, &params), vec!["V1", "V2"]);
    params.tags = Some(vec!["c".to_string(), "zzz".to_string()]);
    assert_eq!(video_ids(&store, &params), vec!["V3"]);
    params.tags = Some(vec![]);
    assert_eq!(video_ids(&store, &params), Vec::<String>::new());
    params.tags = Some(vec!["A".to_string()]);
    assert_eq!(video_ids(&store, &params), Vec::<String>::new());
}

#[test]
fn bounds_are_strict_and_equality_is_exact() {
    let store = library();
    let mut params = GetVideosParams::new();
    params.min_view_count = Some(10);
    assert_eq!(video_ids(&store, &params), vec!["V2", "V3", "V4"]);
    params.max_view_count = Some(40);
    assert_eq!(video_ids(&store, &params), vec!["V2", "V3"]);
    params.view_count = Some(30);
    assert_eq!(video_ids(&store, &params), vec!["V3"]);
    params.view_count = Some(40);
    assert_eq!(video_ids(&store, &params), Vec::<String>::new());

    let mut params = GetVideosParams::new();
    params.published_after = Some(50);
    params.published_before = Some(80);
    assert_eq!(video_ids(&store, &params), vec!["V2", "V3"]);
    params.published_at = Some(60);
    assert_eq!(video_ids(&store, &params), vec!["V2"]);

    let mut params = GetVideosParams::new();
    params.min_duration_seconds = Some(100);
    params.max_likes_count = Some(4);
    assert_eq!(video_ids(&store, &params), vec!["V2", "V3"]);
    params.duration_seconds = Some(300);
    params.likes_count = Some(3);
    assert_eq!(video_ids(&store, &params), vec!["V3"]);

    let mut params = GetVideosParams::new();
    params.watch_counter = Some(0);
    assert_eq!(video_ids(&store, &params).len(), 4);
    params.min_watch_counter = Some(0);
    assert_eq!(video_ids(&store, &params).len(), 0);
    let mut params = GetVideosParams::new();
    params.max_watch_counter = Some(1);
    params.comments_count = Some(0);
    params.min_comments_count = Some(-1);
    params.max_comments_count = Some(1);
    params.min_likes_count = Some(0);
    assert_eq!(video_ids(&store, &params).len(), 4);
}

#[test]
fn videos_are_filtered_by_their_channel() {
    let store = library();
    let mut params = GetVideosParams::new();
    params.channel_id = Some("C1".to_string());
    assert_eq!(video_ids(&store, &params), vec!["V1", "V4"]);
    let mut params = GetVideosParams::new();
    params.is_subscribed = Some(false);
    assert_eq!(video_ids(&store, &params), vec!["V2"]);
    let mut params = GetVideosParams::new();
    params.subscribers_count = Some(300);
    assert_eq!(video_ids(&store, &params), vec!["V1", "V4"]);
    let mut params = GetVideosParams::new();
    params.min_subscribers_count = Some(100);
    params.max_subscribers_count = Some(300);
    assert_eq!(video_ids(&store, &params), vec!["V3"]);
}

#[test]
fn search_finds_a_term_in_either_case_and_reads_wildcards() {
    let store = library();
    let mut params = GetVideosParams::new();
    params.search = Some("rust".to_string());
    assert_eq!(video_ids(&store, &params), vec!["V1", "V2", "V4"]);
    params.search = Some("RUST IN".to_string());
    assert_eq!(video_ids(&store, &params), vec!["V1"]);
    params.search = Some("".to_string());
    assert_eq!(video_ids(&store, &params).len(), 4);
    params.search = Some("c_o".to_string());
    assert_eq!(video_ids(&store, &params), vec!["V2"]);
    params.search = Some("r%n".to_string());
    assert_eq!(video_ids(&store, &params), vec!["V1", "V3"]);
    params.search = Some("rustx".to_string());
    assert_eq!(video_ids(&store, &params), Vec::<String>::new());
    params.search = Some("Gardening!".to_string());
    assert_eq!(video_ids(&store, &params), Vec::<String>::new());
}

#[test]
fn offset_and_limit_cut_a_run_from_the_listing() {
    let store = library();
    let whole = video_ids(&store, &GetVideosParams::new());
    for offset in [None, Some(-2), Some(0), Some(1), Some(3), Some(4), Some(9)] {
        for limit in [None, Some(-1), Some(0), Some(1), Some(2), Some(7)] {
            let mut params = GetVideosParams::new();
            params.offset = offset;
            params.limit = limit;
            let listed = get_videos(&store, &params);
            let start = offset.unwrap_or(0).clamp(0, whole.len() as i64) as usize;
            let end = match limit {
                Some(count) if count >= 0 => (start + count as usize).min(whole.len()),
                _ => whole.len(),
            };
            let ids: Vec<String> = listed.data.into_iter().map(|v| v.video.id).collect();
            assert_eq!(ids, whole[start..end].to_vec());
            assert_eq!(listed.total, 4);
            assert_eq!(listed.offset, offset);
            assert_eq!(listed.limit, limit);
        }
    }
    let mut params = GetVideosParams::new();
    params.offset = Some(1);
    params.limit = Some(2);
    assert_eq!(video_ids(&store, &params), vec!["V2", "V3"]);
}

#[test]
fn total_counts_the_table_whatever_the_filters() {
    let store = library();
    let mut params = GetVideosParams::new();
    params.view_count = Some(30);
    let listed = get_videos(&store, &params);
    assert_eq!(listed.data.len(), 1);
    assert_eq!(listed.total, 4);

    let mut params = GetChannelsParams::new();
    params.search = Some("zzz".to_string());
    let listed = get_channels(&store, &params);
    assert_eq!(listed.data.len(), 0);
    assert_eq!(listed.total, 4);

    let mut params = GetWatchHistoryParams::new();
    params.video_id = Some("V3".to_string());
    let listed = get_watch_history(&store, &params);
    assert_eq!(listed.data.len(), 1);
    assert_eq!(listed.total, 5);
}

#[test]
fn channels_are_filtered_and_carry_their_videos() {
    let store = library();
    let listed = get_channels(&store, &GetChannelsParams::new());
    let ids: Vec<&str> = listed.data.iter().map(|c| c.channel.channel.id.as_str()).collect();
    assert_eq!(ids, vec!["C1", "C2", "C3", "C4"]);
    let first = &listed.data[0];
    assert_eq!(first.channel.avatar_endpoint, "/api/avaters/C1");
    let videos: Vec<&str> = first.videos.iter().map(|v| v.video.id.as_str()).collect();
    assert_eq!(videos, vec!["V1", "V4"]);
    assert_eq!(first.videos[0].channel, None);
    assert_eq!(first.videos[0].tags, vec!["a".to_string(), "b".to_string()]);
    assert_eq!(first.videos[1].thumbnail_endpoint, "/api/thumbnails/V4");
    assert_eq!(listed.data[3].videos.len(), 0);

    let mut params = GetChannelsParams::new();
    params.is_subscribed = Some(true);
    assert_eq!(channel_ids(&store, &params), vec!["C1", "C3"]);
    params.min_subscribers_count = Some(200);
    assert_eq!(channel_ids(&store, &params), vec!["C1"]);
    let mut params = GetChannelsParams::new();
    params.subscribers_count = Some(100);
    assert_eq!(channel_ids(&store, &params), vec!["C2", "C4"]);
    params.max_subscribers_count = Some(100);
    assert_eq!(channel_ids(&store, &params), Vec::<String>::new());
    let mut params = GetChannelsParams::new();
    params.search = Some("A".to_string());
    assert_eq!(channel_ids(&store, &params), vec!["C1", "C2", "C3", "C4"]);
    params.search = Some("lph".to_string());
    assert_eq!(channel_ids(&store, &params), vec!["C2"]);
}

#[test]
fn channels_are_sorted_where_column_and_direction_are_given() {
    let store = library();
    let mut params = GetChannelsParams::new();
    params.sort_by = Some(SortBy::Name);
    // A column without a direction sorts nothing.
    assert_eq!(channel_ids(&store, &params), vec!["C1", "C2", "C3", "C4"]);
    params.sort_order = Some(SortOrder::Asc);
    // By code point: the capitals come before the small letters.
    assert_eq!(channel_ids(&store, &params), vec!["C1", "C3", "C4", "C2"]);
    params.sort_order = Some(SortOrder::Desc);
    assert_eq!(channel_ids(&store, &params), vec!["C2", "C4", "C3", "C1"]);

    params.sort_by = Some(SortBy::SubscribersCount);
    params.sort_order = Some(SortOrder::Asc);
    // Rows with the same key stay in storage order.
    assert_eq!(channel_ids(&store, &params), vec!["C2", "C4", "C3", "C1"]);
    params.sort_order = Some(SortOrder::Desc);
    assert_eq!(channel_ids(&store, &params), vec!["C1", "C3", "C2", "C4"]);

    params.sort_by = Some(SortBy::IsSubscribed);
    params.sort_order = Some(SortOrder::Asc);
    assert_eq!(channel_ids(&store, &params), vec!["C2", "C4", "C1", "C3"]);
    params.sort_order = Some(SortOrder::Desc);
    assert_eq!(channel_ids(&store, &params), vec!["C1", "C3", "C2", "C4"]);

    // The page is cut after the sort.
    params.offset = Some(1);
    params.limit = Some(2);
    assert_eq!(channel_ids(&store, &params), vec!["C3", "C2"]);

    // A direction without a column sorts nothing.
    let mut params = GetChannelsParams::new();
    params.sort_order = Some(SortOrder::Desc);
    assert_eq!(channel_ids(&store, &params), vec!["C1", "C2", "C3", "C4"]);
}

#[test]
fn tags_are_listed_sorted_and_paged() {
    let store = library();
    let names = |params: &GetTagsParams| -> Vec<String> {
        get_tags(&store, params).data.into_iter().map(|t| t.name).collect()
    };
    let mut params =
        GetTagsParams { sort_order: None, sort_by: None, offset: None, limit: None };
    assert_eq!(names(&params), vec!["a", "b", "c"]);
    params.sort_by = Some(chianti::routes::tags::SortBy::Name);
    params.sort_order = Some(SortOrder::Desc);
    assert_eq!(names(&params), vec!["c", "b", "a"]);
    params.limit = Some(2);
    assert_eq!(names(&params), vec!["c", "b"]);
    params.offset = Some(2);
    assert_eq!(names(&params), vec!["a"]);
    let listed = get_tags(&store, &params);
    assert_eq!(listed.total, 3);
    assert_eq!(listed.offset, Some(2));
    assert_eq!(listed.limit, Some(2));
    assert_eq!(listed.data[0], Tag { id: "t-0-0".to_string(), name: "a".to_string(), added_at: 1000 });
}

#[test]
fn sessions_are_filtered_by_video_channel_and_duration() {
    let store = library();
    assert_eq!(
        session_ids(&store, &GetWatchHistoryParams::new()),
        vec!["h-0", "h-1", "h-2", "h-3", "h-4"]
    );
    let mut params = GetWatchHistoryParams::new();
    params.video_id = Some("V1".to_string());
    assert_eq!(session_ids(&store, &params), vec!["h-0", "h-4"]);
    params.channel_id = Some("C4".to_string());
    assert_eq!(session_ids(&store, &params), vec!["h-4"]);
    let listed = get_watch_history(&store, &params);
    // The video keeps its first channel; the session is answered with its own.
    assert_eq!(listed.data[0].video.video.channel_id, "C1");
    assert_eq!(listed.data[0].video.channel.as_ref().unwrap().channel.id, "C4");
    assert_eq!(listed.data[0].video.tags, vec!["a".to_string(), "b".to_string()]);
    assert_eq!(listed.data[0].watch_history.watch_duration_seconds, 70);

    let mut params = GetWatchHistoryParams::new();
    params.min_watch_duration_seconds = Some(30);
    params.max_watch_duration_seconds = Some(60);
    assert_eq!(session_ids(&store, &params), vec!["h-1", "h-2"]);
    params.watch_duration_seconds = Some(50);
    assert_eq!(session_ids(&store, &params), vec!["h-2"]);

    let mut params = GetWatchHistoryParams::new();
    params.watched_after = Some(MARCH);
    params.watched_before = Some(NOVEMBER + 86_400);
    assert_eq!(session_ids(&store, &params), vec!["h-0", "h-3"]);
    params.watched_at = Some(NOVEMBER);
    params.offset = Some(1);
    assert_eq!(session_ids(&store, &params), vec!["h-3"]);
}

#[test]
fn sessions_are_filtered_by_the_date_of_their_beginning() {
    let store = library();
    let mut params = GetWatchHistoryParams::new();
    params.watched_year = Some(2023);
    assert_eq!(session_ids(&store, &params), vec!["h-0", "h-2", "h-3"]);
    params.watched_month = Some(11);
    assert_eq!(session_ids(&store, &params), vec!["h-0", "h-2", "h-3"]);
    params.watched_day = Some(14);
    assert_eq!(session_ids(&store, &params), vec!["h-0", "h-3"]);
    params.watched_day = Some(15);
    assert_eq!(session_ids(&store, &params), vec!["h-2"]);

    let mut params = GetWatchHistoryParams::new();
    params.watched_year = Some(2021);
    assert_eq!(session_ids(&store, &params), vec!["h-1"]);
    params.watched_year = Some(1970);
    assert_eq!(session_ids(&store, &params), vec!["h-4"]);
    // A month and a day of one digit are found by that digit.
    let mut params = GetWatchHistoryParams::new();
    params.watched_month = Some(3);
    assert_eq!(session_ids(&store, &params), vec!["h-1"]);
    let mut params = GetWatchHistoryParams::new();
    params.watched_day = Some(5);
    assert_eq!(session_ids(&store, &params), vec!["h-1"]);
    params.watched_day = Some(1);
    assert_eq!(session_ids(&store, &params), vec!["h-4"]);
    params.watched_month = Some(1);
    params.watched_year = Some(1970);
    assert_eq!(session_ids(&store, &params), vec!["h-4"]);
    params.watched_month = Some(2);
    assert_eq!(session_ids(&store, &params), Vec::<String>::new());
    let mut params = GetWatchHistoryParams::new();
    params.watched_month = Some(13);
    assert_eq!(session_ids(&store, &params), Vec::<String>::new());
    params.watched_month = Some(0);
    assert_eq!(session_ids(&store, &params), Vec::<String>::new());
    params.watched_month = Some(-11);
    assert_eq!(session_ids(&store, &params), Vec::<String>::new());
}

#[test]
fn a_session_on_the_first_of_march_is_found_by_year_month_and_day() {
    let mut store = Store::new();
    ingest(
        &mut store,
        0,
        &Seed {
            channel: "C1", channel_name: "Bravo", subscribed: true, subscribers: 300,
            video: "V1", title: "Rust in Production", tags: &[], views: 10, likes: 1,
            duration: 100, published: 50, watched: 30, start: 1_709_251_200,
        },
    );
    let mut params = GetWatchHistoryParams::new();
    params.watched_year = Some(2024);
    params.watched_month = Some(3);
    params.watched_day = Some(1);
    let listed = get_watch_history(&store, &params);
    assert_eq!(listed.data.len(), 1);
    assert_eq!(listed.data[0].watch_history.id, "h-0");
    assert_eq!(listed.data[0].watch_history.session_start_date, 1_709_251_200);
    params.watched_day = Some(2);
    assert_eq!(get_watch_history(&store, &params).data.len(), 0);
}

#[test]
fn a_row_is_fetched_by_its_id() {
    let store = library();
    let video = get_video(&store, &"V2".to_string()).unwrap();
    assert_eq!(video.video.title, "Cooking with rust");
    assert_eq!(video.tags, vec!["a".to_string(), "b".to_string()]);
    assert_eq!(video.channel.unwrap().channel.name, "alpha");

    let channel = get_channel(&store, &"C1".to_string()).unwrap();
    assert_eq!(channel.channel.channel.name, "Bravo");
    assert_eq!(channel.videos.len(), 2);
    assert_eq!(channel.videos[1].video.id, "V4");

    let tag = get_tag(&store, &"t-1-1".to_string()).unwrap();
    assert_eq!(tag.name, "b");

    let session = get_watch_history_entry(&store, &"h-4".to_string()).unwrap();
    assert_eq!(session.watch_history.watch_duration_seconds, 70);
    assert_eq!(session.video.video.id, "V1");
    assert_eq!(session.video.channel.unwrap().channel.id, "C4");
}

#[test]
fn an_id_that_no_row_has_is_not_found() {
    let store = library();
    assert_eq!(get_video(&store, &"nope".to_string()).unwrap_err(), ApiError::NotFound);
    assert_eq!(get_channel(&store, &"V1".to_string()).unwrap_err(), ApiError::NotFound);
    assert_eq!(get_tag(&store, &"a".to_string()).unwrap_err(), ApiError::NotFound);
    assert_eq!(
        get_watch_history_entry(&store, &"h-9".to_string()).unwrap_err(),
        ApiError::NotFound
    );
    assert_eq!(ApiError::NotFound.status_code(), 404);
    assert!(!ApiError::NotFound.is_internal());
    let empty = Store::new();
    assert_eq!(get_video(&empty, &"V1".to_string()).unwrap_err(), ApiError::NotFound);
    assert_eq!(get_videos(&empty, &GetVideosParams::new()).total, 0);
}
