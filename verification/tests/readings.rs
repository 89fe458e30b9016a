use chianti::clock::seconds_since_epoch;
use chianti::database::models::Channel;
use chianti::database::models::NewChannelParams;
use chianti::database::models::NewVideoParams;
use chianti::database::models::Tag;
use chianti::database::models::Video;
use chianti::database::models::WatchHistory;
use chianti::routes::channels::GetChannelsParams;
use chianti::routes::watch_history::draw_at;
use chianti::routes::watch_history::CreateWatchHistoryChannel;
use chianti::routes::watch_history::CreateWatchHistoryRequest;
use chianti::routes::watch_history::CreateWatchHistoryVideo;

#[test]
fn a_count_of_seconds_is_the_time_where_it_fits() {
    assert_eq!(seconds_since_epoch(Some(0)), Some(0));
    assert_eq!(seconds_since_epoch(Some(1_700_000_000)), Some(1_700_000_000));
    assert_eq!(seconds_since_epoch(Some(i64::MAX as u64)), Some(i64::MAX));
    assert_eq!(seconds_since_epoch(Some(i64::MAX as u64 + 1)), None);
    assert_eq!(seconds_since_epoch(Some(u64::MAX)), None);
    assert_eq!(seconds_since_epoch(None), None);
}

fn channel_params() -> NewChannelParams {
    NewChannelParams {
        id: "C1".to_string(),
        name: "n".to_string(),
        url: "u".to_string(),
        is_subscribed: true,
        subscribers_count: 3,
    }
}

fn video_params() -> NewVideoParams {
    NewVideoParams {
        id: "V1".to_string(),
        channel_id: "C1".to_string(),
        title: "t".to_string(),
        description: "d".to_string(),
        duration_seconds: 1,
        likes_count: 2,
        view_count: 3,
        comments_count: 4,
        published_at: 5,
    }
}

#[test]
fn a_row_is_stamped_where_the_clock_gave_a_reading() {
    assert_eq!(
        Channel::stamped(channel_params(), Some(77)),
        Some(Channel {
            id: "C1".to_string(),
            name: "n".to_string(),
            url: "u".to_string(),
            is_subscribed: true,
            subscribers_count: 3,
            added_at: 77,
        })
    );
    assert_eq!(Channel::stamped(channel_params(), None), None);

    let video = Video::stamped(video_params(), Some(78)).unwrap();
    assert_eq!(video.added_at, 78);
    assert_eq!(video.url, "https://www.youtube.com/watch?v=V1");
    assert_eq!(video.watch_counter, 0);
    assert_eq!(Video::stamped(video_params(), None), None);

    assert_eq!(
        Tag::stamped("t-1".to_string(), "music".to_string(), Some(79)),
        Some(Tag { id: "t-1".to_string(), name: "music".to_string(), added_at: 79 })
    );
    assert_eq!(Tag::stamped("t-1".to_string(), "music".to_string(), None), None);

    assert_eq!(
        WatchHistory::stamped("h".to_string(), "V1".to_string(), "C1".to_string(), 1, 2, 3, Some(80)),
        Some(WatchHistory {
            id: "h".to_string(),
            video_id: "V1".to_string(),
            channel_id: "C1".to_string(),
            watch_duration_seconds: 1,
            session_start_date: 2,
            session_end_date: 3,
            added_at: 80,
        })
    );
    assert_eq!(
        WatchHistory::stamped("h".to_string(), "V1".to_string(), "C1".to_string(), 1, 2, 3, None),
        None
    );
}

#[test]
fn identifiers_are_drawn_where_the_clock_gave_a_reading() {
    let record = CreateWatchHistoryRequest {
        watch_duration_seconds: 1,
        session_start_date: 2,
        session_end_date: 3,
        channel: CreateWatchHistoryChannel {
            id: "C1".to_string(),
            name: "n".to_string(),
            avater_url: "".to_string(),
            url: "".to_string(),
            is_subscribed: false,
            subscribers_count: 0,
        },
        video: CreateWatchHistoryVideo {
            id: "V1".to_string(),
            title: "t".to_string(),
            description: "".to_string(),
            thumbnail_url: "".to_string(),
            tags: vec!["a".to_string(), "b".to_string()],
            likes_count: 0,
            view_count: 0,
            comments_count: 0,
            duration: 0,
            published_at: 0,
        },
    };
    let drawn = draw_at(&record, Some(1234)).unwrap();
    assert_eq!(drawn.now, 1234);
    assert_eq!(drawn.tag_ids.len(), 2);
    assert_eq!(drawn.history_id.len(), 21);
    assert_eq!(drawn.tag_ids[0].len(), 21);
    assert_ne!(drawn.tag_ids[0], drawn.tag_ids[1]);
    assert!(draw_at(&record, None).is_none());
}

#[test]
fn new_channel_parameters_hold_nothing() {
    let params = GetChannelsParams::new();
    assert!(params.sort_order.is_none());
    assert!(params.sort_by.is_none());
    assert_eq!(params.offset, None);
    assert_eq!(params.limit, None);
    assert_eq!(params.search, None);
    assert_eq!(params.is_subscribed, None);
    assert_eq!(params.subscribers_count, None);
    assert_eq!(params.min_subscribers_count, None);
    assert_eq!(params.max_subscribers_count, None);
}
