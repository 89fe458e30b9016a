use chianti::database::models::Channel;
use chianti::database::models::NewChannelParams;
use chianti::database::models::NewVideoParams;
use chianti::database::models::Tag;
use chianti::database::models::Video;
use chianti::database::models::VideoTags;
use chianti::database::models::WatchHistory;
use chianti::database::store::Store;
use chianti::errors::ApiError;
use chianti::routes::videos::get_videos;
use chianti::routes::videos::GetVideosParams;
use chianti::routes::watch_history::apply_record;
use chianti::routes::watch_history::ingest_record;
use chianti::routes::watch_history::CreateWatchHistoryChannel;
use chianti::routes::watch_history::CreateWatchHistoryRequest;
use chianti::routes::watch_history::CreateWatchHistoryVideo;
use chianti::routes::watch_history::Generated;

fn record(channel: &str, video: &str, tags: &[&str]) -> CreateWatchHistoryRequest {
    CreateWatchHistoryRequest {
        watch_duration_seconds: 120,
        session_start_date: 1_700_000_000,
        session_end_date: 1_700_000_300,
        channel: CreateWatchHistoryChannel {
            id: channel.to_string(),
            name: format!("channel {channel}"),
            avater_url: format!("https://img.example/{channel}.png"),
            url: format!("https://www.youtube.com/channel/{channel}"),
            is_subscribed: true,
            subscribers_count: 1000,
        },
        video: CreateWatchHistoryVideo {
            id: video.to_string(),
            title: format!("video {video}"),
            description: "about".to_string(),
            thumbnail_url: format!("https://img.example/{video}.jpg"),
            tags: tags.iter().map(|t| t.to_string()).collect(),
            likes_count: 10,
            view_count: 100,
            comments_count: 1,
            duration: 600,
            published_at: 1_600_000_000,
        },
    }
}

fn drawn(now: i64, tag_ids: &[&str], history_id: &str) -> Generated {
    Generated {
        now,
        tag_ids: tag_ids.iter().map(|t| t.to_string()).collect(),
        history_id: history_id.to_string(),
    }
}

#[test]
fn one_record_fills_every_table() {
    let mut store = Store::new();
    let r = record("C1", "V1", &["music", "live"]);
    apply_record(&mut store, &r, &drawn(50, &["t-music", "t-live"], "h-1"));

    assert_eq!(
        store.channels(),
        &vec![Channel {
            id: "C1".to_string(),
            name: "channel C1".to_string(),
            url: "https://www.youtube.com/channel/C1".to_string(),
            is_subscribed: true,
            subscribers_count: 1000,
            added_at: 50,
        }]
    );
    assert_eq!(
        store.videos(),
        &vec![Video {
            id: "V1".to_string(),
            channel_id: "C1".to_string(),
            url: "https://www.youtube.com/watch?v=V1".to_string(),
            title: "video V1".to_string(),
            description: "about".to_string(),
            watch_counter: 0,
            duration_seconds: 600,
            likes_count: 10,
            view_count: 100,
            comments_count: 1,
            published_at: 1_600_000_000,
            added_at: 50,
        }]
    );
    assert_eq!(
        store.tags(),
        &vec![
            Tag { id: "t-music".to_string(), name: "music".to_string(), added_at: 50 },
            Tag { id: "t-live".to_string(), name: "live".to_string(), added_at: 50 },
        ]
    );
    assert_eq!(
        store.video_tags(),
        &vec![
            VideoTags { video_id: "V1".to_string(), tag_id: "t-music".to_string() },
            VideoTags { video_id: "V1".to_string(), tag_id: "t-live".to_string() },
        ]
    );
    assert_eq!(
        store.watch_history(),
        &vec![WatchHistory {
            id: "h-1".to_string(),
            video_id: "V1".to_string(),
            channel_id: "C1".to_string(),
            watch_duration_seconds: 120,
            session_start_date: 1_700_000_000,
            session_end_date: 1_700_000_300,
            added_at: 50,
        }]
    );

    let mut params = GetVideosParams::new();
    params.tags = Some(vec!["music".to_string()]);
    let listed = get_videos(&store, &params);
    assert_eq!(listed.data.len(), 1);
    assert_eq!(listed.data[0].video.id, "V1");
    assert_eq!(listed.data[0].tags, vec!["music".to_string(), "live".to_string()]);
    assert_eq!(listed.total, 1);
}

#[test]
fn reingested_channel_is_refreshed_and_keeps_added_at() {
    let mut store = Store::new();
    apply_record(&mut store, &record("C1", "V1", &[]), &drawn(50, &[], "h-1"));
    let mut again = record("C1", "V2", &[]);
    again.channel.subscribers_count = 2500;
    again.channel.name = "renamed".to_string();
    again.channel.is_subscribed = false;
    again.channel.url = "https://elsewhere.example/C1".to_string();
    apply_record(&mut store, &again, &drawn(90, &[], "h-2"));

    assert_eq!(store.channels().len(), 1);
    let channel = &store.channels()[0];
    assert_eq!(channel.subscribers_count, 2500);
    assert_eq!(channel.name, "renamed");
    assert!(!channel.is_subscribed);
    assert_eq!(channel.added_at, 50);
    assert_eq!(channel.url, "https://www.youtube.com/channel/C1");
}

#[test]
fn reingested_video_keeps_channel_and_added_at_and_takes_the_counts() {
    let mut store = Store::new();
    apply_record(&mut store, &record("C1", "V1", &[]), &drawn(50, &[], "h-1"));
    let mut again = record("C2", "V1", &[]);
    again.video.view_count = 777;
    again.video.likes_count = 70;
    again.video.comments_count = 7;
    again.video.title = "new title".to_string();
    again.video.description = "new description".to_string();
    again.video.duration = 1;
    again.video.published_at = 2;
    apply_record(&mut store, &again, &drawn(90, &[], "h-2"));

    assert_eq!(store.videos().len(), 1);
    let video = &store.videos()[0];
    assert_eq!(video.channel_id, "C1");
    assert_eq!(video.added_at, 50);
    assert_eq!(video.view_count, 777);
    assert_eq!(video.likes_count, 70);
    assert_eq!(video.comments_count, 7);
    assert_eq!(video.title, "new title");
    assert_eq!(video.description, "about");
    assert_eq!(video.duration_seconds, 600);
    assert_eq!(video.published_at, 1_600_000_000);
    assert_eq!(video.watch_counter, 0);
    // The session goes with the channel of its own record.
    assert_eq!(store.watch_history()[1].channel_id, "C2");
    assert_eq!(store.channels().len(), 2);
}

#[test]
fn a_tag_name_shared_by_two_videos_is_one_tag() {
    let mut store = Store::new();
    apply_record(&mut store, &record("C1", "V1", &["music"]), &drawn(50, &["t-1"], "h-1"));
    apply_record(&mut store, &record("C1", "V2", &["music"]), &drawn(60, &["t-2"], "h-2"));

    assert_eq!(store.tags().len(), 1);
    assert_eq!(store.tags()[0].name, "music");
    assert_eq!(store.tags()[0].id, "t-1");
    assert_eq!(store.tags()[0].added_at, 50);
    let listed = get_videos(&store, &GetVideosParams::new());
    assert_eq!(listed.data.len(), 2);
    assert_eq!(listed.data[0].tags, vec!["music".to_string()]);
    assert_eq!(listed.data[1].tags, vec!["music".to_string()]);
}

#[test]
fn a_pairing_ingested_twice_is_stored_once() {
    let mut store = Store::new();
    let r = record("C1", "V1", &["music", "live"]);
    apply_record(&mut store, &r, &drawn(50, &["t-1", "t-2"], "h-1"));
    apply_record(&mut store, &r, &drawn(60, &["t-3", "t-4"], "h-2"));

    assert_eq!(store.video_tags().len(), 2);
    assert_eq!(store.tags().len(), 2);
    assert_eq!(
        store.video_tags()[0],
        VideoTags { video_id: "V1".to_string(), tag_id: "t-1".to_string() }
    );
    assert_eq!(
        store.video_tags()[1],
        VideoTags { video_id: "V1".to_string(), tag_id: "t-2".to_string() }
    );
}

#[test]
fn a_tag_name_given_twice_in_one_record_is_one_tag_and_one_pairing() {
    let mut store = Store::new();
    apply_record(
        &mut store,
        &record("C1", "V1", &["music", "music"]),
        &drawn(50, &["t-1", "t-2"], "h-1"),
    );
    assert_eq!(store.tags().len(), 1);
    assert_eq!(store.tags()[0].id, "t-1");
    assert_eq!(store.video_tags().len(), 1);
}

#[test]
fn every_ingestion_appends_one_session() {
    let mut store = Store::new();
    let r = record("C1", "V1", &["music"]);
    for n in 0..5 {
        let id = format!("h-{n}");
        apply_record(&mut store, &r, &drawn(50 + n, &["t"], &id));
        assert_eq!(store.watch_history().len() as i64, n + 1);
    }
    assert_eq!(store.channels().len(), 1);
    assert_eq!(store.videos().len(), 1);
    assert_eq!(store.watch_history()[3].id, "h-3");
    assert_eq!(store.watch_history()[3].added_at, 53);
}

#[test]
fn a_session_whose_identifier_is_taken_is_skipped() {
    let mut store = Store::new();
    let r = record("C1", "V1", &[]);
    apply_record(&mut store, &r, &drawn(50, &[], "h-1"));
    let mut longer = record("C1", "V1", &[]);
    longer.watch_duration_seconds = 999;
    apply_record(&mut store, &longer, &drawn(60, &[], "h-1"));
    assert_eq!(store.watch_history().len(), 1);
    assert_eq!(store.watch_history()[0].watch_duration_seconds, 120);
}

#[test]
fn a_tag_whose_identifier_is_taken_is_not_created() {
    let mut store = Store::new();
    apply_record(&mut store, &record("C1", "V1", &["music"]), &drawn(50, &["t-1"], "h-1"));
    apply_record(&mut store, &record("C1", "V2", &["live"]), &drawn(60, &["t-1"], "h-2"));
    // The name "live" is new but the identifier is taken: no tag is made,
    // and the pairing goes to the tag that holds the identifier.
    assert_eq!(store.tags().len(), 1);
    assert_eq!(
        store.video_tags()[1],
        VideoTags { video_id: "V2".to_string(), tag_id: "t-1".to_string() }
    );
}

#[test]
fn ingest_record_draws_time_and_identifiers() {
    let mut store = Store::new();
    let r = record("C1", "V1", &["music", "live"]);
    assert_eq!(ingest_record(&mut store, &r), Ok(()));
    assert_eq!(ingest_record(&mut store, &r), Ok(()));
    assert_eq!(store.channels().len(), 1);
    assert_eq!(store.videos().len(), 1);
    assert_eq!(store.tags().len(), 2);
    assert_eq!(store.video_tags().len(), 2);
    assert_eq!(store.watch_history().len(), 2);
    let first = &store.watch_history()[0];
    let second = &store.watch_history()[1];
    assert_eq!(first.id.chars().count(), 21);
    assert_ne!(first.id, second.id);
    assert_ne!(store.tags()[0].id, store.tags()[1].id);
    assert!(first.added_at > 1_600_000_000);
    assert!(store.channels()[0].added_at > 1_600_000_000);
    assert!(first
        .id
        .chars()
        .all(|c| c.is_ascii_alphanumeric() || c == '_' || c == '-'));
}

#[test]
fn rows_read_the_clock_and_draw_identifiers() {
    let channel = Channel::new(NewChannelParams {
        id: "C1".to_string(),
        name: "n".to_string(),
        url: "u".to_string(),
        is_subscribed: false,
        subscribers_count: 3,
    })
    .unwrap();
    assert_eq!(channel.id, "C1");
    assert_eq!(channel.subscribers_count, 3);
    assert!(channel.added_at > 1_600_000_000);

    let video = Video::new(NewVideoParams {
        id: "abc".to_string(),
        channel_id: "C1".to_string(),
        title: "t".to_string(),
        description: "d".to_string(),
        duration_seconds: 1,
        likes_count: 2,
        view_count: 3,
        comments_count: 4,
        published_at: 5,
    })
    .unwrap();
    assert_eq!(video.url, "https://www.youtube.com/watch?v=abc");
    assert_eq!(video.watch_counter, 0);
    assert!(video.added_at > 1_600_000_000);

    let tag = Tag::new("music".to_string()).unwrap();
    let other = Tag::new("music".to_string()).unwrap();
    assert_eq!(tag.name, "music");
    assert_eq!(tag.id.len(), 21);
    assert_ne!(tag.id, other.id);

    let pairing = VideoTags::new("abc".to_string(), tag.id.clone());
    assert_eq!(pairing.video_id, "abc");
    assert_eq!(pairing.tag_id, tag.id);

    let session = WatchHistory::new("abc".to_string(), "C1".to_string(), 7, 8, 9).unwrap();
    assert_eq!(session.video_id, "abc");
    assert_eq!(session.channel_id, "C1");
    assert_eq!(session.watch_duration_seconds, 7);
    assert_eq!(session.session_start_date, 8);
    assert_eq!(session.session_end_date, 9);
    assert_eq!(session.id.len(), 21);
}

#[test]
fn the_store_refuses_rows_that_point_at_nothing() {
    let mut store = Store::new();
    let video = Video::created_at(
        NewVideoParams {
            id: "V1".to_string(),
            channel_id: "missing".to_string(),
            title: "t".to_string(),
            description: "d".to_string(),
            duration_seconds: 1,
            likes_count: 2,
            view_count: 3,
            comments_count: 4,
            published_at: 5,
        },
        10,
    );
    assert_eq!(store.upsert_video(video), Err(ApiError::Storage));
    assert_eq!(store.videos().len(), 0);
    assert_eq!(
        store.insert_video_tag(VideoTags::new("V1".to_string(), "t".to_string())),
        Err(ApiError::Storage)
    );
    assert_eq!(
        store.insert_watch_history(WatchHistory::created_at(
            "h".to_string(),
            "V1".to_string(),
            "C1".to_string(),
            1,
            2,
            3,
            4
        )),
        Err(ApiError::Storage)
    );
    assert_eq!(store.watch_history().len(), 0);
    assert_eq!(store.video_tags().len(), 0);
}

#[test]
fn a_tag_is_inserted_once_by_id_and_by_name() {
    let mut store = Store::new();
    store.insert_tag(Tag::created_at("t-1".to_string(), "music".to_string(), 1));
    store.insert_tag(Tag::created_at("t-2".to_string(), "music".to_string(), 2));
    store.insert_tag(Tag::created_at("t-1".to_string(), "live".to_string(), 3));
    store.insert_tag(Tag::created_at("t-3".to_string(), "live".to_string(), 4));
    assert_eq!(store.tags().len(), 2);
    assert_eq!(store.find_tag_by_name(&"live".to_string()), Some(1));
    assert_eq!(store.find_tag(&"t-3".to_string()), Some(1));
    assert_eq!(store.find_tag(&"t-2".to_string()), None);
}
