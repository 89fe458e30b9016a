use chianti::database::store::Store;
use chianti::errors::ApiError;
use chianti::image_cache::ImageKind;
use chianti::routes::ping::ping;
use chianti::routes::watch_history::create_watch_history;
use chianti::routes::watch_history::draw;
use chianti::routes::watch_history::resume_watch_history;
use chianti::routes::watch_history::CreateWatchHistoryChannel;
use chianti::routes::watch_history::CreateWatchHistoryRequest;
use chianti::routes::watch_history::CreateWatchHistoryVideo;
use chianti::routes::watch_history::IngestAction;
use chianti::routes::watch_history::IngestState;

fn record(channel: &str, video: &str) -> CreateWatchHistoryRequest {
    CreateWatchHistoryRequest {
        watch_duration_seconds: 120,
        session_start_date: 1_700_000_000,
        session_end_date: 1_700_000_300,
        channel: CreateWatchHistoryChannel {
            id: channel.to_string(),
            name: "name".to_string(),
            avater_url: format!("https://img.example/{channel}.png"),
            url: "https://example".to_string(),
            is_subscribed: true,
            subscribers_count: 1,
        },
        video: CreateWatchHistoryVideo {
            id: video.to_string(),
            title: "title".to_string(),
            description: "".to_string(),
            thumbnail_url: format!("https://img.example/{video}.jpg"),
            tags: vec!["music".to_string()],
            likes_count: 0,
            view_count: 0,
            comments_count: 0,
            duration: 0,
            published_at: 0,
        },
    }
}

fn avatar(channel: &str) -> IngestAction {
    IngestAction::EnsureCached {
        kind: ImageKind::ChannelAvatar,
        source_id: channel.to_string(),
        fetch_url: format!("https://img.example/{channel}.png"),
    }
}

fn thumbnail(video: &str) -> IngestAction {
    IngestAction::EnsureCached {
        kind: ImageKind::VideoThumbnail,
        source_id: video.to_string(),
        fetch_url: format!("https://img.example/{video}.jpg"),
    }
}

#[test]
fn an_empty_batch_is_answered_at_once() {
    let (state, action) = create_watch_history(&vec![]);
    assert_eq!(state, IngestState::Created);
    assert_eq!(action, IngestAction::Respond { status: 201 });
}

#[test]
fn a_batch_runs_record_by_record() {
    let batch = vec![record("C1", "V1"), record("C2", "V2")];
    let mut store = Store::new();

    let (state, action) = create_watch_history(&batch);
    assert_eq!(state, IngestState::Avatar(0));
    assert_eq!(action, avatar("C1"));

    let (state, action) = resume_watch_history(&mut store, &batch, state, Ok(()));
    assert_eq!(state, IngestState::Thumbnail(0));
    assert_eq!(action, thumbnail("V1"));
    assert_eq!(store.channels().len(), 0);

    let (state, action) = resume_watch_history(&mut store, &batch, state, Ok(()));
    assert_eq!(state, IngestState::Avatar(1));
    assert_eq!(action, avatar("C2"));
    assert_eq!(store.channels().len(), 1);
    assert_eq!(store.watch_history().len(), 1);

    let (state, action) = resume_watch_history(&mut store, &batch, state, Ok(()));
    assert_eq!(state, IngestState::Thumbnail(1));
    assert_eq!(action, thumbnail("V2"));

    let (state, action) = resume_watch_history(&mut store, &batch, state, Ok(()));
    assert_eq!(state, IngestState::Created);
    assert_eq!(action, IngestAction::Respond { status: 201 });
    assert_eq!(store.channels().len(), 2);
    assert_eq!(store.videos().len(), 2);
    assert_eq!(store.tags().len(), 1);
    assert_eq!(store.video_tags().len(), 2);
    assert_eq!(store.watch_history().len(), 2);

    // A final state stays final.
    let (state, action) = resume_watch_history(&mut store, &batch, state, Ok(()));
    assert_eq!(state, IngestState::Created);
    assert_eq!(action, IngestAction::Respond { status: 201 });
    assert_eq!(store.watch_history().len(), 2);
}

#[test]
fn an_image_that_fails_gives_the_batch_up_and_keeps_what_was_ingested() {
    let batch = vec![record("C1", "V1"), record("C2", "V2"), record("C3", "V3")];
    let mut store = Store::new();
    let (state, _) = create_watch_history(&batch);
    let (state, _) = resume_watch_history(&mut store, &batch, state, Ok(()));
    let (state, _) = resume_watch_history(&mut store, &batch, state, Ok(()));
    let (state, _) = resume_watch_history(&mut store, &batch, state, Ok(()));
    assert_eq!(state, IngestState::Thumbnail(1));

    let failed = Err(ApiError::ImageProcessing);
    let (state, action) = resume_watch_history(&mut store, &batch, state, failed);
    assert_eq!(state, IngestState::Failed(ApiError::ImageProcessing));
    assert_eq!(action, IngestAction::Respond { status: 500 });
    assert_eq!(store.watch_history().len(), 1);
    assert_eq!(store.channels().len(), 1);

    let (state, action) = resume_watch_history(&mut store, &batch, state, Ok(()));
    assert_eq!(state, IngestState::Failed(ApiError::ImageProcessing));
    assert_eq!(action, IngestAction::Respond { status: 500 });
    assert_eq!(store.watch_history().len(), 1);
}

#[test]
fn a_failed_avatar_gives_the_batch_up_before_any_row_is_written() {
    let batch = vec![record("C1", "V1")];
    let mut store = Store::new();
    let (state, _) = create_watch_history(&batch);
    let (state, action) =
        resume_watch_history(&mut store, &batch, state, Err(ApiError::ImageProcessing));
    assert_eq!(state, IngestState::Failed(ApiError::ImageProcessing));
    assert_eq!(action, IngestAction::Respond { status: 500 });
    assert_eq!(store.channels().len(), 0);
    assert_eq!(store.watch_history().len(), 0);
}

#[test]
fn a_state_behind_the_batch_is_final() {
    let batch = vec![record("C1", "V1")];
    let mut store = Store::new();
    let (state, action) =
        resume_watch_history(&mut store, &batch, IngestState::Thumbnail(5), Ok(()));
    assert_eq!(state, IngestState::Created);
    assert_eq!(action, IngestAction::Respond { status: 201 });
    let (state, _) = resume_watch_history(&mut store, &batch, IngestState::Avatar(1), Ok(()));
    assert_eq!(state, IngestState::Created);
    assert_eq!(store.watch_history().len(), 0);
}

#[test]
fn a_draw_has_an_identifier_for_every_tag_name() {
    let mut r = record("C1", "V1");
    r.video.tags = vec!["a".to_string(), "b".to_string(), "a".to_string()];
    let drawn = draw(&r).unwrap();
    assert_eq!(drawn.tag_ids.len(), 3);
    assert!(drawn.now > 1_600_000_000);
    for id in drawn.tag_ids.iter().chain([&drawn.history_id]) {
        assert_eq!(id.len(), 21);
        assert!(id.chars().all(|c| c.is_ascii_alphanumeric() || c == '_' || c == '-'));
    }
    assert_ne!(drawn.tag_ids[0], drawn.tag_ids[1]);
    assert_ne!(drawn.tag_ids[0], drawn.history_id);
}

#[test]
fn the_server_answers_a_ping() {
    assert_eq!(ping(), (200, "pong".to_string()));
}
