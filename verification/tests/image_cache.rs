use chianti::errors::ApiError;
use chianti::image_cache::content_type_from_guess;
use chianti::image_cache::content_type_of;
use chianti::image_cache::ensure_cached;
use chianti::image_cache::is_cacheable;
use chianti::image_cache::resolve_cache_path;
use chianti::image_cache::serve_cached;
use chianti::image_cache::CacheAction;
use chianti::image_cache::CacheEvent;
use chianti::image_cache::ImageKind;
use chianti::routes::images::get_channel_avater;
use chianti::routes::images::get_video_thumbnail;
use chianti::utils::build_avater_cache_image_filename;
use chianti::utils::build_thumbnail_cache_image_filename;
use chianti::utils::internal_error;
use std::collections::HashSet;

/// A small generator of ids, so that the sample is the same in every run.
fn sample_ids(count: usize) -> Vec<String> {
    let alphabet: Vec<char> =
        "abcdefghijklmnopqrstuvwxyzABCDEFGHIJKLMNOPQRSTUVWXYZ0123456789-_/+=. é漢".chars().collect();
    let mut state: u64 = 0x9e37_79b9_7f4a_7c15;
    let mut seen = HashSet::new();
    let mut ids = Vec::new();
    while ids.len() < count {
        let mut id = String::new();
        state = state.wrapping_mul(6364136223846793005).wrapping_add(1442695040888963407);
        let len = 1 + (state >> 33) % 24;
        for _ in 0..len {
            state = state.wrapping_mul(6364136223846793005).wrapping_add(1442695040888963407);
            id.push(alphabet[((state >> 33) % alphabet.len() as u64) as usize]);
        }
        if seen.insert(id.clone()) {
            ids.push(id);
        }
    }
    ids
}

#[test]
fn the_same_id_gives_the_same_path() {
    for id in sample_ids(200) {
        for kind in [ImageKind::ChannelAvatar, ImageKind::VideoThumbnail] {
            assert_eq!(resolve_cache_path(kind, &id), resolve_cache_path(kind, &id.clone()));
        }
    }
}

#[test]
fn ten_thousand_ids_give_ten_thousand_paths() {
    let ids = sample_ids(10_000);
    let mut paths = HashSet::new();
    for id in &ids {
        assert!(paths.insert(resolve_cache_path(ImageKind::ChannelAvatar, id)));
        assert!(paths.insert(resolve_cache_path(ImageKind::VideoThumbnail, id)));
    }
    assert_eq!(paths.len(), 20_000);
}

#[test]
fn file_names_are_built_from_the_id() {
    assert_eq!(build_thumbnail_cache_image_filename(&"".to_string()), ".webp");
    assert_eq!(build_thumbnail_cache_image_filename(&"a/b".to_string()), "a/b.webp");
    assert_eq!(build_avater_cache_image_filename(&"".to_string()), ".webp");
    assert_eq!(build_avater_cache_image_filename(&"Ma".to_string()), "TWE=.webp");
    assert_eq!(
        build_avater_cache_image_filename(&"UCuAXFkgsw1L7xaCfnd5JJOw".to_string()),
        "VUN1QVhGa2dzdzFMN3hhQ2ZuZDVKSk93.webp"
    );
    // The bytes 0xfb 0xff of "ûÿ" in UTF-8 are c3 bb c3 bf.
    assert_eq!(build_avater_cache_image_filename(&"ûÿ".to_string()), "w7vDvw==.webp");
    assert_eq!(build_avater_cache_image_filename(&"???".to_string()), "Pz8_.webp");
    assert!(is_cacheable(ImageKind::ChannelAvatar, &"C1".to_string()));
    assert!(is_cacheable(ImageKind::VideoThumbnail, &"V1".to_string()));
}

#[test]
fn a_present_file_is_settled_without_a_fetch() {
    let id = "C1".to_string();
    let reachable = "https://img.example/a.png".to_string();
    let unreachable = "https://nowhere.invalid/a.png".to_string();
    let kind = ImageKind::ChannelAvatar;

    // First call: the file is absent, the address answers.
    assert_eq!(
        ensure_cached(kind, &id, &reachable, CacheEvent::Begin),
        CacheAction::Probe("channel-avatars/QzE=.webp".to_string())
    );
    assert_eq!(
        ensure_cached(kind, &id, &reachable, CacheEvent::Absent),
        CacheAction::Fetch(reachable.clone())
    );
    assert_eq!(
        ensure_cached(kind, &id, &reachable, CacheEvent::Responded(200)),
        CacheAction::Store("channel-avatars/QzE=.webp".to_string())
    );
    assert_eq!(
        ensure_cached(kind, &id, &reachable, CacheEvent::Stored),
        CacheAction::Finish(Ok(()))
    );

    // Second call: the file is there, and the address is never asked for.
    assert_eq!(
        ensure_cached(kind, &id, &unreachable, CacheEvent::Begin),
        CacheAction::Probe("channel-avatars/QzE=.webp".to_string())
    );
    assert_eq!(
        ensure_cached(kind, &id, &unreachable, CacheEvent::Present),
        CacheAction::Finish(Ok(()))
    );
}

#[test]
fn a_fetch_that_fails_is_passed_over_and_a_bad_image_is_an_error() {
    let id = "V1".to_string();
    let url = "https://img.example/t.jpg".to_string();
    let kind = ImageKind::VideoThumbnail;
    assert_eq!(ensure_cached(kind, &id, &url, CacheEvent::FetchFailed), CacheAction::Finish(Ok(())));
    for status in [0, 199, 201, 204, 301, 404, 500] {
        assert_eq!(
            ensure_cached(kind, &id, &url, CacheEvent::Responded(status)),
            CacheAction::Finish(Ok(()))
        );
    }
    assert_eq!(
        ensure_cached(kind, &id, &url, CacheEvent::Responded(200)),
        CacheAction::Store("video-thumbnails/V1.webp".to_string())
    );
    assert_eq!(
        ensure_cached(kind, &id, &url, CacheEvent::StoreFailed),
        CacheAction::Finish(Err(ApiError::ImageProcessing))
    );
    assert_eq!(ApiError::ImageProcessing.status_code(), 500);
    assert!(ApiError::ImageProcessing.is_internal());
}

#[test]
fn a_cached_image_is_served_with_its_media_type() {
    let id = "V1".to_string();
    assert_eq!(
        serve_cached(ImageKind::VideoThumbnail, &id, true),
        Ok(("video-thumbnails/V1.webp".to_string(), "image/webp".to_string()))
    );
    assert_eq!(serve_cached(ImageKind::VideoThumbnail, &id, false), Err(ApiError::NotFound));
    assert_eq!(
        get_channel_avater(&"C1".to_string(), true),
        Ok(("channel-avatars/QzE=.webp".to_string(), "image/webp".to_string()))
    );
    assert_eq!(get_channel_avater(&"C1".to_string(), false), Err(ApiError::NotFound));
    assert_eq!(
        get_video_thumbnail(&id, true),
        Ok(("video-thumbnails/V1.webp".to_string(), "image/webp".to_string()))
    );
    assert_eq!(get_video_thumbnail(&id, false), Err(ApiError::NotFound));
}

#[test]
fn the_media_type_follows_the_extension() {
    assert_eq!(content_type_of(&"a/b.webp".to_string()), "image/webp");
    assert_eq!(content_type_of(&"a/b.PNG".to_string()), "image/png");
    assert_eq!(content_type_of(&"a/b.unheard-of".to_string()), "application/octet-stream");
    assert_eq!(content_type_of(&"a/b".to_string()), "application/octet-stream");
    // A file name that is all suffix has no extension.
    assert_eq!(content_type_of(&"video-thumbnails/.webp".to_string()), "application/octet-stream");
    assert_eq!(content_type_from_guess(None), "application/octet-stream");
    assert_eq!(content_type_from_guess(Some("text/plain".to_string())), "text/plain");
}

#[test]
fn an_internal_error_gives_nothing_away() {
    assert_eq!(internal_error(), (500, "Something went wrong".to_string()));
}
