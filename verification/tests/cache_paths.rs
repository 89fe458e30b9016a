use chianti::image_cache::resolve_cache_path;
use chianti::image_cache::ImageKind;
use chianti::utils::build_avater_cache_image_filename;
use chianti::utils::build_thumbnail_cache_image_filename;

#[test]
fn thumbnail_file_name_is_the_id_with_the_suffix() {
    let name = build_thumbnail_cache_image_filename(&"dQw4w9WgXcQ".to_string());
    assert_eq!(name, "dQw4w9WgXcQ.webp");
}

#[test]
fn avatar_file_name_is_the_base64_text_of_the_id() {
    let name = build_avater_cache_image_filename(&"Man".to_string());
    assert_eq!(name, "TWFu.webp");
    let padded = build_avater_cache_image_filename(&"M".to_string());
    assert_eq!(padded, "TQ==.webp");
    let url_safe = build_avater_cache_image_filename(&"~~~".to_string());
    assert_eq!(url_safe, "fn5-.webp");
}

#[test]
fn cache_path_names_the_directory_of_the_kind() {
    let id = "C1".to_string();
    assert_eq!(resolve_cache_path(ImageKind::ChannelAvatar, &id), "channel-avatars/QzE=.webp");
    assert_eq!(resolve_cache_path(ImageKind::VideoThumbnail, &id), "video-thumbnails/C1.webp");
}
