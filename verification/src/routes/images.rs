use crate::errors::ApiError;
use crate::image_cache::ImageKind;
use crate::image_cache::cache_path;
use crate::image_cache::cacheable;
use crate::image_cache::guessed_media_type;
use crate::image_cache::media_type_or_default;
use crate::image_cache::serve_cached;
use vstd::prelude::*;
use vstd::string::*;

verus! {

/// Whether `reply` is what a request for the cached image of `kind` for
/// `id` is answered with: the path of the file below the image root and its
/// media type where the file is on disk, and `NotFound` where it is not.
pub open spec fn image_reply(
    kind: ImageKind,
    id: Seq<char>,
    present: bool,
    reply: Result<(String, String), ApiError>,
) -> bool {
    if present && cacheable(kind, id) {
        reply matches Ok(served) && served.0@ == cache_path(kind, id) && served.1@
            == media_type_or_default(guessed_media_type(cache_path(kind, id)))
    } else {
        reply == Err::<(String, String), ApiError>(ApiError::NotFound)
    }
}

/// Answers a request for the avatar of the channel `id`, given whether its
/// file is on disk.
pub fn get_channel_avater(id: &String, present: bool) -> (reply: Result<(String, String), ApiError>)
    ensures
        image_reply(ImageKind::ChannelAvatar, id@, present, reply),
{
    serve_cached(ImageKind::ChannelAvatar, id, present)
}

/// Answers a request for the thumbnail of the video `id`, given whether its
/// file is on disk.
pub fn get_video_thumbnail(id: &String, present: bool) -> (reply: Result<
    (String, String),
    ApiError,
>)
    ensures
        image_reply(ImageKind::VideoThumbnail, id@, present, reply),
{
    serve_cached(ImageKind::VideoThumbnail, id, present)
}

} // verus!
