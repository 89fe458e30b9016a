use crate::errors::ApiError;
use crate::utils::avatar_file_name;
use crate::utils::base64_encodable;
use crate::utils::build_avater_cache_image_filename;
use crate::utils::build_thumbnail_cache_image_filename;
use crate::utils::lemma_avatar_file_name_injective;
use crate::utils::lemma_thumbnail_file_name_injective;
use crate::utils::thumbnail_file_name;
use vstd::prelude::*;
use vstd::string::*;
use vstd::utf8::encode_utf8;

verus! {

/// The two kinds of image that are cached, each in a directory of its own.
#[derive(Debug, Clone, Copy, PartialEq, Eq, Structural)]
pub enum ImageKind {
    ChannelAvatar,
    VideoThumbnail,
}

/// The directory, below the image root, that holds the images of `kind`.
pub open spec fn cache_directory(kind: ImageKind) -> Seq<char> {
    match kind {
        ImageKind::ChannelAvatar => "channel-avatars/"@,
        ImageKind::VideoThumbnail => "video-thumbnails/"@,
    }
}

/// The name of the file that holds the image of `kind` for `source_id`.
pub open spec fn cache_file_name(kind: ImageKind, source_id: Seq<char>) -> Seq<char> {
    match kind {
        ImageKind::ChannelAvatar => avatar_file_name(source_id),
        ImageKind::VideoThumbnail => thumbnail_file_name(source_id),
    }
}

/// The path, below the image root, of the cached image of `kind` for
/// `source_id`.
pub open spec fn cache_path(kind: ImageKind, source_id: Seq<char>) -> Seq<char> {
    cache_directory(kind) + cache_file_name(kind, source_id)
}

/// Whether a cache path can be computed for `source_id`: an avatar's file
/// name is the base64 text of the id, which must have a length.
pub open spec fn cacheable(kind: ImageKind, source_id: Seq<char>) -> bool {
    kind == ImageKind::ChannelAvatar ==> base64_encodable(encode_utf8(source_id).len())
}

/// Whether a cache path can be computed for `source_id`.
pub fn is_cacheable(kind: ImageKind, source_id: &String) -> (yes: bool)
    ensures
        yes == cacheable(kind, source_id@),
{
    match kind {
        ImageKind::ChannelAvatar => {
            let len: usize = source_id.as_str().as_bytes().len();
            let groups: usize = if len % 3 == 0 {
                len / 3
            } else {
                len / 3 + 1
            };
            groups <= usize::MAX / 4
        },
        ImageKind::VideoThumbnail => true,
    }
}

/// The path, below the image root, under which the image of `kind` for
/// `source_id` is cached. It depends on nothing but the two arguments.
pub fn resolve_cache_path(kind: ImageKind, source_id: &String) -> (path: String)
    requires
        cacheable(kind, source_id@),
    ensures
        path@ == cache_path(kind, source_id@),
{
    match kind {
        ImageKind::ChannelAvatar => {
            let name = build_avater_cache_image_filename(source_id);
            String::from_str("channel-avatars/").concat(name.as_str())
        },
        ImageKind::VideoThumbnail => {
            let name = build_thumbnail_cache_image_filename(source_id);
            String::from_str("video-thumbnails/").concat(name.as_str())
        },
    }
}

/// The cache path is one-to-one: two paths are the same only for the same
/// kind of image and the same source id.
pub proof fn law_cache_path_injective(
    kind_a: ImageKind,
    a: Seq<char>,
    kind_b: ImageKind,
    b: Seq<char>,
)
    requires
        cache_path(kind_a, a) == cache_path(kind_b, b),
    ensures
        kind_a == kind_b,
        a == b,
{
    reveal_strlit("channel-avatars/");
    reveal_strlit("video-thumbnails/");
    let da = cache_directory(kind_a);
    let db = cache_directory(kind_b);
    let na = cache_file_name(kind_a, a);
    let nb = cache_file_name(kind_b, b);
    assert((da + na)[0] == da[0]);
    assert((db + nb)[0] == db[0]);
    assert(kind_a == kind_b);
    assert((da + na).len() == (db + nb).len());
    assert(na =~= (da + na).subrange(da.len() as int, (da + na).len() as int));
    assert(nb =~= (db + nb).subrange(db.len() as int, (db + nb).len() as int));
    match kind_a {
        ImageKind::ChannelAvatar => {
            lemma_avatar_file_name_injective(a, b);
        },
        ImageKind::VideoThumbnail => {
            lemma_thumbnail_file_name_injective(a, b);
        },
    }
}

/// What the caller of `ensure_cached` reports: that it begins, or how the
/// action it was last handed went.
#[derive(Debug, Clone, Copy, PartialEq, Eq, Structural)]
pub enum CacheEvent {
    /// Nothing was done yet.
    Begin,
    /// The file is on disk.
    Present,
    /// The file is not on disk.
    Absent,
    /// The fetch gave no response.
    FetchFailed,
    /// The fetch was answered with this HTTP status.
    Responded(u16),
    /// The image was decoded and written in the storage format.
    Stored,
    /// The image could not be decoded or written.
    StoreFailed,
}

/// What the caller of `ensure_cached` does next.
#[derive(Debug, PartialEq, Eq)]
pub enum CacheAction {
    /// See whether the file at this path, below the image root, exists.
    Probe(String),
    /// Fetch this address.
    Fetch(String),
    /// Decode the body that was fetched and write it, in the storage format,
    /// to this path below the image root.
    Store(String),
    /// Nothing more: the image is settled with this result.
    Finish(Result<(), ApiError>),
}

/// The HTTP status on which a fetched body is taken for the image.
pub const HTTP_OK: u16 = 200;

/// Whether `action` is what follows `event` while the image of `kind` for
/// `source_id` is brought into the cache from `fetch_url`. A file that is
/// present settles the image at once, with no fetch. A fetch that fails or
/// is answered with another status than 200 is passed over, and only a body
/// that cannot be decoded or written is an error.
pub open spec fn cache_step(
    kind: ImageKind,
    source_id: Seq<char>,
    fetch_url: Seq<char>,
    event: CacheEvent,
    action: CacheAction,
) -> bool {
    match event {
        CacheEvent::Begin => action matches CacheAction::Probe(path) && path@ == cache_path(
            kind,
            source_id,
        ),
        CacheEvent::Present => action == CacheAction::Finish(Ok(())),
        CacheEvent::Absent => action matches CacheAction::Fetch(url) && url@ == fetch_url,
        CacheEvent::FetchFailed => action == CacheAction::Finish(Ok(())),
        CacheEvent::Responded(status) => if status == HTTP_OK {
            action matches CacheAction::Store(path) && path@ == cache_path(kind, source_id)
        } else {
            action == CacheAction::Finish(Ok(()))
        },
        CacheEvent::Stored => action == CacheAction::Finish(Ok(())),
        CacheEvent::StoreFailed => action == CacheAction::Finish(Err(ApiError::ImageProcessing)),
    }
}

/// One step of bringing the image of `kind` for `source_id` into the cache:
/// the caller reports `event` and performs the action returned, until that
/// is `Finish`.
pub fn ensure_cached(kind: ImageKind, source_id: &String, fetch_url: &String, event: CacheEvent)
    -> (action: CacheAction)
    requires
        cacheable(kind, source_id@),
    ensures
        cache_step(kind, source_id@, fetch_url@, event, action),
        event == CacheEvent::Present ==> action == CacheAction::Finish(Ok(())),
        action is Fetch ==> event == CacheEvent::Absent,
{
    match event {
        CacheEvent::Begin => CacheAction::Probe(resolve_cache_path(kind, source_id)),
        CacheEvent::Present => CacheAction::Finish(Ok(())),
        CacheEvent::Absent => CacheAction::Fetch(fetch_url.clone()),
        CacheEvent::FetchFailed => CacheAction::Finish(Ok(())),
        CacheEvent::Responded(status) => {
            if status == HTTP_OK {
                CacheAction::Store(resolve_cache_path(kind, source_id))
            } else {
                CacheAction::Finish(Ok(()))
            }
        },
        CacheEvent::Stored => CacheAction::Finish(Ok(())),
        CacheEvent::StoreFailed => CacheAction::Finish(Err(ApiError::ImageProcessing)),
    }
}

/// The media type that the `mime_guess` crate gives for the extension of
/// `path`, if it knows the extension.
pub uninterp spec fn guessed_media_type(path: Seq<char>) -> Option<Seq<char>>;

/// The text that `guess` holds, if any.
pub open spec fn guess_text(guess: Option<String>) -> Option<Seq<char>> {
    match guess {
        Some(media_type) => Some(media_type@),
        None => None,
    }
}

/// Calls `mime_guess::from_path` and `MimeGuess::first_raw` on what it
/// returns. The contract claims only that the outcome is a function of the
/// path's text: the crate looks the extension up in a fixed table and reads
/// nothing from disk.
#[verifier::external_body]
fn guess_media_type(path: &str) -> (guess: Option<String>)
    ensures
        guess_text(guess) == guessed_media_type(path@),
{
    match mime_guess::from_path(path).first_raw() {
        Some(raw) => Some(raw.to_string()),
        None => None,
    }
}

/// The media type under which a file is served: the guess, or, where there
/// is none, that of opaque bytes.
pub open spec fn media_type_or_default(guess: Option<Seq<char>>) -> Seq<char> {
    match guess {
        Some(media_type) => media_type,
        None => "application/octet-stream"@,
    }
}

/// The media type under which a file is served, given the guess made from
/// its path.
pub fn content_type_from_guess(guess: Option<String>) -> (content_type: String)
    ensures
        content_type@ == media_type_or_default(guess_text(guess)),
{
    match guess {
        Some(media_type) => media_type,
        None => String::from_str("application/octet-stream"),
    }
}

/// The media type under which the file at `path` is served.
pub fn content_type_of(path: &String) -> (content_type: String)
    ensures
        content_type@ == media_type_or_default(guessed_media_type(path@)),
{
    content_type_from_guess(guess_media_type(path.as_str()))
}

/// What is answered to a request for the cached image of `kind` for
/// `source_id`: the path of the file and its media type where `present`
/// says that the file is on disk, and `NotFound` where it is not. An id for
/// which no cache path exists has no file.
pub fn serve_cached(kind: ImageKind, source_id: &String, present: bool) -> (reply: Result<
    (String, String),
    ApiError,
>)
    ensures
        !(present && cacheable(kind, source_id@)) ==> reply == Err::<(String, String), ApiError>(
            ApiError::NotFound,
        ),
        present && cacheable(kind, source_id@) ==> (reply matches Ok(served) && served.0@
            == cache_path(kind, source_id@) && served.1@ == media_type_or_default(
            guessed_media_type(cache_path(kind, source_id@)),
        )),
{
    if !present || !is_cacheable(kind, source_id) {
        return Err(ApiError::NotFound);
    }
    let path = resolve_cache_path(kind, source_id);
    let content_type = content_type_of(&path);
    Ok((path, content_type))
}

} // verus!
