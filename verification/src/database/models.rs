use crate::clock::unix_now;
use crate::ids::is_generated_id;
use crate::ids::random_id;
use vstd::prelude::*;
use vstd::string::*;

verus! {

/// What a caller supplies for a new channel row.
pub struct NewChannelParams {
    pub id: String,
    pub name: String,
    pub url: String,
    pub is_subscribed: bool,
    pub subscribers_count: i64,
}

/// A channel row as a mathematical value.
pub struct ChannelView {
    pub id: Seq<char>,
    pub name: Seq<char>,
    pub url: Seq<char>,
    pub is_subscribed: bool,
    pub subscribers_count: i64,
    pub added_at: i64,
}

/// A channel row. Its id comes from the video platform; `added_at` is the
/// time, in seconds of Unix time, at which the row was first stored.
#[derive(Debug, PartialEq, Eq)]
pub struct Channel {
    pub id: String,
    pub name: String,
    pub url: String,
    pub is_subscribed: bool,
    pub subscribers_count: i64,
    pub added_at: i64,
}

impl View for Channel {
    type V = ChannelView;

    open spec fn view(&self) -> ChannelView {
        ChannelView {
            id: self.id@,
            name: self.name@,
            url: self.url@,
            is_subscribed: self.is_subscribed,
            subscribers_count: self.subscribers_count,
            added_at: self.added_at,
        }
    }
}

impl Clone for Channel {
    fn clone(&self) -> (copy: Self)
        ensures
            copy == *self,
    {
        Channel {
            id: self.id.clone(),
            name: self.name.clone(),
            url: self.url.clone(),
            is_subscribed: self.is_subscribed,
            subscribers_count: self.subscribers_count,
            added_at: self.added_at,
        }
    }
}

/// The channel row made of `p` and first stored at `added_at`.
pub open spec fn channel_row(p: NewChannelParams, added_at: i64) -> ChannelView {
    ChannelView {
        id: p.id@,
        name: p.name@,
        url: p.url@,
        is_subscribed: p.is_subscribed,
        subscribers_count: p.subscribers_count,
        added_at,
    }
}

impl Channel {
    /// The row made of `p`, stamped with the time `added_at`.
    pub fn created_at(p: NewChannelParams, added_at: i64) -> (row: Channel)
        ensures
            row@ == channel_row(p, added_at),
    {
        Channel {
            id: p.id,
            name: p.name,
            url: p.url,
            is_subscribed: p.is_subscribed,
            subscribers_count: p.subscribers_count,
            added_at,
        }
    }

    /// The row made of `p`, stamped with the time that the clock was read
    /// at: there is a row exactly where the clock gave a reading.
    pub fn stamped(p: NewChannelParams, reading: Option<i64>) -> (row: Option<Channel>)
        ensures
            match reading {
                Some(now) => row matches Some(c) && c@ == channel_row(p, now),
                None => row is None,
            },
    {
        match reading {
            Some(now) => Some(Channel::created_at(p, now)),
            None => None,
        }
    }

    /// The row made of `p`, stamped with the current time. `None` where the
    /// system clock cannot be read as seconds since the Unix epoch.
    pub fn new(p: NewChannelParams) -> (row: Option<Channel>)
        ensures
            row matches Some(c) ==> c@ == channel_row(p, c.added_at) && c.added_at >= 0,
    {
        Channel::stamped(p, unix_now())
    }
}

/// What a caller supplies for a new video row.
pub struct NewVideoParams {
    pub id: String,
    pub channel_id: String,
    pub title: String,
    pub description: String,
    pub duration_seconds: i64,
    pub likes_count: i64,
    pub view_count: i64,
    pub comments_count: i64,
    pub published_at: i64,
}

/// A video row as a mathematical value.
pub struct VideoView {
    pub id: Seq<char>,
    pub channel_id: Seq<char>,
    pub url: Seq<char>,
    pub title: Seq<char>,
    pub description: Seq<char>,
    pub watch_counter: i64,
    pub duration_seconds: i64,
    pub likes_count: i64,
    pub view_count: i64,
    pub comments_count: i64,
    pub published_at: i64,
    pub added_at: i64,
}

/// A video row. Its id comes from the video platform; it belongs to one
/// channel from its first ingestion on.
#[derive(Debug, PartialEq, Eq)]
pub struct Video {
    pub id: String,
    pub channel_id: String,
    pub url: String,
    pub title: String,
    pub description: String,
    pub watch_counter: i64,
    pub duration_seconds: i64,
    pub likes_count: i64,
    pub view_count: i64,
    pub comments_count: i64,
    pub published_at: i64,
    pub added_at: i64,
}

impl View for Video {
    type V = VideoView;

    open spec fn view(&self) -> VideoView {
        VideoView {
            id: self.id@,
            channel_id: self.channel_id@,
            url: self.url@,
            title: self.title@,
            description: self.description@,
            watch_counter: self.watch_counter,
            duration_seconds: self.duration_seconds,
            likes_count: self.likes_count,
            view_count: self.view_count,
            comments_count: self.comments_count,
            published_at: self.published_at,
            added_at: self.added_at,
        }
    }
}

impl Clone for Video {
    fn clone(&self) -> (copy: Self)
        ensures
            copy == *self,
    {
        Video {
            id: self.id.clone(),
            channel_id: self.channel_id.clone(),
            url: self.url.clone(),
            title: self.title.clone(),
            description: self.description.clone(),
            watch_counter: self.watch_counter,
            duration_seconds: self.duration_seconds,
            likes_count: self.likes_count,
            view_count: self.view_count,
            comments_count: self.comments_count,
            published_at: self.published_at,
            added_at: self.added_at,
        }
    }
}

/// The address under which the video `id` is watched.
pub open spec fn video_url(id: Seq<char>) -> Seq<char> {
    "https://www.youtube.com/watch?v="@ + id
}

/// The video row made of `p` and first stored at `added_at`: its address
/// follows from its id, and its watch counter starts at zero.
pub open spec fn video_row(p: NewVideoParams, added_at: i64) -> VideoView {
    VideoView {
        id: p.id@,
        channel_id: p.channel_id@,
        url: video_url(p.id@),
        title: p.title@,
        description: p.description@,
        watch_counter: 0,
        duration_seconds: p.duration_seconds,
        likes_count: p.likes_count,
        view_count: p.view_count,
        comments_count: p.comments_count,
        published_at: p.published_at,
        added_at,
    }
}

impl Video {
    /// The row made of `p`, stamped with the time `added_at`.
    pub fn created_at(p: NewVideoParams, added_at: i64) -> (row: Video)
        ensures
            row@ == video_row(p, added_at),
    {
        let mut url = String::from_str("https://www.youtube.com/watch?v=");
        url.append(p.id.as_str());
        Video {
            id: p.id,
            channel_id: p.channel_id,
            url,
            title: p.title,
            description: p.description,
            watch_counter: 0,
            duration_seconds: p.duration_seconds,
            likes_count: p.likes_count,
            view_count: p.view_count,
            comments_count: p.comments_count,
            published_at: p.published_at,
            added_at,
        }
    }

    /// The row made of `p`, stamped with the time that the clock was read
    /// at: there is a row exactly where the clock gave a reading.
    pub fn stamped(p: NewVideoParams, reading: Option<i64>) -> (row: Option<Video>)
        ensures
            match reading {
                Some(now) => row matches Some(v) && v@ == video_row(p, now),
                None => row is None,
            },
    {
        match reading {
            Some(now) => Some(Video::created_at(p, now)),
            None => None,
        }
    }

    /// The row made of `p`, stamped with the current time. `None` where the
    /// system clock cannot be read as seconds since the Unix epoch.
    pub fn new(p: NewVideoParams) -> (row: Option<Video>)
        ensures
            row matches Some(v) ==> v@ == video_row(p, v.added_at) && v.added_at >= 0,
    {
        Video::stamped(p, unix_now())
    }
}

/// A tag row as a mathematical value.
pub struct TagView {
    pub id: Seq<char>,
    pub name: Seq<char>,
    pub added_at: i64,
}

/// A tag row. Its identifier is generated; its name is what it is found
/// by.
#[derive(Debug, PartialEq, Eq)]
pub struct Tag {
    pub id: String,
    pub name: String,
    pub added_at: i64,
}

impl View for Tag {
    type V = TagView;

    open spec fn view(&self) -> TagView {
        TagView { id: self.id@, name: self.name@, added_at: self.added_at }
    }
}

impl Clone for Tag {
    fn clone(&self) -> (copy: Self)
        ensures
            copy == *self,
    {
        Tag { id: self.id.clone(), name: self.name.clone(), added_at: self.added_at }
    }
}

impl Tag {
    /// The tag `name` under the identifier `id`, stamped with `added_at`.
    pub fn created_at(id: String, name: String, added_at: i64) -> (row: Tag)
        ensures
            row@ == (TagView { id: id@, name: name@, added_at }),
    {
        Tag { id, name, added_at }
    }

    /// The tag `name` under the identifier `id`, stamped with the time that
    /// the clock was read at: there is a row exactly where the clock gave a
    /// reading.
    pub fn stamped(id: String, name: String, reading: Option<i64>) -> (row: Option<Tag>)
        ensures
            match reading {
                Some(now) => row matches Some(t) && t@ == (TagView {
                    id: id@,
                    name: name@,
                    added_at: now,
                }),
                None => row is None,
            },
    {
        match reading {
            Some(now) => Some(Tag::created_at(id, name, now)),
            None => None,
        }
    }

    /// The tag `name` under a new random identifier, stamped with the current
    /// time. `None` where the system clock cannot be read as seconds since the
    /// Unix epoch.
    pub fn new(name: String) -> (row: Option<Tag>)
        ensures
            row matches Some(t) ==> {
                &&& t.name@ == name@
                &&& is_generated_id(t.id@)
                &&& t.added_at >= 0
            },
    {
        let reading = unix_now();
        Tag::stamped(random_id(), name, reading)
    }
}

/// A pairing of a video with a tag as a mathematical value.
pub struct VideoTagsView {
    pub video_id: Seq<char>,
    pub tag_id: Seq<char>,
}

/// A pairing of a video with a tag.
#[derive(Debug, PartialEq, Eq)]
pub struct VideoTags {
    pub video_id: String,
    pub tag_id: String,
}

impl View for VideoTags {
    type V = VideoTagsView;

    open spec fn view(&self) -> VideoTagsView {
        VideoTagsView { video_id: self.video_id@, tag_id: self.tag_id@ }
    }
}

impl Clone for VideoTags {
    fn clone(&self) -> (copy: Self)
        ensures
            copy == *self,
    {
        VideoTags { video_id: self.video_id.clone(), tag_id: self.tag_id.clone() }
    }
}

impl VideoTags {
    /// The pairing of the video `video_id` with the tag `tag_id`.
    pub fn new(video_id: String, tag_id: String) -> (row: VideoTags)
        ensures
            row@ == (VideoTagsView { video_id: video_id@, tag_id: tag_id@ }),
    {
        VideoTags { video_id, tag_id }
    }
}

/// A watch session as a mathematical value.
pub struct WatchHistoryView {
    pub id: Seq<char>,
    pub video_id: Seq<char>,
    pub channel_id: Seq<char>,
    pub watch_duration_seconds: i64,
    pub session_start_date: i64,
    pub session_end_date: i64,
    pub added_at: i64,
}

/// A watch session: how long a video was watched, and when. Its identifier
/// is generated, and the row is never changed once it is stored.
#[derive(Debug, PartialEq, Eq)]
pub struct WatchHistory {
    pub id: String,
    pub video_id: String,
    pub channel_id: String,
    pub watch_duration_seconds: i64,
    pub session_start_date: i64,
    pub session_end_date: i64,
    pub added_at: i64,
}

impl View for WatchHistory {
    type V = WatchHistoryView;

    open spec fn view(&self) -> WatchHistoryView {
        WatchHistoryView {
            id: self.id@,
            video_id: self.video_id@,
            channel_id: self.channel_id@,
            watch_duration_seconds: self.watch_duration_seconds,
            session_start_date: self.session_start_date,
            session_end_date: self.session_end_date,
            added_at: self.added_at,
        }
    }
}

impl Clone for WatchHistory {
    fn clone(&self) -> (copy: Self)
        ensures
            copy == *self,
    {
        WatchHistory {
            id: self.id.clone(),
            video_id: self.video_id.clone(),
            channel_id: self.channel_id.clone(),
            watch_duration_seconds: self.watch_duration_seconds,
            session_start_date: self.session_start_date,
            session_end_date: self.session_end_date,
            added_at: self.added_at,
        }
    }
}

/// The watch session of the given video and channel, as a row under the
/// identifier `id` stamped with `added_at`.
pub open spec fn watch_history_row(
    id: Seq<char>,
    video_id: Seq<char>,
    channel_id: Seq<char>,
    watch_duration_seconds: i64,
    session_start_date: i64,
    session_end_date: i64,
    added_at: i64,
) -> WatchHistoryView {
    WatchHistoryView {
        id,
        video_id,
        channel_id,
        watch_duration_seconds,
        session_start_date,
        session_end_date,
        added_at,
    }
}

impl WatchHistory {
    /// The session under the identifier `id`, stamped with `added_at`.
    pub fn created_at(
        id: String,
        video_id: String,
        channel_id: String,
        watch_duration_seconds: i64,
        session_start_date: i64,
        session_end_date: i64,
        added_at: i64,
    ) -> (row: WatchHistory)
        ensures
            row@ == watch_history_row(
                id@,
                video_id@,
                channel_id@,
                watch_duration_seconds,
                session_start_date,
                session_end_date,
                added_at,
            ),
    {
        WatchHistory {
            id,
            video_id,
            channel_id,
            watch_duration_seconds,
            session_start_date,
            session_end_date,
            added_at,
        }
    }

    /// The session under the identifier `id`, stamped with the time that the
    /// clock was read at: there is a row exactly where the clock gave a
    /// reading.
    pub fn stamped(
        id: String,
        video_id: String,
        channel_id: String,
        watch_duration_seconds: i64,
        session_start_date: i64,
        session_end_date: i64,
        reading: Option<i64>,
    ) -> (row: Option<WatchHistory>)
        ensures
            match reading {
                Some(now) => row matches Some(w) && w@ == watch_history_row(
                    id@,
                    video_id@,
                    channel_id@,
                    watch_duration_seconds,
                    session_start_date,
                    session_end_date,
                    now,
                ),
                None => row is None,
            },
    {
        match reading {
            Some(now) => Some(
                WatchHistory::created_at(
                    id,
                    video_id,
                    channel_id,
                    watch_duration_seconds,
                    session_start_date,
                    session_end_date,
                    now,
                ),
            ),
            None => None,
        }
    }

    /// The session under a new random identifier, stamped with the current
    /// time. `None` where the system clock cannot be read as seconds since the
    /// Unix epoch.
    pub fn new(
        video_id: String,
        channel_id: String,
        watch_duration_seconds: i64,
        session_start_date: i64,
        session_end_date: i64,
    ) -> (row: Option<WatchHistory>)
        ensures
            row matches Some(w) ==> {
                &&& w@ == watch_history_row(
                    w.id@,
                    video_id@,
                    channel_id@,
                    watch_duration_seconds,
                    session_start_date,
                    session_end_date,
                    w.added_at,
                )
                &&& is_generated_id(w.id@)
                &&& w.added_at >= 0
            },
    {
        let reading = unix_now();
        WatchHistory::stamped(
            random_id(),
            video_id,
            channel_id,
            watch_duration_seconds,
            session_start_date,
            session_end_date,
            reading,
        )
    }
}

} // verus!
