use crate::database::models::Channel;
use crate::database::models::ChannelView;
use crate::database::models::Tag;
use crate::database::models::TagView;
use crate::database::models::Video;
use crate::database::models::VideoTags;
use crate::database::models::VideoTagsView;
use crate::database::models::VideoView;
use crate::database::models::WatchHistory;
use crate::database::models::WatchHistoryView;
use crate::errors::ApiError;
use vstd::prelude::*;
use vstd::string::*;

verus! {

/// The five tables as mathematical values, each in storage order: the order
/// in which its rows were first inserted.
pub struct StoreView {
    pub channels: Seq<ChannelView>,
    pub videos: Seq<VideoView>,
    pub tags: Seq<TagView>,
    pub video_tags: Seq<VideoTagsView>,
    pub watch_history: Seq<WatchHistoryView>,
}

/// The ids of the channels `rows`, in their order.
pub open spec fn channel_ids(rows: Seq<ChannelView>) -> Seq<Seq<char>> {
    Seq::new(rows.len(), |i: int| rows[i].id)
}

/// The ids of the videos `rows`, in their order.
pub open spec fn video_ids(rows: Seq<VideoView>) -> Seq<Seq<char>> {
    Seq::new(rows.len(), |i: int| rows[i].id)
}

/// The identifiers of the tags `rows`, in their order.
pub open spec fn tag_ids(rows: Seq<TagView>) -> Seq<Seq<char>> {
    Seq::new(rows.len(), |i: int| rows[i].id)
}

/// The names of the tags `rows`, in their order.
pub open spec fn tag_names(rows: Seq<TagView>) -> Seq<Seq<char>> {
    Seq::new(rows.len(), |i: int| rows[i].name)
}

/// The identifiers of the watch sessions `rows`, in their order.
pub open spec fn history_ids(rows: Seq<WatchHistoryView>) -> Seq<Seq<char>> {
    Seq::new(rows.len(), |i: int| rows[i].id)
}

/// The store with no rows.
pub open spec fn empty_store() -> StoreView {
    StoreView {
        channels: Seq::empty(),
        videos: Seq::empty(),
        tags: Seq::empty(),
        video_tags: Seq::empty(),
        watch_history: Seq::empty(),
    }
}

/// What the relational engine keeps true of the tables: primary keys are
/// unique, a tag name occurs once, and every reference points at a row.
pub open spec fn store_wf(s: StoreView) -> bool {
    &&& channel_ids(s.channels).no_duplicates()
    &&& video_ids(s.videos).no_duplicates()
    &&& tag_ids(s.tags).no_duplicates()
    &&& tag_names(s.tags).no_duplicates()
    &&& s.video_tags.no_duplicates()
    &&& history_ids(s.watch_history).no_duplicates()
    &&& forall|i: int|
        0 <= i < s.videos.len() ==> channel_ids(s.channels).contains(
            (#[trigger] s.videos[i]).channel_id,
        )
    &&& forall|i: int|
        0 <= i < s.video_tags.len() ==> {
            &&& video_ids(s.videos).contains((#[trigger] s.video_tags[i]).video_id)
            &&& tag_ids(s.tags).contains(s.video_tags[i].tag_id)
        }
    &&& forall|i: int|
        0 <= i < s.watch_history.len() ==> {
            &&& video_ids(s.videos).contains((#[trigger] s.watch_history[i]).video_id)
            &&& channel_ids(s.channels).contains(s.watch_history[i].channel_id)
        }
}

/// The channel that stands at `stored` once `incoming` was ingested under the
/// same id: name, subscription flag and subscriber count are refreshed, and
/// the rest stays, `added_at` among it.
pub open spec fn refreshed_channel(stored: ChannelView, incoming: ChannelView) -> ChannelView {
    ChannelView {
        name: incoming.name,
        is_subscribed: incoming.is_subscribed,
        subscribers_count: incoming.subscribers_count,
        ..stored
    }
}

/// The channel table after `row` was inserted, or refreshed the row that has
/// its id.
pub open spec fn upsert_channel(rows: Seq<ChannelView>, row: ChannelView) -> Seq<ChannelView> {
    let ids = channel_ids(rows);
    if ids.contains(row.id) {
        let i = ids.index_of(row.id);
        rows.update(i, refreshed_channel(rows[i], row))
    } else {
        rows.push(row)
    }
}

/// The video that stands at `stored` once `incoming` was ingested under the
/// same id: title and the three counts are refreshed, and the rest stays,
/// `channel_id` and `added_at` among it.
pub open spec fn refreshed_video(stored: VideoView, incoming: VideoView) -> VideoView {
    VideoView {
        title: incoming.title,
        view_count: incoming.view_count,
        likes_count: incoming.likes_count,
        comments_count: incoming.comments_count,
        ..stored
    }
}

/// Whether the store takes `row` as a video: its id is known, or else its
/// channel is.
pub open spec fn video_accepted(s: StoreView, row: VideoView) -> bool {
    video_ids(s.videos).contains(row.id) || channel_ids(s.channels).contains(row.channel_id)
}

/// The video table after `row` was inserted, or refreshed the row that has its
/// id.
pub open spec fn upsert_video(rows: Seq<VideoView>, row: VideoView) -> Seq<VideoView> {
    let ids = video_ids(rows);
    if ids.contains(row.id) {
        let i = ids.index_of(row.id);
        rows.update(i, refreshed_video(rows[i], row))
    } else {
        rows.push(row)
    }
}

/// The tag table after `row` was inserted, or left as it was where a tag has
/// its id or its name.
pub open spec fn insert_tag(rows: Seq<TagView>, row: TagView) -> Seq<TagView> {
    if tag_ids(rows).contains(row.id) || tag_names(rows).contains(row.name) {
        rows
    } else {
        rows.push(row)
    }
}

/// Whether the store takes `row` as a pairing: it is there already, or else
/// its video and its tag exist.
pub open spec fn pairing_accepted(s: StoreView, row: VideoTagsView) -> bool {
    s.video_tags.contains(row) || (video_ids(s.videos).contains(row.video_id) && tag_ids(
        s.tags,
    ).contains(row.tag_id))
}

/// The pairings after `row` was inserted, or left as they were where the
/// pairing is there already.
pub open spec fn insert_video_tag(rows: Seq<VideoTagsView>, row: VideoTagsView) -> Seq<
    VideoTagsView,
> {
    if rows.contains(row) {
        rows
    } else {
        rows.push(row)
    }
}

/// Whether the store takes `row` as a watch session: its id is known, or
/// else its video and its channel exist.
pub open spec fn session_accepted(s: StoreView, row: WatchHistoryView) -> bool {
    history_ids(s.watch_history).contains(row.id) || (video_ids(s.videos).contains(row.video_id)
        && channel_ids(s.channels).contains(row.channel_id))
}

/// The watch sessions after `row` was appended, or left as they were where a
/// session has its id.
pub open spec fn insert_watch_history(rows: Seq<WatchHistoryView>, row: WatchHistoryView) -> Seq<
    WatchHistoryView,
> {
    if history_ids(rows).contains(row.id) {
        rows
    } else {
        rows.push(row)
    }
}

/// The channel rows that `rows` hold, as mathematical values.
pub open spec fn channel_views(rows: Seq<Channel>) -> Seq<ChannelView> {
    Seq::new(rows.len(), |i: int| rows[i]@)
}

/// The video rows that `rows` hold, as mathematical values.
pub open spec fn video_views(rows: Seq<Video>) -> Seq<VideoView> {
    Seq::new(rows.len(), |i: int| rows[i]@)
}

/// The tag rows that `rows` hold, as mathematical values.
pub open spec fn tag_views(rows: Seq<Tag>) -> Seq<TagView> {
    Seq::new(rows.len(), |i: int| rows[i]@)
}

/// The pairings that `rows` hold, as mathematical values.
pub open spec fn video_tag_views(rows: Seq<VideoTags>) -> Seq<VideoTagsView> {
    Seq::new(rows.len(), |i: int| rows[i]@)
}

/// The watch sessions that `rows` hold, as mathematical values.
pub open spec fn watch_history_views(rows: Seq<WatchHistory>) -> Seq<WatchHistoryView> {
    Seq::new(rows.len(), |i: int| rows[i]@)
}

/// In a sequence without duplicates, a key found at `i` is found nowhere else.
pub proof fn lemma_index_of_unique<K>(keys: Seq<K>, key: K, i: int)
    requires
        keys.no_duplicates(),
        0 <= i < keys.len(),
        keys[i] == key,
    ensures
        keys.contains(key),
        keys.index_of(key) == i,
{
    let j = keys.index_of(key);
    assert(0 <= j < keys.len() && keys[j] == key);
}

/// A key that a sequence holds is still held after another is appended.
pub proof fn lemma_push_keeps<K>(keys: Seq<K>, extra: K, key: K)
    requires
        keys.contains(key),
    ensures
        keys.push(extra).contains(key),
{
    let i = keys.index_of(key);
    assert(keys.push(extra)[i] == key);
}

/// Appending a key that a duplicate-free sequence lacks keeps it free of
/// duplicates.
pub proof fn lemma_push_no_duplicates<K>(keys: Seq<K>, extra: K)
    requires
        keys.no_duplicates(),
        !keys.contains(extra),
    ensures
        keys.push(extra).no_duplicates(),
{
    let pushed = keys.push(extra);
    assert forall|i: int, j: int| 0 <= i < pushed.len() && 0 <= j < pushed.len() && i != j implies pushed[i]
        != pushed[j] by {
        if i < keys.len() {
            assert(keys[i] == pushed[i]);
        }
        if j < keys.len() {
            assert(keys[j] == pushed[j]);
        }
    }
}

/// The entity store: the five tables, held in memory in storage order.
pub struct Store {
    channels: Vec<Channel>,
    videos: Vec<Video>,
    tags: Vec<Tag>,
    video_tags: Vec<VideoTags>,
    watch_history: Vec<WatchHistory>,
}

impl View for Store {
    type V = StoreView;

    closed spec fn view(&self) -> StoreView {
        StoreView {
            channels: channel_views(self.channels@),
            videos: video_views(self.videos@),
            tags: tag_views(self.tags@),
            video_tags: video_tag_views(self.video_tags@),
            watch_history: watch_history_views(self.watch_history@),
        }
    }
}

impl Store {
    /// Whether the tables satisfy the engine's constraints.
    pub open spec fn wf(&self) -> bool {
        store_wf(self@)
    }

    /// A store with no rows.
    pub fn new() -> (store: Store)
        ensures
            store@ == empty_store(),
            store.wf(),
    {
        let store = Store {
            channels: Vec::new(),
            videos: Vec::new(),
            tags: Vec::new(),
            video_tags: Vec::new(),
            watch_history: Vec::new(),
        };
        assert(store@.channels =~= Seq::empty());
        assert(store@.videos =~= Seq::empty());
        assert(store@.tags =~= Seq::empty());
        assert(store@.video_tags =~= Seq::empty());
        assert(store@.watch_history =~= Seq::empty());
        store
    }

    /// The channel table, in storage order.
    pub fn channels(&self) -> (rows: &Vec<Channel>)
        ensures
            channel_views(rows@) == self@.channels,
    {
        &self.channels
    }

    /// The video table, in storage order.
    pub fn videos(&self) -> (rows: &Vec<Video>)
        ensures
            video_views(rows@) == self@.videos,
    {
        &self.videos
    }

    /// The tag table, in storage order.
    pub fn tags(&self) -> (rows: &Vec<Tag>)
        ensures
            tag_views(rows@) == self@.tags,
    {
        &self.tags
    }

    /// The pairings of videos with tags, in storage order.
    pub fn video_tags(&self) -> (rows: &Vec<VideoTags>)
        ensures
            video_tag_views(rows@) == self@.video_tags,
    {
        &self.video_tags
    }

    /// The watch sessions, in storage order.
    pub fn watch_history(&self) -> (rows: &Vec<WatchHistory>)
        ensures
            watch_history_views(rows@) == self@.watch_history,
    {
        &self.watch_history
    }

    /// Where the channel `id` stands in its table.
    pub fn find_channel(&self, id: &String) -> (found: Option<usize>)
        ensures
            match found {
                Some(i) => i < self@.channels.len() && self@.channels[i as int].id == id@,
                None => !channel_ids(self@.channels).contains(id@),
            },
            found is Some <==> channel_ids(self@.channels).contains(id@),
    {
        let mut i: usize = 0;
        while i < self.channels.len()
            invariant
                i <= self.channels.len(),
                forall|j: int| 0 <= j < i ==> self@.channels[j].id != id@,
            decreases self.channels.len() - i,
        {
            if self.channels[i].id == *id {
                assert(channel_ids(self@.channels)[i as int] == id@);
                return Some(i);
            }
            i += 1;
        }
        None
    }

    /// Where the video `id` stands in its table.
    pub fn find_video(&self, id: &String) -> (found: Option<usize>)
        ensures
            match found {
                Some(i) => i < self@.videos.len() && self@.videos[i as int].id == id@,
                None => !video_ids(self@.videos).contains(id@),
            },
            found is Some <==> video_ids(self@.videos).contains(id@),
    {
        let mut i: usize = 0;
        while i < self.videos.len()
            invariant
                i <= self.videos.len(),
                forall|j: int| 0 <= j < i ==> self@.videos[j].id != id@,
            decreases self.videos.len() - i,
        {
            if self.videos[i].id == *id {
                assert(video_ids(self@.videos)[i as int] == id@);
                return Some(i);
            }
            i += 1;
        }
        None
    }

    /// Where the tag with the identifier `id` stands in its table.
    pub fn find_tag(&self, id: &String) -> (found: Option<usize>)
        ensures
            match found {
                Some(i) => i < self@.tags.len() && self@.tags[i as int].id == id@,
                None => !tag_ids(self@.tags).contains(id@),
            },
            found is Some <==> tag_ids(self@.tags).contains(id@),
    {
        let mut i: usize = 0;
        while i < self.tags.len()
            invariant
                i <= self.tags.len(),
                forall|j: int| 0 <= j < i ==> self@.tags[j].id != id@,
            decreases self.tags.len() - i,
        {
            if self.tags[i].id == *id {
                assert(tag_ids(self@.tags)[i as int] == id@);
                return Some(i);
            }
            i += 1;
        }
        None
    }

    /// Where the tag named `name` stands in its table.
    pub fn find_tag_by_name(&self, name: &String) -> (found: Option<usize>)
        ensures
            match found {
                Some(i) => i < self@.tags.len() && self@.tags[i as int].name == name@,
                None => !tag_names(self@.tags).contains(name@),
            },
            found is Some <==> tag_names(self@.tags).contains(name@),
    {
        let mut i: usize = 0;
        while i < self.tags.len()
            invariant
                i <= self.tags.len(),
                forall|j: int| 0 <= j < i ==> self@.tags[j].name != name@,
            decreases self.tags.len() - i,
        {
            if self.tags[i].name == *name {
                assert(tag_names(self@.tags)[i as int] == name@);
                return Some(i);
            }
            i += 1;
        }
        None
    }

    /// Whether the video `video_id` is paired with the tag `tag_id`.
    pub fn has_video_tag(&self, video_id: &String, tag_id: &String) -> (found: bool)
        ensures
            found == self@.video_tags.contains(
                (VideoTagsView { video_id: video_id@, tag_id: tag_id@ }),
            ),
    {
        let ghost wanted = VideoTagsView { video_id: video_id@, tag_id: tag_id@ };
        let mut i: usize = 0;
        while i < self.video_tags.len()
            invariant
                i <= self.video_tags.len(),
                wanted == (VideoTagsView { video_id: video_id@, tag_id: tag_id@ }),
                forall|j: int| 0 <= j < i ==> self@.video_tags[j] != wanted,
            decreases self.video_tags.len() - i,
        {
            if self.video_tags[i].video_id == *video_id && self.video_tags[i].tag_id == *tag_id {
                assert(self@.video_tags[i as int] == wanted);
                return true;
            }
            i += 1;
        }
        false
    }

    /// Where the watch session `id` stands in its table.
    pub fn find_watch_history(&self, id: &String) -> (found: Option<usize>)
        ensures
            match found {
                Some(i) => i < self@.watch_history.len() && self@.watch_history[i as int].id
                    == id@,
                None => !history_ids(self@.watch_history).contains(id@),
            },
            found is Some <==> history_ids(self@.watch_history).contains(id@),
    {
        let mut i: usize = 0;
        while i < self.watch_history.len()
            invariant
                i <= self.watch_history.len(),
                forall|j: int| 0 <= j < i ==> self@.watch_history[j].id != id@,
            decreases self.watch_history.len() - i,
        {
            if self.watch_history[i].id == *id {
                assert(history_ids(self@.watch_history)[i as int] == id@);
                return Some(i);
            }
            i += 1;
        }
        None
    }

    /// Inserts `row`, or refreshes the channel that has its id.
    pub fn upsert_channel(&mut self, row: Channel)
        requires
            old(self).wf(),
        ensures
            final(self).wf(),
            final(self)@ == (StoreView {
                channels: upsert_channel(old(self)@.channels, row@),
                ..old(self)@
            }),
    {
        match self.find_channel(&row.id) {
            Some(i) => {
                proof {
                    lemma_index_of_unique(channel_ids(self@.channels), row@.id, i as int);
                }
                let stored = &self.channels[i];
                let updated = Channel {
                    id: stored.id.clone(),
                    name: row.name,
                    url: stored.url.clone(),
                    is_subscribed: row.is_subscribed,
                    subscribers_count: row.subscribers_count,
                    added_at: stored.added_at,
                };
                self.channels.set(i, updated);
                proof {
                    assert(self@.channels =~= upsert_channel(old(self)@.channels, row@));
                    assert(channel_ids(self@.channels) =~= channel_ids(old(self)@.channels));
                }
            },
            None => {
                self.channels.push(row);
                proof {
                    let before = channel_ids(old(self)@.channels);
                    assert(self@.channels =~= old(self)@.channels.push(row@));
                    assert(channel_ids(self@.channels) =~= before.push(row@.id));
                    lemma_push_no_duplicates(before, row@.id);
                    assert forall|key: Seq<char>| before.contains(key) implies channel_ids(
                        self@.channels,
                    ).contains(key) by {
                        lemma_push_keeps(before, row@.id, key);
                    }
                }
            },
        }
    }

    /// Inserts `row`, or refreshes the video that has its id. A new video
    /// whose channel is missing is refused, and the store stays as it was.
    pub fn upsert_video(&mut self, row: Video) -> (outcome: Result<(), ApiError>)
        requires
            old(self).wf(),
        ensures
            final(self).wf(),
            video_accepted(old(self)@, row@) ==> outcome is Ok && final(self)@ == (StoreView {
                videos: upsert_video(old(self)@.videos, row@),
                ..old(self)@
            }),
            !video_accepted(old(self)@, row@) ==> outcome == Err::<(), ApiError>(ApiError::Storage)
                && final(self)@ == old(self)@,
    {
        match self.find_video(&row.id) {
            Some(i) => {
                proof {
                    lemma_index_of_unique(video_ids(self@.videos), row@.id, i as int);
                }
                let stored = &self.videos[i];
                let updated = Video {
                    id: stored.id.clone(),
                    channel_id: stored.channel_id.clone(),
                    url: stored.url.clone(),
                    title: row.title,
                    description: stored.description.clone(),
                    watch_counter: stored.watch_counter,
                    duration_seconds: stored.duration_seconds,
                    likes_count: row.likes_count,
                    view_count: row.view_count,
                    comments_count: row.comments_count,
                    published_at: stored.published_at,
                    added_at: stored.added_at,
                };
                self.videos.set(i, updated);
                proof {
                    assert(self@.videos =~= upsert_video(old(self)@.videos, row@));
                    assert(video_ids(self@.videos) =~= video_ids(old(self)@.videos));
                }
                Ok(())
            },
            None => {
                if self.find_channel(&row.channel_id).is_none() {
                    return Err(ApiError::Storage);
                }
                self.videos.push(row);
                proof {
                    let before = video_ids(old(self)@.videos);
                    assert(self@.videos =~= old(self)@.videos.push(row@));
                    assert(video_ids(self@.videos) =~= before.push(row@.id));
                    lemma_push_no_duplicates(before, row@.id);
                    assert forall|key: Seq<char>| before.contains(key) implies video_ids(
                        self@.videos,
                    ).contains(key) by {
                        lemma_push_keeps(before, row@.id, key);
                    }
                }
                Ok(())
            },
        }
    }

    /// Inserts `row`, unless a tag has its id or its name.
    pub fn insert_tag(&mut self, row: Tag)
        requires
            old(self).wf(),
        ensures
            final(self).wf(),
            final(self)@ == (StoreView { tags: insert_tag(old(self)@.tags, row@), ..old(self)@ }),
    {
        if self.find_tag(&row.id).is_some() || self.find_tag_by_name(&row.name).is_some() {
            return ;
        }
        self.tags.push(row);
        proof {
            let ids = tag_ids(old(self)@.tags);
            let names = tag_names(old(self)@.tags);
            assert(self@.tags =~= old(self)@.tags.push(row@));
            assert(tag_ids(self@.tags) =~= ids.push(row@.id));
            assert(tag_names(self@.tags) =~= names.push(row@.name));
            lemma_push_no_duplicates(ids, row@.id);
            lemma_push_no_duplicates(names, row@.name);
            assert forall|key: Seq<char>| ids.contains(key) implies tag_ids(self@.tags).contains(
                key,
            ) by {
                lemma_push_keeps(ids, row@.id, key);
            }
        }
    }

    /// Inserts the pairing `row`, unless it is there already. A new pairing
    /// whose video or tag is missing is refused, and the store stays as it
    /// was.
    pub fn insert_video_tag(&mut self, row: VideoTags) -> (outcome: Result<(), ApiError>)
        requires
            old(self).wf(),
        ensures
            final(self).wf(),
            pairing_accepted(old(self)@, row@) ==> outcome is Ok && final(self)@ == (StoreView {
                video_tags: insert_video_tag(old(self)@.video_tags, row@),
                ..old(self)@
            }),
            !pairing_accepted(old(self)@, row@) ==> outcome == Err::<(), ApiError>(
                ApiError::Storage,
            ) && final(self)@ == old(self)@,
    {
        if self.has_video_tag(&row.video_id, &row.tag_id) {
            return Ok(());
        }
        if self.find_video(&row.video_id).is_none() || self.find_tag(&row.tag_id).is_none() {
            return Err(ApiError::Storage);
        }
        self.video_tags.push(row);
        proof {
            assert(self@.video_tags =~= old(self)@.video_tags.push(row@));
            lemma_push_no_duplicates(old(self)@.video_tags, row@);
        }
        Ok(())
    }

    /// Appends the watch session `row`, unless a session has its id. A new
    /// session whose video or channel is missing is refused, and the store
    /// stays as it was.
    pub fn insert_watch_history(&mut self, row: WatchHistory) -> (outcome: Result<(), ApiError>)
        requires
            old(self).wf(),
        ensures
            final(self).wf(),
            session_accepted(old(self)@, row@) ==> outcome is Ok && final(self)@ == (StoreView {
                watch_history: insert_watch_history(old(self)@.watch_history, row@),
                ..old(self)@
            }),
            !session_accepted(old(self)@, row@) ==> outcome == Err::<(), ApiError>(
                ApiError::Storage,
            ) && final(self)@ == old(self)@,
    {
        if self.find_watch_history(&row.id).is_some() {
            return Ok(());
        }
        if self.find_video(&row.video_id).is_none() || self.find_channel(&row.channel_id).is_none()
        {
            return Err(ApiError::Storage);
        }
        self.watch_history.push(row);
        proof {
            let before = history_ids(old(self)@.watch_history);
            assert(self@.watch_history =~= old(self)@.watch_history.push(row@));
            assert(history_ids(self@.watch_history) =~= before.push(row@.id));
            lemma_push_no_duplicates(before, row@.id);
        }
        Ok(())
    }
}

} // verus!
