use crate::database::models::TagView;
use crate::database::models::VideoTagsView;
use crate::database::store::StoreView;
use crate::database::store::channel_ids;
use crate::database::store::history_ids;
use crate::database::store::insert_watch_history;
use crate::database::store::lemma_index_of_unique;
use crate::database::store::lemma_push_keeps;
use crate::database::store::lemma_push_no_duplicates;
use crate::database::store::store_wf;
use crate::database::store::tag_ids;
use crate::database::store::tag_names;
use crate::database::store::upsert_channel;
use crate::database::store::upsert_video;
use crate::database::store::video_ids;
use crate::routes::watch_history::CreateWatchHistoryRequest;
use crate::routes::watch_history::Generated;
use crate::routes::watch_history::incoming_channel;
use crate::routes::watch_history::incoming_session;
use crate::routes::watch_history::incoming_video;
use crate::routes::watch_history::ingested;
use crate::routes::watch_history::link_tag;
use crate::routes::watch_history::link_tags;
use crate::routes::watch_history::tag_id_for;
use crate::text::texts;
use vstd::prelude::*;

verus! {

/// Tagging a video touches tags and pairings only.
pub proof fn lemma_link_tags_frame(
    s: StoreView,
    video_id: Seq<char>,
    names: Seq<Seq<char>>,
    fresh: Seq<Seq<char>>,
    now: i64,
)
    ensures
        link_tags(s, video_id, names, fresh, now).channels == s.channels,
        link_tags(s, video_id, names, fresh, now).videos == s.videos,
        link_tags(s, video_id, names, fresh, now).watch_history == s.watch_history,
    decreases names.len(),
{
    if names.len() > 0 {
        lemma_link_tags_frame(s, video_id, names.drop_last(), fresh.drop_last(), now);
    }
}

/// What the ingestion of a record does to the channels, the videos and the
/// sessions: one insert or refresh of a channel, one of a video, and one
/// insert of a session.
pub proof fn lemma_ingested_tables(s: StoreView, record: CreateWatchHistoryRequest, g: Generated)
    ensures
        ingested(s, record, g).channels == upsert_channel(
            s.channels,
            incoming_channel(record, g.now),
        ),
        ingested(s, record, g).videos == upsert_video(s.videos, incoming_video(record, g.now)),
        ingested(s, record, g).watch_history == insert_watch_history(
            s.watch_history,
            incoming_session(record, g.history_id@, g.now),
        ),
{
    let with_channel = StoreView {
        channels: upsert_channel(s.channels, incoming_channel(record, g.now)),
        ..s
    };
    let with_video = StoreView {
        videos: upsert_video(with_channel.videos, incoming_video(record, g.now)),
        ..with_channel
    };
    lemma_link_tags_frame(
        with_video,
        record.video.id@,
        texts(record.video.tags@),
        texts(g.tag_ids@),
        g.now,
    );
}

/// Ingesting a record whose channel is already stored refreshes that
/// channel where it stands: its name, its subscription flag and its
/// subscriber count are those of the record, its `added_at` and its address
/// are as before, and every other channel is untouched.
pub proof fn law_channel_refreshed(s: StoreView, record: CreateWatchHistoryRequest, g: Generated)
    requires
        channel_ids(s.channels).contains(record.channel.id@),
    ensures
        ({
            let i = channel_ids(s.channels).index_of(record.channel.id@);
            let after = ingested(s, record, g).channels;
            &&& after.len() == s.channels.len()
            &&& after[i].id == record.channel.id@
            &&& after[i].name == record.channel.name@
            &&& after[i].is_subscribed == record.channel.is_subscribed
            &&& after[i].subscribers_count == record.channel.subscribers_count
            &&& after[i].added_at == s.channels[i].added_at
            &&& after[i].url == s.channels[i].url
            &&& forall|j: int| 0 <= j < after.len() && j != i ==> after[j] == s.channels[j]
        }),
{
    lemma_ingested_tables(s, record, g);
    let i = channel_ids(s.channels).index_of(record.channel.id@);
    assert(channel_ids(s.channels)[i] == record.channel.id@);
}

/// Ingesting a record whose channel is not yet stored appends the channel,
/// stamped with the time of the ingestion.
pub proof fn law_channel_created(s: StoreView, record: CreateWatchHistoryRequest, g: Generated)
    requires
        !channel_ids(s.channels).contains(record.channel.id@),
    ensures
        ingested(s, record, g).channels == s.channels.push(incoming_channel(record, g.now)),
{
    lemma_ingested_tables(s, record, g);
}

/// Ingesting a record whose video is already stored refreshes that video
/// where it stands: its title and its three counts are those of the record,
/// its channel, its `added_at` and the rest are as before, and every other
/// video is untouched.
pub proof fn law_video_refreshed(s: StoreView, record: CreateWatchHistoryRequest, g: Generated)
    requires
        video_ids(s.videos).contains(record.video.id@),
    ensures
        ({
            let i = video_ids(s.videos).index_of(record.video.id@);
            let after = ingested(s, record, g).videos;
            &&& after.len() == s.videos.len()
            &&& after[i].id == record.video.id@
            &&& after[i].title == record.video.title@
            &&& after[i].view_count == record.video.view_count
            &&& after[i].likes_count == record.video.likes_count
            &&& after[i].comments_count == record.video.comments_count
            &&& after[i].channel_id == s.videos[i].channel_id
            &&& after[i].added_at == s.videos[i].added_at
            &&& after[i].url == s.videos[i].url
            &&& after[i].description == s.videos[i].description
            &&& after[i].watch_counter == s.videos[i].watch_counter
            &&& after[i].duration_seconds == s.videos[i].duration_seconds
            &&& after[i].published_at == s.videos[i].published_at
            &&& forall|j: int| 0 <= j < after.len() && j != i ==> after[j] == s.videos[j]
        }),
{
    lemma_ingested_tables(s, record, g);
    let i = video_ids(s.videos).index_of(record.video.id@);
    assert(video_ids(s.videos)[i] == record.video.id@);
}

/// Ingesting a record whose video is not yet stored appends the video: it
/// belongs to the record's channel and its watch counter is zero.
pub proof fn law_video_created(s: StoreView, record: CreateWatchHistoryRequest, g: Generated)
    requires
        !video_ids(s.videos).contains(record.video.id@),
    ensures
        ingested(s, record, g).videos == s.videos.push(incoming_video(record, g.now)),
        incoming_video(record, g.now).channel_id == record.channel.id@,
        incoming_video(record, g.now).watch_counter == 0,
{
    lemma_ingested_tables(s, record, g);
}

/// Every ingestion appends exactly one watch session, the record's own,
/// and leaves the sessions before it as they were, provided that the
/// identifier drawn for it is not taken.
pub proof fn law_session_appended(s: StoreView, record: CreateWatchHistoryRequest, g: Generated)
    requires
        !history_ids(s.watch_history).contains(g.history_id@),
    ensures
        ingested(s, record, g).watch_history == s.watch_history.push(
            incoming_session(record, g.history_id@, g.now),
        ),
        ingested(s, record, g).watch_history.len() == s.watch_history.len() + 1,
{
    lemma_ingested_tables(s, record, g);
}

/// An ingestion never changes or removes a session that is stored: where
/// the identifier drawn is taken, the sessions stay as they were.
pub proof fn law_session_skipped(s: StoreView, record: CreateWatchHistoryRequest, g: Generated)
    requires
        history_ids(s.watch_history).contains(g.history_id@),
    ensures
        ingested(s, record, g).watch_history == s.watch_history,
{
    lemma_ingested_tables(s, record, g);
}

/// The store after the records `records` were ingested in turn, the k-th
/// with the outside values `draws[k]`.
pub open spec fn ingested_all(
    s: StoreView,
    records: Seq<CreateWatchHistoryRequest>,
    draws: Seq<Generated>,
) -> StoreView
    recommends
        records.len() == draws.len(),
    decreases records.len(),
{
    if records.len() == 0 {
        s
    } else {
        ingested(
            ingested_all(s, records.drop_last(), draws.drop_last()),
            records.last(),
            draws.last(),
        )
    }
}

/// The identifiers that `draws` hold for the sessions.
pub open spec fn session_ids(draws: Seq<Generated>) -> Seq<Seq<char>> {
    Seq::new(draws.len(), |k: int| draws[k].history_id@)
}

/// The identifiers of the sessions after a run of ingestions are those from
/// before, followed by the ones drawn, provided that the ones drawn differ
/// from each other and from those in the store.
pub proof fn lemma_ingested_all_ids(
    s: StoreView,
    records: Seq<CreateWatchHistoryRequest>,
    draws: Seq<Generated>,
)
    requires
        records.len() == draws.len(),
        (history_ids(s.watch_history) + session_ids(draws)).no_duplicates(),
    ensures
        history_ids(ingested_all(s, records, draws).watch_history) == history_ids(s.watch_history)
            + session_ids(draws),
    decreases records.len(),
{
    let before = history_ids(s.watch_history);
    let all = before + session_ids(draws);
    if records.len() == 0 {
        assert(all =~= before);
    } else {
        let shorter = draws.drop_last();
        let earlier = before + session_ids(shorter);
        assert(earlier =~= all.drop_last());
        assert forall|i: int, j: int|
            0 <= i < earlier.len() && 0 <= j < earlier.len() && i != j implies earlier[i]
            != earlier[j] by {
            assert(earlier[i] == all[i] && earlier[j] == all[j]);
        }
        lemma_ingested_all_ids(s, records.drop_last(), shorter);
        let mid = ingested_all(s, records.drop_last(), shorter);
        let last = draws.last();
        let mid_ids = history_ids(mid.watch_history);
        assert(mid_ids == earlier);
        assert(all[all.len() - 1] == last.history_id@);
        if mid_ids.contains(last.history_id@) {
            let k = mid_ids.index_of(last.history_id@);
            assert(0 <= k < earlier.len());
            assert(all[k] == earlier[k]);
            assert(false);
        }
        law_session_appended(mid, records.last(), last);
        let row = incoming_session(records.last(), last.history_id@, last.now);
        assert(history_ids(mid.watch_history.push(row)) =~= mid_ids.push(last.history_id@));
        assert(mid_ids.push(last.history_id@) =~= all);
    }
}

/// N ingestions, of whatever records, append N sessions, provided that the
/// identifiers drawn for them differ from each other and from those in the
/// store.
pub proof fn law_sessions_counted(
    s: StoreView,
    records: Seq<CreateWatchHistoryRequest>,
    draws: Seq<Generated>,
)
    requires
        records.len() == draws.len(),
        (history_ids(s.watch_history) + session_ids(draws)).no_duplicates(),
    ensures
        ingested_all(s, records, draws).watch_history.len() == s.watch_history.len()
            + records.len(),
{
    lemma_ingested_all_ids(s, records, draws);
    assert(history_ids(ingested_all(s, records, draws).watch_history).len() == (history_ids(
        s.watch_history,
    ) + session_ids(draws)).len());
}

/// Whether what the engine keeps true of tags and pairings holds of `s`: no
/// tag id, no tag name and no pairing occurs twice.
pub open spec fn tags_wf(s: StoreView) -> bool {
    &&& tag_ids(s.tags).no_duplicates()
    &&& tag_names(s.tags).no_duplicates()
    &&& s.video_tags.no_duplicates()
}

/// Whether the video `video_id` is paired with the tag named `name`.
pub open spec fn tagged(s: StoreView, video_id: Seq<char>, name: Seq<char>) -> bool {
    let names = tag_names(s.tags);
    names.contains(name) && s.video_tags.contains(
        VideoTagsView { video_id, tag_id: s.tags[names.index_of(name)].id },
    )
}

/// Whether `after` holds every tag and every pairing of `before`, each
/// where it stood.
pub open spec fn grown_from(after: StoreView, before: StoreView) -> bool {
    &&& before.tags.len() <= after.tags.len()
    &&& forall|i: int| 0 <= i < before.tags.len() ==> after.tags[i] == #[trigger] before.tags[i]
    &&& before.video_tags.len() <= after.video_tags.len()
    &&& forall|i: int|
        0 <= i < before.video_tags.len() ==> after.video_tags[i] == #[trigger] before.video_tags[i]
}

/// Whether the identifiers `fresh` are new to `tags` and differ from each
/// other.
pub open spec fn fresh_for(tags: Seq<TagView>, fresh: Seq<Seq<char>>) -> bool {
    &&& fresh.no_duplicates()
    &&& forall|k: int| 0 <= k < fresh.len() ==> !tag_ids(tags).contains(#[trigger] fresh[k])
}

/// A video that is tagged stays tagged while tags and pairings are only
/// added.
pub proof fn lemma_tagged_kept(
    before: StoreView,
    after: StoreView,
    video_id: Seq<char>,
    name: Seq<char>,
)
    requires
        tagged(before, video_id, name),
        grown_from(after, before),
        tag_names(after.tags).no_duplicates(),
    ensures
        tagged(after, video_id, name),
{
    let i = tag_names(before.tags).index_of(name);
    assert(tag_names(before.tags)[i] == name);
    assert(after.tags[i] == before.tags[i]);
    assert(tag_names(after.tags)[i] == name);
    lemma_index_of_unique(tag_names(after.tags), name, i);
    let pairing = VideoTagsView { video_id, tag_id: before.tags[i].id };
    let j = before.video_tags.index_of(pairing);
    assert(after.video_tags[j] == before.video_tags[j]);
}

/// Tagging a video that is tagged so already changes nothing.
pub proof fn lemma_link_tag_again(
    s: StoreView,
    video_id: Seq<char>,
    name: Seq<char>,
    fresh: Seq<char>,
    now: i64,
)
    requires
        tagged(s, video_id, name),
    ensures
        link_tag(s, video_id, name, fresh, now) == s,
{
}

/// What tagging a video with one name does: tags and pairings are only
/// added, no tag id, tag name or pairing comes to occur twice, the only tag
/// id that may be new is the one at hand, and the video ends up tagged
/// unless the name is new while the identifier at hand is taken.
pub proof fn lemma_link_tag(
    s: StoreView,
    video_id: Seq<char>,
    name: Seq<char>,
    fresh: Seq<char>,
    now: i64,
)
    requires
        tags_wf(s),
    ensures
        tags_wf(link_tag(s, video_id, name, fresh, now)),
        grown_from(link_tag(s, video_id, name, fresh, now), s),
        forall|id: Seq<char>| #[trigger]
            tag_ids(link_tag(s, video_id, name, fresh, now).tags).contains(id) ==> tag_ids(
                s.tags,
            ).contains(id) || id == fresh,
        tag_names(s.tags).contains(name) || !tag_ids(s.tags).contains(fresh) ==> tagged(
            link_tag(s, video_id, name, fresh, now),
            video_id,
            name,
        ),
{
    let t = link_tag(s, video_id, name, fresh, now);
    let names = tag_names(s.tags);
    let ids = tag_ids(s.tags);
    let row = TagView { id: fresh, name, added_at: now };
    let pairing = VideoTagsView { video_id, tag_id: tag_id_for(s.tags, name, fresh) };
    // The tags.
    if !names.contains(name) && !ids.contains(fresh) {
        assert(t.tags == s.tags.push(row));
        assert(tag_ids(t.tags) =~= ids.push(fresh));
        assert(tag_names(t.tags) =~= names.push(name));
        lemma_push_no_duplicates(ids, fresh);
        lemma_push_no_duplicates(names, name);
        assert forall|id: Seq<char>| #[trigger] tag_ids(t.tags).contains(id) implies ids.contains(
            id,
        ) || id == fresh by {
            let k = tag_ids(t.tags).index_of(id);
            if k < ids.len() {
                assert(ids[k] == id);
            }
        }
    } else {
        assert(t.tags == s.tags);
    }
    // The pairings.
    if s.video_tags.contains(pairing) {
        assert(t.video_tags == s.video_tags);
    } else {
        assert(t.video_tags == s.video_tags.push(pairing));
        lemma_push_no_duplicates(s.video_tags, pairing);
    }
    assert(t.video_tags.contains(pairing)) by {
        if s.video_tags.contains(pairing) {
        } else {
            assert(t.video_tags[s.video_tags.len() as int] == pairing);
        }
    }
    // The video is tagged.
    if names.contains(name) {
        let i = names.index_of(name);
        assert(names[i] == name);
        assert(tag_names(t.tags)[i] == name);
        lemma_index_of_unique(tag_names(t.tags), name, i);
    } else if !ids.contains(fresh) {
        let i = s.tags.len() as int;
        assert(tag_names(t.tags)[i] == name);
        lemma_index_of_unique(tag_names(t.tags), name, i);
    }
}

/// What tagging a video with a run of names does, with identifiers at hand
/// that are new and differ from each other: tags and pairings are only
/// added, no tag id, tag name or pairing comes to occur twice, the only tag
/// ids that may be new are those at hand, and the video ends up tagged with
/// every one of the names.
pub proof fn lemma_link_tags(
    s: StoreView,
    video_id: Seq<char>,
    names: Seq<Seq<char>>,
    fresh: Seq<Seq<char>>,
    now: i64,
)
    requires
        tags_wf(s),
        names.len() == fresh.len(),
        fresh_for(s.tags, fresh),
    ensures
        tags_wf(link_tags(s, video_id, names, fresh, now)),
        grown_from(link_tags(s, video_id, names, fresh, now), s),
        forall|id: Seq<char>| #[trigger]
            tag_ids(link_tags(s, video_id, names, fresh, now).tags).contains(id) ==> tag_ids(
                s.tags,
            ).contains(id) || fresh.contains(id),
        forall|k: int|
            0 <= k < names.len() ==> tagged(
                link_tags(s, video_id, names, fresh, now),
                video_id,
                #[trigger] names[k],
            ),
    decreases names.len(),
{
    if names.len() > 0 {
        let shorter = names.drop_last();
        let earlier = fresh.drop_last();
        assert forall|i: int, j: int|
            0 <= i < earlier.len() && 0 <= j < earlier.len() && i != j implies earlier[i]
            != earlier[j] by {
            assert(earlier[i] == fresh[i] && earlier[j] == fresh[j]);
        }
        assert forall|k: int| 0 <= k < earlier.len() implies !tag_ids(s.tags).contains(
            #[trigger] earlier[k],
        ) by {
            assert(earlier[k] == fresh[k]);
        }
        lemma_link_tags(s, video_id, shorter, earlier, now);
        let mid = link_tags(s, video_id, shorter, earlier, now);
        let t = link_tags(s, video_id, names, fresh, now);
        let last = fresh.last();
        assert(t == link_tag(mid, video_id, names.last(), last, now));
        // The identifier at hand is new to the tags so far.
        if tag_ids(mid.tags).contains(last) {
            assert(fresh[fresh.len() - 1] == last);
            assert(!tag_ids(s.tags).contains(last));
            assert(earlier.contains(last));
            let j = earlier.index_of(last);
            assert(fresh[j] == earlier[j]);
            assert(false);
        }
        lemma_link_tag(mid, video_id, names.last(), last, now);
        assert forall|id: Seq<char>| #[trigger] tag_ids(t.tags).contains(id) implies tag_ids(
            s.tags,
        ).contains(id) || fresh.contains(id) by {
            if id == last {
                assert(fresh[fresh.len() - 1] == last);
            } else {
                assert(tag_ids(mid.tags).contains(id));
                if earlier.contains(id) {
                    let j = earlier.index_of(id);
                    assert(fresh[j] == id);
                }
            }
        }
        assert forall|k: int| 0 <= k < names.len() implies tagged(
            t,
            video_id,
            #[trigger] names[k],
        ) by {
            if k < shorter.len() {
                assert(shorter[k] == names[k]);
                lemma_tagged_kept(mid, t, video_id, names[k]);
            }
        }
    }
}

/// Tagging a video with names that it is tagged with already changes
/// nothing.
pub proof fn lemma_link_tags_again(
    s: StoreView,
    video_id: Seq<char>,
    names: Seq<Seq<char>>,
    fresh: Seq<Seq<char>>,
    now: i64,
)
    requires
        forall|k: int| 0 <= k < names.len() ==> tagged(s, video_id, #[trigger] names[k]),
    ensures
        link_tags(s, video_id, names, fresh, now) == s,
    decreases names.len(),
{
    if names.len() > 0 {
        let shorter = names.drop_last();
        assert forall|k: int| 0 <= k < shorter.len() implies tagged(
            s,
            video_id,
            #[trigger] shorter[k],
        ) by {
            assert(shorter[k] == names[k]);
        }
        lemma_link_tags_again(s, video_id, shorter, fresh.drop_last(), now);
        assert(names.last() == names[names.len() - 1]);
        lemma_link_tag_again(s, video_id, names.last(), fresh.last(), now);
    }
}

/// The tags and the pairings after an ingestion are those that tagging the
/// record's video leaves.
pub proof fn lemma_ingested_tags(s: StoreView, record: CreateWatchHistoryRequest, g: Generated)
    ensures
        ({
            let linked = link_tags(
                s,
                record.video.id@,
                texts(record.video.tags@),
                texts(g.tag_ids@),
                g.now,
            );
            &&& ingested(s, record, g).tags == linked.tags
            &&& ingested(s, record, g).video_tags == linked.video_tags
        }),
{
    let with_channel = StoreView {
        channels: upsert_channel(s.channels, incoming_channel(record, g.now)),
        ..s
    };
    let with_video = StoreView {
        videos: upsert_video(with_channel.videos, incoming_video(record, g.now)),
        ..with_channel
    };
    lemma_link_tags_tables(
        s,
        with_video,
        record.video.id@,
        texts(record.video.tags@),
        texts(g.tag_ids@),
        g.now,
    );
}

/// Tagging looks at tags and pairings only: from two stores that agree on
/// them it leaves the same tags and pairings.
pub proof fn lemma_link_tags_tables(
    a: StoreView,
    b: StoreView,
    video_id: Seq<char>,
    names: Seq<Seq<char>>,
    fresh: Seq<Seq<char>>,
    now: i64,
)
    requires
        a.tags == b.tags,
        a.video_tags == b.video_tags,
    ensures
        link_tags(a, video_id, names, fresh, now).tags == link_tags(
            b,
            video_id,
            names,
            fresh,
            now,
        ).tags,
        link_tags(a, video_id, names, fresh, now).video_tags == link_tags(
            b,
            video_id,
            names,
            fresh,
            now,
        ).video_tags,
    decreases names.len(),
{
    if names.len() > 0 {
        lemma_link_tags_tables(a, b, video_id, names.drop_last(), fresh.drop_last(), now);
    }
}

/// After a record was ingested, its video is tagged with every tag name of
/// the record and no pairing occurs twice; and ingesting the record again
/// adds no tag and no pairing: each pairing of the video with a tag is
/// stored exactly once. The identifiers drawn for the first ingestion must
/// be new to the tags and differ from each other.
pub proof fn law_pairing_stored_once(
    s: StoreView,
    record: CreateWatchHistoryRequest,
    first: Generated,
    second: Generated,
)
    requires
        tags_wf(s),
        first.tag_ids@.len() == record.video.tags@.len(),
        fresh_for(s.tags, texts(first.tag_ids@)),
    ensures
        ({
            let once = ingested(s, record, first);
            let twice = ingested(once, record, second);
            &&& once.video_tags.no_duplicates()
            &&& forall|k: int|
                0 <= k < record.video.tags@.len() ==> tagged(
                    once,
                    record.video.id@,
                    #[trigger] texts(record.video.tags@)[k],
                )
            &&& twice.video_tags == once.video_tags
            &&& twice.tags == once.tags
        }),
{
    let names = texts(record.video.tags@);
    let video_id = record.video.id@;
    let once = ingested(s, record, first);
    let twice = ingested(once, record, second);
    let linked = link_tags(s, video_id, names, texts(first.tag_ids@), first.now);
    lemma_ingested_tags(s, record, first);
    lemma_link_tags(s, video_id, names, texts(first.tag_ids@), first.now);
    assert forall|k: int| 0 <= k < names.len() implies tagged(once, video_id, #[trigger] names[k]) by {
        assert(tagged(linked, video_id, names[k]));
    }
    lemma_ingested_tags(once, record, second);
    lemma_link_tags_again(once, video_id, names, texts(second.tag_ids@), second.now);
}

/// After two records that share a tag name were ingested, one tag has that
/// name and no other, and both videos are tagged with it. The identifiers
/// drawn for each ingestion must be new to the tags at its time and differ
/// from each other.
pub proof fn law_tag_shared(
    s: StoreView,
    one: CreateWatchHistoryRequest,
    first: Generated,
    other: CreateWatchHistoryRequest,
    second: Generated,
    name: Seq<char>,
)
    requires
        tags_wf(s),
        first.tag_ids@.len() == one.video.tags@.len(),
        second.tag_ids@.len() == other.video.tags@.len(),
        fresh_for(s.tags, texts(first.tag_ids@)),
        fresh_for(ingested(s, one, first).tags, texts(second.tag_ids@)),
        texts(one.video.tags@).contains(name),
        texts(other.video.tags@).contains(name),
    ensures
        ({
            let after = ingested(ingested(s, one, first), other, second);
            &&& tags_wf(after)
            &&& tag_names(after.tags).no_duplicates()
            &&& tag_names(after.tags).contains(name)
            &&& tagged(after, one.video.id@, name)
            &&& tagged(after, other.video.id@, name)
        }),
{
    let once = ingested(s, one, first);
    let after = ingested(once, other, second);
    let names_one = texts(one.video.tags@);
    let names_other = texts(other.video.tags@);
    lemma_ingested_tags(s, one, first);
    lemma_link_tags(s, one.video.id@, names_one, texts(first.tag_ids@), first.now);
    let k1 = names_one.index_of(name);
    assert(names_one[k1] == name);
    assert(tagged(
        link_tags(s, one.video.id@, names_one, texts(first.tag_ids@), first.now),
        one.video.id@,
        names_one[k1],
    ));
    assert(tagged(once, one.video.id@, name));
    assert(tags_wf(once));
    lemma_ingested_tags(once, other, second);
    lemma_link_tags(once, other.video.id@, names_other, texts(second.tag_ids@), second.now);
    let linked = link_tags(once, other.video.id@, names_other, texts(second.tag_ids@), second.now);
    let k2 = names_other.index_of(name);
    assert(names_other[k2] == name);
    assert(tagged(linked, other.video.id@, names_other[k2]));
    lemma_tagged_kept(once, linked, one.video.id@, name);
}

/// Tagging a video that is stored keeps true what the engine keeps true of
/// the tables.
pub proof fn lemma_link_tag_wf(
    s: StoreView,
    video_id: Seq<char>,
    name: Seq<char>,
    fresh: Seq<char>,
    now: i64,
)
    requires
        store_wf(s),
        video_ids(s.videos).contains(video_id),
    ensures
        store_wf(link_tag(s, video_id, name, fresh, now)),
        link_tag(s, video_id, name, fresh, now).videos == s.videos,
{
    let t = link_tag(s, video_id, name, fresh, now);
    let ids = tag_ids(s.tags);
    let pairing = VideoTagsView { video_id, tag_id: tag_id_for(s.tags, name, fresh) };
    lemma_link_tag(s, video_id, name, fresh, now);
    // Every tag id of before is one of after.
    assert forall|id: Seq<char>| ids.contains(id) implies tag_ids(t.tags).contains(id) by {
        let i = ids.index_of(id);
        assert(t.tags[i] == s.tags[i]);
        assert(tag_ids(t.tags)[i] == id);
    }
    // The tag of the pairing exists.
    assert(tag_ids(t.tags).contains(pairing.tag_id)) by {
        let names = tag_names(s.tags);
        if names.contains(name) {
            let i = names.index_of(name);
            assert(names[i] == name);
            assert(ids[i] == s.tags[i].id);
        } else if !ids.contains(fresh) {
            assert(tag_ids(t.tags)[s.tags.len() as int] == fresh);
        }
    }
    assert forall|i: int| 0 <= i < t.video_tags.len() implies video_ids(t.videos).contains(
        (#[trigger] t.video_tags[i]).video_id,
    ) && tag_ids(t.tags).contains(t.video_tags[i].tag_id) by {
        if i < s.video_tags.len() {
            assert(t.video_tags[i] == s.video_tags[i]);
        } else {
            assert(t.video_tags[i] == pairing);
        }
    }
}

/// Tagging a video that is stored with a run of names keeps true what the
/// engine keeps true of the tables.
pub proof fn lemma_link_tags_wf(
    s: StoreView,
    video_id: Seq<char>,
    names: Seq<Seq<char>>,
    fresh: Seq<Seq<char>>,
    now: i64,
)
    requires
        store_wf(s),
        video_ids(s.videos).contains(video_id),
    ensures
        store_wf(link_tags(s, video_id, names, fresh, now)),
    decreases names.len(),
{
    if names.len() > 0 {
        lemma_link_tags_wf(s, video_id, names.drop_last(), fresh.drop_last(), now);
        lemma_link_tags_frame(s, video_id, names.drop_last(), fresh.drop_last(), now);
        lemma_link_tag_wf(
            link_tags(s, video_id, names.drop_last(), fresh.drop_last(), now),
            video_id,
            names.last(),
            fresh.last(),
            now,
        );
    }
}

/// Ingestion keeps true what the engine keeps true of the tables, whatever
/// the record and whatever is drawn for it: no id occurs twice, no tag name
/// occurs twice, no pairing occurs twice, and every reference points at a
/// row.
pub proof fn law_ingestion_keeps_the_store_sound(
    s: StoreView,
    record: CreateWatchHistoryRequest,
    g: Generated,
)
    requires
        store_wf(s),
    ensures
        store_wf(ingested(s, record, g)),
{
    let channel = incoming_channel(record, g.now);
    let video = incoming_video(record, g.now);
    let with_channel = StoreView { channels: upsert_channel(s.channels, channel), ..s };
    let with_video = StoreView { videos: upsert_video(with_channel.videos, video), ..with_channel };
    // The channel.
    let before_channels = channel_ids(s.channels);
    let after_channels = channel_ids(with_channel.channels);
    if before_channels.contains(channel.id) {
        assert(after_channels =~= before_channels);
    } else {
        assert(after_channels =~= before_channels.push(channel.id));
        lemma_push_no_duplicates(before_channels, channel.id);
        assert(after_channels[before_channels.len() as int] == channel.id);
    }
    assert forall|key: Seq<char>| before_channels.contains(key) implies after_channels.contains(
        key,
    ) by {
        if !before_channels.contains(channel.id) {
            lemma_push_keeps(before_channels, channel.id, key);
        }
    }
    assert(after_channels.contains(channel.id));
    assert(store_wf(with_channel));
    // The video.
    let before_videos = video_ids(s.videos);
    let after_videos = video_ids(with_video.videos);
    if before_videos.contains(video.id) {
        let i = before_videos.index_of(video.id);
        assert(before_videos[i] == video.id);
        assert(after_videos =~= before_videos);
        assert forall|j: int| 0 <= j < with_video.videos.len() implies after_channels.contains(
            (#[trigger] with_video.videos[j]).channel_id,
        ) by {
            assert(with_video.videos[j].channel_id == s.videos[j].channel_id);
        }
    } else {
        assert(after_videos =~= before_videos.push(video.id));
        lemma_push_no_duplicates(before_videos, video.id);
        assert(after_videos[before_videos.len() as int] == video.id);
        assert forall|j: int| 0 <= j < with_video.videos.len() implies after_channels.contains(
            (#[trigger] with_video.videos[j]).channel_id,
        ) by {
            if j < s.videos.len() {
                assert(with_video.videos[j] == s.videos[j]);
            }
        }
    }
    assert forall|key: Seq<char>| before_videos.contains(key) implies after_videos.contains(
        key,
    ) by {
        if !before_videos.contains(video.id) {
            lemma_push_keeps(before_videos, video.id, key);
        }
    }
    assert(after_videos.contains(video.id));
    assert(store_wf(with_video));
    // The tags and the pairings.
    let names = texts(record.video.tags@);
    let fresh = texts(g.tag_ids@);
    lemma_link_tags_wf(with_video, video.id, names, fresh, g.now);
    lemma_link_tags_frame(with_video, video.id, names, fresh, g.now);
    let with_tags = link_tags(with_video, video.id, names, fresh, g.now);
    // The session.
    let session = incoming_session(record, g.history_id@, g.now);
    let after = ingested(s, record, g);
    let before_sessions = history_ids(with_tags.watch_history);
    if !before_sessions.contains(session.id) {
        assert(history_ids(after.watch_history) =~= before_sessions.push(session.id));
        lemma_push_no_duplicates(before_sessions, session.id);
        assert forall|j: int| 0 <= j < after.watch_history.len() implies video_ids(
            after.videos,
        ).contains((#[trigger] after.watch_history[j]).video_id) && channel_ids(
            after.channels,
        ).contains(after.watch_history[j].channel_id) by {
            if j < s.watch_history.len() {
                assert(after.watch_history[j] == s.watch_history[j]);
            }
        }
    }
}

} // verus!
