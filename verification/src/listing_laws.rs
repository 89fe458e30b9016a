use crate::api_prelude::SortOrder;
use crate::api_prelude::names_among;
use crate::api_prelude::video_tag_names;
use crate::database::models::ChannelView;
use crate::database::models::TagView;
use crate::database::models::VideoTagsView;
use crate::database::store::StoreView;
use crate::database::store::lemma_index_of_unique;
use crate::database::store::lemma_push_keeps;
use crate::database::store::lemma_push_no_duplicates;
use crate::database::store::tag_ids;
use crate::database::store::tag_names;
use crate::ingestion_laws::fresh_for;
use crate::ingestion_laws::law_tag_shared;
use crate::ingestion_laws::tagged;
use crate::ingestion_laws::tags_wf;
use crate::listing::SortKeyView;
use crate::listing::insert_by;
use crate::listing::lemma_insert_by_bounds;
use crate::listing::lemma_selected_complete;
use crate::listing::lemma_selected_sound;
use crate::listing::page;
use crate::listing::page_end;
use crate::listing::page_start;
use crate::listing::precedes;
use crate::listing::selected;
use crate::listing::sorted_by;
use crate::routes::channels::GetChannelsParams;
use crate::routes::channels::channel_flags;
use crate::routes::channels::channel_keys;
use crate::routes::channels::channel_order;
use crate::routes::channels::channel_page;
use crate::routes::tags::GetTagsParams;
use crate::routes::tags::storage_order;
use crate::routes::tags::tag_keys;
use crate::routes::tags::tag_order;
use crate::routes::tags::tag_page;
use crate::routes::videos::GetVideosParams;
use crate::routes::videos::tagged_with;
use crate::routes::videos::video_flags;
use crate::routes::videos::video_listing;
use crate::routes::videos::video_matches;
use crate::routes::videos::video_page;
use crate::routes::watch_history::CreateWatchHistoryRequest;
use crate::routes::watch_history::Generated;
use crate::routes::watch_history::GetWatchHistoryParams;
use crate::routes::watch_history::ingested;
use crate::routes::watch_history::session_flags;
use crate::routes::watch_history::session_page;
use crate::text::lemma_text_order;
use crate::text::texts;
use vstd::prelude::*;

verus! {

/// Where neither an offset nor a limit is given, the page is the whole.
pub proof fn lemma_page_whole<T>(rows: Seq<T>)
    ensures
        page(rows, None, None) == rows,
{
    assert(page(rows, None, None) =~= rows);
}

/// A listing of videos with an offset and a limit answers a run of the
/// videos that the same listing without them answers: the rows from
/// `page_start` to `page_end`, side by side and in the same order.
pub proof fn law_video_page_is_slice(s: StoreView, p: GetVideosParams)
    ensures
        ({
            let whole = video_page(s, (GetVideosParams { offset: None, limit: None, ..p }));
            video_page(s, p) == whole.subrange(
                page_start(whole.len(), p.offset),
                page_end(whole.len(), p.offset, p.limit),
            )
        }),
{
    let unpaged = GetVideosParams { offset: None, limit: None, ..p };
    assert(video_flags(s, unpaged) =~= video_flags(s, p));
    let order = selected(video_flags(s, p));
    lemma_page_whole(order);
    let whole = video_page(s, unpaged);
    assert(video_page(s, p) =~= whole.subrange(
        page_start(whole.len(), p.offset),
        page_end(whole.len(), p.offset, p.limit),
    ));
}

/// A listing of channels with an offset and a limit answers a run of the
/// channels that the same listing without them answers: the rows from
/// `page_start` to `page_end`, side by side and in the same order.
pub proof fn law_channel_page_is_slice(s: StoreView, p: GetChannelsParams)
    ensures
        ({
            let whole = channel_page(s, (GetChannelsParams { offset: None, limit: None, ..p }));
            channel_page(s, p) == whole.subrange(
                page_start(whole.len(), p.offset),
                page_end(whole.len(), p.offset, p.limit),
            )
        }),
{
    let unpaged = GetChannelsParams { offset: None, limit: None, ..p };
    assert(channel_flags(s.channels, unpaged)
        =~= channel_flags(s.channels, p));
    let order = channel_order(s.channels, p);
    assert(channel_order(s.channels, unpaged) == order);
    lemma_page_whole(order);
    let whole = channel_page(s, unpaged);
    assert(channel_page(s, p) =~= whole.subrange(
        page_start(whole.len(), p.offset),
        page_end(whole.len(), p.offset, p.limit),
    ));
}

/// A listing of tags with an offset and a limit answers a run of the tags
/// that the same listing without them answers: the rows from `page_start`
/// to `page_end`, side by side and in the same order.
pub proof fn law_tag_page_is_slice(s: StoreView, p: GetTagsParams)
    ensures
        ({
            let whole = tag_page(s, (GetTagsParams { offset: None, limit: None, ..p }));
            tag_page(s, p) == whole.subrange(
                page_start(whole.len(), p.offset),
                page_end(whole.len(), p.offset, p.limit),
            )
        }),
{
    let unpaged = GetTagsParams { offset: None, limit: None, ..p };
    let order = tag_order(s.tags, p);
    assert(tag_order(s.tags, unpaged) == order);
    lemma_page_whole(order);
    let whole = tag_page(s, unpaged);
    assert(tag_page(s, p) =~= whole.subrange(
        page_start(whole.len(), p.offset),
        page_end(whole.len(), p.offset, p.limit),
    ));
}

/// A listing of watch sessions with an offset and a limit answers a run of
/// the sessions that the same listing without them answers: the rows from
/// `page_start` to `page_end`, side by side and in the same order.
pub proof fn law_session_page_is_slice(s: StoreView, p: GetWatchHistoryParams)
    ensures
        ({
            let whole = session_page(
                s,
                (GetWatchHistoryParams { offset: None, limit: None, ..p }),
            );
            session_page(s, p) == whole.subrange(
                page_start(whole.len(), p.offset),
                page_end(whole.len(), p.offset, p.limit),
            )
        }),
{
    let unpaged = GetWatchHistoryParams { offset: None, limit: None, ..p };
    assert(session_flags(s, unpaged)
        =~= session_flags(s, p));
    let order = selected(session_flags(s, p));
    lemma_page_whole(order);
    let whole = session_page(s, unpaged);
    assert(session_page(s, p) =~= whole.subrange(
        page_start(whole.len(), p.offset),
        page_end(whole.len(), p.offset, p.limit),
    ));
}

/// A listing of videos that cuts no page answers a video exactly when the
/// video passes the filters, and answers no video twice, through however
/// many of its tags the video passes a filter for tags.
pub proof fn law_video_listed_once(s: StoreView, p: GetVideosParams, i: int)
    requires
        p.offset is None,
        p.limit is None,
        s.videos.len() <= usize::MAX,
        0 <= i < s.videos.len(),
    ensures
        video_listing(s, p).no_duplicates(),
        video_listing(s, p).contains(i as usize) <==> video_matches(s, p, s.videos[i]),
{
    let flags = video_flags(s, p);
    let order = selected(flags);
    lemma_page_whole(order);
    lemma_selected_sound(flags);
    if video_matches(s, p, s.videos[i]) {
        lemma_selected_complete(flags, i);
    }
    if order.contains(i as usize) {
        let k = order.index_of(i as usize);
        assert(flags[order[k] as int]);
    }
}

/// Among `pairs`, a pairing of the video with a tag that exists gives the
/// video the name of that tag.
pub proof fn lemma_names_among(
    pairs: Seq<VideoTagsView>,
    tags: Seq<TagView>,
    video_id: Seq<char>,
    j: int,
)
    requires
        0 <= j < pairs.len(),
        pairs[j].video_id == video_id,
        tag_ids(tags).contains(pairs[j].tag_id),
    ensures
        names_among(pairs, tags, video_id).contains(
            tags[tag_ids(tags).index_of(pairs[j].tag_id)].name,
        ),
    decreases pairs.len(),
{
    let name = tags[tag_ids(tags).index_of(pairs[j].tag_id)].name;
    let rest = names_among(pairs.drop_last(), tags, video_id);
    let all = names_among(pairs, tags, video_id);
    if j == pairs.len() - 1 {
        assert(all == rest.push(name));
        assert(all[rest.len() as int] == name);
    } else {
        assert(pairs.drop_last()[j] == pairs[j]);
        lemma_names_among(pairs.drop_last(), tags, video_id, j);
        let last = pairs.last();
        if last.video_id == video_id && tag_ids(tags).contains(last.tag_id) {
            lemma_push_keeps(rest, tags[tag_ids(tags).index_of(last.tag_id)].name, name);
        }
    }
}

/// The tag names answered with a video include every name that the video is
/// tagged with.
pub proof fn law_tagged_is_answered(s: StoreView, video_id: Seq<char>, name: Seq<char>)
    requires
        tags_wf(s),
        tagged(s, video_id, name),
    ensures
        video_tag_names(s, video_id).contains(name),
{
    let i = tag_names(s.tags).index_of(name);
    assert(tag_names(s.tags)[i] == name);
    let pairing = VideoTagsView { video_id, tag_id: s.tags[i].id };
    let j = s.video_tags.index_of(pairing);
    assert(s.video_tags[j] == pairing);
    assert(tag_ids(s.tags)[i] == pairing.tag_id);
    lemma_index_of_unique(tag_ids(s.tags), pairing.tag_id, i);
    lemma_names_among(s.video_tags, s.tags, video_id, j);
}

/// A video that is tagged with one of the names that a filter for tags
/// wants passes the filter.
pub proof fn law_tag_filter_passes(
    s: StoreView,
    video_id: Seq<char>,
    name: Seq<char>,
    wanted: Vec<String>,
)
    requires
        tags_wf(s),
        tagged(s, video_id, name),
        texts(wanted@).contains(name),
    ensures
        tagged_with(Some(wanted), video_tag_names(s, video_id)),
{
    law_tagged_is_answered(s, video_id, name);
    let names = video_tag_names(s, video_id);
    let k = names.index_of(name);
    assert(texts(wanted@).contains(names[k]));
}

/// Whether two keys are of one kind.
pub open spec fn same_kind(a: SortKeyView, b: SortKeyView) -> bool {
    ||| a is Text && b is Text
    ||| a is Flag && b is Flag
    ||| a is Number && b is Number
}

/// Whether all of `keys` are of one kind, as the keys of one column are.
pub open spec fn uniform(keys: Seq<SortKeyView>) -> bool {
    forall|i: int, j: int|
        0 <= i < keys.len() && 0 <= j < keys.len() ==> same_kind(
            #[trigger] keys[i],
            #[trigger] keys[j],
        )
}

/// Whether `order` holds its positions in rising order, as a selection in
/// storage order does.
pub open spec fn rising(order: Seq<usize>) -> bool {
    forall|a: int, b: int| 0 <= a < b < order.len() ==> order[a] < order[b]
}

/// Whether the row `x` is in place before the row `y`: its key says that it
/// must stand before, or the keys say nothing of the two and `x` comes first
/// in storage order.
pub open spec fn stands_before(x: usize, y: usize, keys: Seq<SortKeyView>, descending: bool)
    -> bool {
    precedes(keys[x as int], keys[y as int], descending) || (!precedes(
        keys[y as int],
        keys[x as int],
        descending,
    ) && x < y)
}

/// Whether every row of `order` is in place before every row behind it.
pub open spec fn in_order(order: Seq<usize>, keys: Seq<SortKeyView>, descending: bool) -> bool {
    forall|a: int, b: int|
        0 <= a < b < order.len() ==> stands_before(
            #[trigger] order[a],
            #[trigger] order[b],
            keys,
            descending,
        )
}

/// The order of keys of one kind is a strict total order.
pub proof fn lemma_key_order(a: SortKeyView, b: SortKeyView, c: SortKeyView, descending: bool)
    ensures
        precedes(a, b, descending) ==> !precedes(b, a, descending),
        same_kind(a, b) && a != b ==> precedes(a, b, descending) || precedes(b, a, descending),
        precedes(a, b, descending) && precedes(b, c, descending) ==> precedes(a, c, descending),
{
    match (a, b, c) {
        (SortKeyView::Text(x), SortKeyView::Text(y), SortKeyView::Text(z)) => {
            lemma_text_order(x, y, z);
            lemma_text_order(z, y, x);
            lemma_text_order(y, x, z);
        },
        (SortKeyView::Text(x), SortKeyView::Text(y), _) => {
            lemma_text_order(x, y, x);
            lemma_text_order(y, x, y);
        },
        _ => {},
    }
}

/// Putting a row that comes last in storage order into rows that are in
/// order leaves them in order, and adds that row and no other.
pub proof fn lemma_insert_in_order(
    order: Seq<usize>,
    keys: Seq<SortKeyView>,
    x: usize,
    descending: bool,
)
    requires
        uniform(keys),
        x < keys.len(),
        forall|i: int| 0 <= i < order.len() ==> order[i] < keys.len() && order[i] < x,
        in_order(order, keys, descending),
    ensures
        in_order(insert_by(order, keys, x, descending), keys, descending),
        insert_by(order, keys, x, descending).to_multiset() == order.to_multiset().insert(x),
    decreases order.len(),
{
    broadcast use vstd::seq_lib::to_multiset_build, vstd::seq_lib::to_multiset_contains;

    let out = insert_by(order, keys, x, descending);
    if order.len() == 0 {
        assert(out =~= order.push(x));
    } else {
        let last = order.last();
        let head = order.drop_last();
        assert(order =~= head.push(last));
        if precedes(keys[x as int], keys[last as int], descending) {
            let inner = insert_by(head, keys, x, descending);
            assert forall|a: int, b: int| 0 <= a < b < head.len() implies stands_before(
                #[trigger] head[a],
                #[trigger] head[b],
                keys,
                descending,
            ) by {
                assert(head[a] == order[a] && head[b] == order[b]);
            }
            lemma_insert_in_order(head, keys, x, descending);
            assert(out == inner.push(last));
            assert forall|a: int, b: int| 0 <= a < b < out.len() implies stands_before(
                #[trigger] out[a],
                #[trigger] out[b],
                keys,
                descending,
            ) by {
                if b == out.len() - 1 {
                    let z = inner[a];
                    assert(inner.contains(z));
                    assert(inner.to_multiset().count(z) > 0);
                    if z != x {
                        assert(head.to_multiset().count(z) > 0);
                        assert(head.contains(z));
                        let i = head.index_of(z);
                        assert(order[i] == z);
                        assert(stands_before(order[i], order[order.len() - 1], keys, descending));
                    }
                } else {
                    assert(out[a] == inner[a] && out[b] == inner[b]);
                }
            }
        } else {
            assert(out == order.push(x));
            assert forall|a: int, b: int| 0 <= a < b < out.len() implies stands_before(
                #[trigger] out[a],
                #[trigger] out[b],
                keys,
                descending,
            ) by {
                if b == out.len() - 1 {
                    let z = order[a];
                    lemma_key_order(keys[x as int], keys[z as int], keys[last as int], descending);
                    lemma_key_order(keys[x as int], keys[last as int], keys[z as int], descending);
                    lemma_key_order(keys[last as int], keys[x as int], keys[z as int], descending);
                    if a < order.len() - 1 {
                        assert(stands_before(order[a], order[order.len() - 1], keys, descending));
                    }
                } else {
                    assert(out[a] == order[a] && out[b] == order[b]);
                }
            }
        }
    }
}

/// Sorting rows that come in storage order puts them in order: of two rows
/// that are answered, the one that its key puts first stands first, and two
/// rows whose keys say nothing of them stand in storage order. And the
/// rows answered are the rows given, each as often as it was given.
pub proof fn law_sorted_in_order(order: Seq<usize>, keys: Seq<SortKeyView>, descending: bool)
    requires
        uniform(keys),
        rising(order),
        forall|i: int| 0 <= i < order.len() ==> order[i] < keys.len(),
    ensures
        in_order(sorted_by(order, keys, descending), keys, descending),
        sorted_by(order, keys, descending).to_multiset() == order.to_multiset(),
        sorted_by(order, keys, descending).len() == order.len(),
    decreases order.len(),
{
    broadcast use
        vstd::seq_lib::to_multiset_build,
        vstd::seq_lib::to_multiset_contains,
        vstd::seq_lib::to_multiset_len,
    ;

    if order.len() > 0 {
        let head = order.drop_last();
        let last = order.last();
        assert(order =~= head.push(last));
        assert forall|a: int, b: int| 0 <= a < b < head.len() implies head[a] < head[b] by {
            assert(head[a] == order[a] && head[b] == order[b]);
        }
        law_sorted_in_order(head, keys, descending);
        let inner = sorted_by(head, keys, descending);
        assert forall|i: int| 0 <= i < inner.len() implies inner[i] < keys.len() && inner[i]
            < last by {
            let z = inner[i];
            assert(inner.contains(z));
            assert(inner.to_multiset().count(z) > 0);
            assert(head.contains(z));
            let j = head.index_of(z);
            assert(order[j] == z);
        }
        lemma_insert_in_order(inner, keys, last, descending);
        lemma_insert_by_bounds(inner, keys, last, descending);
    }
}

/// Where a column and a direction are given, the channels of a listing
/// stand in the order of that column, and channels that the column does not
/// tell apart stand in storage order.
pub proof fn law_channels_sorted(
    rows: Seq<ChannelView>,
    p: GetChannelsParams,
    by: crate::routes::channels::SortBy,
    direction: SortOrder,
)
    requires
        rows.len() <= usize::MAX,
        p.sort_by == Some(by),
        p.sort_order == Some(direction),
    ensures
        in_order(channel_order(rows, p), channel_keys(rows, by), direction == SortOrder::Desc),
        channel_order(rows, p).to_multiset() == selected(channel_flags(rows, p)).to_multiset(),
{
    let flags = channel_flags(rows, p);
    lemma_selected_sound(flags);
    law_sorted_in_order(selected(flags), channel_keys(rows, by), direction == SortOrder::Desc);
}

/// Where a column and a direction are given, the tags of a listing stand in
/// the order of their names, and every tag is among them once.
pub proof fn law_tags_sorted(rows: Seq<TagView>, p: GetTagsParams, direction: SortOrder)
    requires
        rows.len() <= usize::MAX,
        p.sort_by is Some,
        p.sort_order == Some(direction),
    ensures
        in_order(tag_order(rows, p), tag_keys(rows), direction == SortOrder::Desc),
        tag_order(rows, p).to_multiset() == storage_order(rows.len()).to_multiset(),
{
    law_sorted_in_order(storage_order(rows.len()), tag_keys(rows), direction == SortOrder::Desc);
}

/// Every name that the pairings give a video comes from a pairing of that
/// video with a tag that exists.
pub proof fn lemma_names_among_source(
    pairs: Seq<VideoTagsView>,
    tags: Seq<TagView>,
    video_id: Seq<char>,
    k: int,
)
    requires
        0 <= k < names_among(pairs, tags, video_id).len(),
    ensures
        exists|j: int|
            0 <= j < pairs.len() && (#[trigger] pairs[j]).video_id == video_id && tag_ids(
                tags,
            ).contains(pairs[j].tag_id) && names_among(pairs, tags, video_id)[k]
                == tags[tag_ids(tags).index_of(pairs[j].tag_id)].name,
    decreases pairs.len(),
{
    let head = pairs.drop_last();
    let rest = names_among(head, tags, video_id);
    let last = pairs.last();
    if k < rest.len() {
        lemma_names_among_source(head, tags, video_id, k);
        let j = choose|j: int|
            0 <= j < head.len() && (#[trigger] head[j]).video_id == video_id && tag_ids(
                tags,
            ).contains(head[j].tag_id) && rest[k] == tags[tag_ids(tags).index_of(
                head[j].tag_id,
            )].name;
        assert(pairs[j] == head[j]);
    } else {
        assert(pairs[pairs.len() - 1] == last);
    }
}

/// Among pairings of which none occurs twice, with tags of which no
/// identifier and no name occurs twice, a video is given no name twice.
pub proof fn lemma_names_among_distinct(
    pairs: Seq<VideoTagsView>,
    tags: Seq<TagView>,
    video_id: Seq<char>,
)
    requires
        pairs.no_duplicates(),
        tag_ids(tags).no_duplicates(),
        tag_names(tags).no_duplicates(),
    ensures
        names_among(pairs, tags, video_id).no_duplicates(),
    decreases pairs.len(),
{
    if pairs.len() > 0 {
        let head = pairs.drop_last();
        let rest = names_among(head, tags, video_id);
        let last = pairs.last();
        assert forall|a: int, b: int| 0 <= a < head.len() && 0 <= b < head.len() && a
            != b implies head[a] != head[b] by {
            assert(head[a] == pairs[a] && head[b] == pairs[b]);
        }
        lemma_names_among_distinct(head, tags, video_id);
        if last.video_id == video_id && tag_ids(tags).contains(last.tag_id) {
            let i = tag_ids(tags).index_of(last.tag_id);
            assert(tag_ids(tags)[i] == last.tag_id);
            let name = tags[i].name;
            if rest.contains(name) {
                let k = rest.index_of(name);
                lemma_names_among_source(head, tags, video_id, k);
                let j = choose|j: int|
                    0 <= j < head.len() && (#[trigger] head[j]).video_id == video_id && tag_ids(
                        tags,
                    ).contains(head[j].tag_id) && rest[k] == tags[tag_ids(tags).index_of(
                        head[j].tag_id,
                    )].name;
                let i2 = tag_ids(tags).index_of(head[j].tag_id);
                assert(tag_ids(tags)[i2] == head[j].tag_id);
                assert(tag_names(tags)[i2] == name);
                assert(tag_names(tags)[i] == name);
                assert(i2 == i);
                assert(head[j] == last);
                assert(pairs[j] == pairs[pairs.len() - 1]);
                assert(false);
            }
            lemma_push_no_duplicates(rest, name);
        }
    }
}

/// The tag names answered with a video hold no name twice.
pub proof fn law_tag_names_answered_once(s: StoreView, video_id: Seq<char>)
    requires
        tags_wf(s),
    ensures
        video_tag_names(s, video_id).no_duplicates(),
{
    lemma_names_among_distinct(s.video_tags, s.tags, video_id);
}

/// After two records that share a tag name were ingested, one tag has that
/// name and no other, and each of the two videos is answered with the name
/// among its tag names, exactly once. The identifiers drawn for each
/// ingestion must be new to the tags at its time and differ from each
/// other.
pub proof fn law_shared_tag_answered_once(
    s: StoreView,
    one: CreateWatchHistoryRequest,
    first: Generated,
    other: CreateWatchHistoryRequest,
    second: Generated,
    name: Seq<char>,
)
    requires
        tags_wf(s),
        first.tag_ids@.len() == one.video.tags@.len(),
        second.tag_ids@.len() == other.video.tags@.len(),
        fresh_for(s.tags, texts(first.tag_ids@)),
        fresh_for(ingested(s, one, first).tags, texts(second.tag_ids@)),
        texts(one.video.tags@).contains(name),
        texts(other.video.tags@).contains(name),
    ensures
        ({
            let after = ingested(ingested(s, one, first), other, second);
            &&& tag_names(after.tags).contains(name)
            &&& tag_names(after.tags).no_duplicates()
            &&& video_tag_names(after, one.video.id@).contains(name)
            &&& video_tag_names(after, one.video.id@).no_duplicates()
            &&& video_tag_names(after, other.video.id@).contains(name)
            &&& video_tag_names(after, other.video.id@).no_duplicates()
        }),
{
    let after = ingested(ingested(s, one, first), other, second);
    law_tag_shared(s, one, first, other, second, name);
    law_tagged_is_answered(after, one.video.id@, name);
    law_tagged_is_answered(after, other.video.id@, name);
    law_tag_names_answered_once(after, one.video.id@);
    law_tag_names_answered_once(after, other.video.id@);
}

} // verus!
