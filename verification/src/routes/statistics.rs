use crate::database::models::VideoView;
use crate::database::models::WatchHistoryView;
use crate::database::store::Store;
use crate::database::store::StoreView;
use crate::database::store::video_views;
use crate::database::store::watch_history_views;
use crate::errors::ApiError;
use crate::listing::count_rows;
use crate::listing::row_count;
use vstd::prelude::*;

verus! {

/// The figures of the overview.
#[derive(Debug, Clone, Copy, PartialEq, Eq, Structural)]
pub struct OverviewResponse {
    pub total_watch_time_seconds: i64,
    pub total_videos_watched: i64,
    pub total_unique_videos_watched: i64,
    pub total_channels: i64,
    pub total_tags: i64,
    pub average_watch_time_per_session_seconds: i64,
    pub average_session_duration_seconds: i64,
}

/// The seconds watched in all of `rows`.
pub open spec fn watched_seconds(rows: Seq<WatchHistoryView>) -> int
    decreases rows.len(),
{
    if rows.len() == 0 {
        0
    } else {
        watched_seconds(rows.drop_last()) + rows.last().watch_duration_seconds
    }
}

/// The seconds from the beginning to the end of the session `row`.
pub open spec fn span(row: WatchHistoryView) -> int {
    row.session_end_date - row.session_start_date
}

/// The seconds that all of `rows` lasted, each from its beginning to its
/// end.
pub open spec fn session_seconds(rows: Seq<WatchHistoryView>) -> int
    decreases rows.len(),
{
    if rows.len() == 0 {
        0
    } else {
        session_seconds(rows.drop_last()) + span(rows.last())
    }
}

/// The sum of the watch counters of `rows`.
pub open spec fn watch_counters(rows: Seq<VideoView>) -> int
    decreases rows.len(),
{
    if rows.len() == 0 {
        0
    } else {
        watch_counters(rows.drop_last()) + rows.last().watch_counter
    }
}

/// Whether `value` is a value of `i64`.
pub open spec fn fits(value: int) -> bool {
    i64::MIN <= value <= i64::MAX
}

/// `sum` divided by `count`, rounded toward zero.
pub open spec fn average(sum: int, count: int) -> int
    recommends
        count > 0,
{
    if sum >= 0 {
        sum / count
    } else {
        -((-sum) / count)
    }
}

/// Whether the figures of the overview are defined for the store: there is
/// a session to average over, every session's span is a value of `i64`, and
/// so are the three sums.
pub open spec fn overview_defined(s: StoreView) -> bool {
    &&& s.watch_history.len() > 0
    &&& forall|i: int| 0 <= i < s.watch_history.len() ==> fits(span(#[trigger] s.watch_history[i]))
    &&& fits(watched_seconds(s.watch_history))
    &&& fits(session_seconds(s.watch_history))
    &&& fits(watch_counters(s.videos))
}

/// The figures of the overview for the store `s`.
pub open spec fn overview(s: StoreView) -> OverviewResponse {
    let sessions = s.watch_history.len() as int;
    OverviewResponse {
        total_watch_time_seconds: watched_seconds(s.watch_history) as i64,
        total_videos_watched: watch_counters(s.videos) as i64,
        total_unique_videos_watched: row_count(s.videos.len()),
        total_channels: row_count(s.channels.len()),
        total_tags: row_count(s.tags.len()),
        average_watch_time_per_session_seconds: average(
            watched_seconds(s.watch_history),
            sessions,
        ) as i64,
        average_session_duration_seconds: average(session_seconds(s.watch_history), sessions) as i64,
    }
}

/// `sum` divided by `count`, rounded toward zero.
fn average_of(sum: i64, count: usize) -> (quotient: i64)
    requires
        count > 0,
    ensures
        quotient == average(sum as int, count as int),
{
    let magnitude: u64 = if sum >= 0 {
        sum as u64
    } else if sum == i64::MIN {
        0x8000_0000_0000_0000
    } else {
        (-sum) as u64
    };
    let part: u64 = magnitude / (count as u64);
    assert(part <= magnitude) by (nonlinear_arith)
        requires
            part == magnitude / (count as u64),
            count > 0,
    ;
    if sum >= 0 {
        part as i64
    } else if part == 0x8000_0000_0000_0000 {
        i64::MIN
    } else {
        -(part as i64)
    }
}

/// The figures of the overview: the seconds watched and the sum of the
/// watch counters, the sizes of three tables, and the two averages over the
/// sessions, rounded toward zero. `Undefined` where there is no session, or
/// where a span or a sum is no value of `i64`.
pub fn get_overview(store: &Store) -> (figures: Result<OverviewResponse, ApiError>)
    ensures
        overview_defined(store@) ==> figures == Ok::<OverviewResponse, ApiError>(overview(store@)),
        !overview_defined(store@) ==> figures == Err::<OverviewResponse, ApiError>(
            ApiError::Undefined,
        ),
{
    let sessions = store.watch_history();
    let videos = store.videos();
    let count: usize = sessions.len();
    assert(watch_history_views(sessions@).len() == count);
    assert(video_views(videos@).len() == videos@.len());
    if count == 0 {
        return Err(ApiError::Undefined);
    }
    let mut watched: i128 = 0;
    let mut lasted: i128 = 0;
    let mut i: usize = 0;
    while i < count
        invariant
            count == sessions@.len(),
            watch_history_views(sessions@) == store@.watch_history,
            i <= count,
            watched == watched_seconds(store@.watch_history.take(i as int)),
            lasted == session_seconds(store@.watch_history.take(i as int)),
            -(i * 0x8000_0000_0000_0000) <= watched <= i * 0x8000_0000_0000_0000,
            -(i * 0x8000_0000_0000_0000) <= lasted <= i * 0x8000_0000_0000_0000,
            forall|j: int| 0 <= j < i ==> fits(span(#[trigger] store@.watch_history[j])),
        decreases count - i,
    {
        let session = &sessions[i];
        proof {
            assert(watch_history_views(sessions@)[i as int] == session@);
            assert(store@.watch_history.take(i + 1).drop_last() =~= store@.watch_history.take(
                i as int,
            ));
        }
        let length: i128 = session.session_end_date as i128 - session.session_start_date as i128;
        if length < -0x8000_0000_0000_0000 || length > 0x7fff_ffff_ffff_ffff {
            return Err(ApiError::Undefined);
        }
        watched = watched + session.watch_duration_seconds as i128;
        lasted = lasted + length;
        i += 1;
    }
    assert(store@.watch_history.take(i as int) =~= store@.watch_history);
    let mut counted: i128 = 0;
    let mut k: usize = 0;
    while k < videos.len()
        invariant
            video_views(videos@) == store@.videos,
            k <= videos@.len(),
            counted == watch_counters(store@.videos.take(k as int)),
            -(k * 0x8000_0000_0000_0000) <= counted <= k * 0x8000_0000_0000_0000,
        decreases videos@.len() - k,
    {
        proof {
            assert(video_views(videos@)[k as int] == videos@[k as int]@);
            assert(store@.videos.take(k + 1).drop_last() =~= store@.videos.take(k as int));
        }
        counted = counted + videos[k].watch_counter as i128;
        k += 1;
    }
    assert(store@.videos.take(k as int) =~= store@.videos);
    if watched < -0x8000_0000_0000_0000 || watched > 0x7fff_ffff_ffff_ffff || lasted
        < -0x8000_0000_0000_0000 || lasted > 0x7fff_ffff_ffff_ffff || counted
        < -0x8000_0000_0000_0000 || counted > 0x7fff_ffff_ffff_ffff {
        return Err(ApiError::Undefined);
    }
    let watched_total: i64 = watched as i64;
    let lasted_total: i64 = lasted as i64;
    Ok(
        OverviewResponse {
            total_watch_time_seconds: watched_total,
            total_videos_watched: counted as i64,
            total_unique_videos_watched: count_rows(videos.len()),
            total_channels: count_rows(store.channels().len()),
            total_tags: count_rows(store.tags().len()),
            average_watch_time_per_session_seconds: average_of(watched_total, count),
            average_session_duration_seconds: average_of(lasted_total, count),
        },
    )
}

} // verus!
