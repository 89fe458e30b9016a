use crate::text::contains_text;
use crate::text::is_text_before;
use crate::text::text_contains;
use crate::text::text_before;
use vstd::prelude::*;
use vstd::string::*;

verus! {

/// The positions, in rising order, at which `flags` is set: the rows that a
/// filter lets through, in storage order and each once.
pub open spec fn selected(flags: Seq<bool>) -> Seq<usize>
    decreases flags.len(),
{
    if flags.len() == 0 {
        Seq::empty()
    } else if flags.last() {
        selected(flags.drop_last()).push((flags.len() - 1) as usize)
    } else {
        selected(flags.drop_last())
    }
}

/// The positions at which `flags` is set, in rising order.
pub fn select(flags: &Vec<bool>) -> (positions: Vec<usize>)
    ensures
        positions@ == selected(flags@),
{
    let mut positions: Vec<usize> = Vec::new();
    let mut i: usize = 0;
    while i < flags.len()
        invariant
            i <= flags@.len(),
            positions@ == selected(flags@.take(i as int)),
        decreases flags@.len() - i,
    {
        assert(flags@.take(i + 1).drop_last() =~= flags@.take(i as int));
        if flags[i] {
            positions.push(i);
        }
        i += 1;
    }
    assert(flags@.take(i as int) =~= flags@);
    positions
}

/// The value by which a row is sorted.
#[derive(Debug)]
pub enum SortKey {
    Text(Vec<char>),
    Flag(bool),
    Number(i64),
}

/// A sort key as a mathematical value.
pub enum SortKeyView {
    Text(Seq<char>),
    Flag(bool),
    Number(i64),
}

impl View for SortKey {
    type V = SortKeyView;

    open spec fn view(&self) -> SortKeyView {
        match self {
            SortKey::Text(text) => SortKeyView::Text(text@),
            SortKey::Flag(flag) => SortKeyView::Flag(*flag),
            SortKey::Number(number) => SortKeyView::Number(*number),
        }
    }
}

/// The keys that `keys` hold.
pub open spec fn key_views(keys: Seq<SortKey>) -> Seq<SortKeyView> {
    Seq::new(keys.len(), |i: int| keys[i]@)
}

/// Whether the key `a` is strictly smaller than `b`: texts by code point,
/// flags with false first, numbers by value. Keys of two kinds are not
/// ordered.
pub open spec fn key_before(a: SortKeyView, b: SortKeyView) -> bool {
    match (a, b) {
        (SortKeyView::Text(x), SortKeyView::Text(y)) => text_before(x, y),
        (SortKeyView::Flag(x), SortKeyView::Flag(y)) => !x && y,
        (SortKeyView::Number(x), SortKeyView::Number(y)) => x < y,
        _ => false,
    }
}

/// Whether a row with the key `a` must stand before one with the key `b`.
pub open spec fn precedes(a: SortKeyView, b: SortKeyView, descending: bool) -> bool {
    if descending {
        key_before(b, a)
    } else {
        key_before(a, b)
    }
}

/// Whether a row with the key `a` must stand before one with the key `b`.
pub fn must_precede(a: &SortKey, b: &SortKey, descending: bool) -> (before: bool)
    ensures
        before == precedes(a@, b@, descending),
{
    let (low, high) = if descending {
        (b, a)
    } else {
        (a, b)
    };
    match (low, high) {
        (SortKey::Text(x), SortKey::Text(y)) => is_text_before(x, y),
        (SortKey::Flag(x), SortKey::Flag(y)) => !*x && *y,
        (SortKey::Number(x), SortKey::Number(y)) => *x < *y,
        _ => false,
    }
}

/// The sorted `order` with the row `x` put in: `x` passes, from the end,
/// every row that it must stand before, and stops at the first that it need
/// not pass.
pub open spec fn insert_by(order: Seq<usize>, keys: Seq<SortKeyView>, x: usize, descending: bool)
    -> Seq<usize>
    decreases order.len(),
{
    if order.len() == 0 {
        seq![x]
    } else if precedes(keys[x as int], keys[order.last() as int], descending) {
        insert_by(order.drop_last(), keys, x, descending).push(order.last())
    } else {
        order.push(x)
    }
}

/// The rows of `order` sorted by their keys, rising or falling. Rows whose
/// keys do not order them keep the order in which they came.
pub open spec fn sorted_by(order: Seq<usize>, keys: Seq<SortKeyView>, descending: bool) -> Seq<
    usize,
>
    decreases order.len(),
{
    if order.len() == 0 {
        order
    } else {
        insert_by(sorted_by(order.drop_last(), keys, descending), keys, order.last(), descending)
    }
}

/// Putting a row into an order adds one row and keeps all positions within
/// the keys.
pub proof fn lemma_insert_by_bounds(
    order: Seq<usize>,
    keys: Seq<SortKeyView>,
    x: usize,
    descending: bool,
)
    requires
        x < keys.len(),
        forall|i: int| 0 <= i < order.len() ==> order[i] < keys.len(),
    ensures
        insert_by(order, keys, x, descending).len() == order.len() + 1,
        forall|i: int|
            0 <= i < order.len() + 1 ==> #[trigger] insert_by(order, keys, x, descending)[i]
                < keys.len(),
    decreases order.len(),
{
    if order.len() > 0 && precedes(keys[x as int], keys[order.last() as int], descending) {
        lemma_insert_by_bounds(order.drop_last(), keys, x, descending);
    }
}

/// The rows of `order`, sorted by their keys.
pub fn sort(order: &Vec<usize>, keys: &Vec<SortKey>, descending: bool) -> (sorted: Vec<usize>)
    requires
        forall|i: int| 0 <= i < order@.len() ==> order@[i] < keys@.len(),
    ensures
        sorted@ == sorted_by(order@, key_views(keys@), descending),
        sorted@.len() == order@.len(),
        forall|i: int| 0 <= i < sorted@.len() ==> sorted@[i] < keys@.len(),
{
    let ghost views = key_views(keys@);
    let mut sorted: Vec<usize> = Vec::new();
    let mut k: usize = 0;
    while k < order.len()
        invariant
            k <= order@.len(),
            views == key_views(keys@),
            forall|i: int| 0 <= i < order@.len() ==> order@[i] < keys@.len(),
            sorted@ == sorted_by(order@.take(k as int), views, descending),
            sorted@.len() == k,
            forall|i: int| 0 <= i < sorted@.len() ==> sorted@[i] < keys@.len(),
        decreases order@.len() - k,
    {
        let x: usize = order[k];
        let ghost before = sorted@;
        let mut p: usize = sorted.len();
        proof {
            assert(before.take(p as int) =~= before);
            assert(insert_by(before, views, x, descending) + before.skip(p as int) =~= insert_by(
                before,
                views,
                x,
                descending,
            ));
        }
        while p > 0 && must_precede(&keys[x], &keys[sorted[p - 1]], descending)
            invariant
                p <= sorted@.len(),
                sorted@ == before,
                x < keys@.len(),
                views == key_views(keys@),
                forall|i: int| 0 <= i < sorted@.len() ==> sorted@[i] < keys@.len(),
                insert_by(before, views, x, descending) == insert_by(
                    before.take(p as int),
                    views,
                    x,
                    descending,
                ) + before.skip(p as int),
            decreases p,
        {
            proof {
                let head = before.take(p as int);
                assert(head.last() == before[p - 1]);
                assert(head.drop_last() =~= before.take(p - 1));
                assert(views[x as int] == keys@[x as int]@);
                assert(views[before[p - 1] as int] == keys@[before[p - 1] as int]@);
                assert(insert_by(head, views, x, descending) == insert_by(
                    before.take(p - 1),
                    views,
                    x,
                    descending,
                ).push(before[p - 1]));
                assert(insert_by(before.take(p - 1), views, x, descending).push(before[p - 1])
                    + before.skip(p as int) =~= insert_by(
                    before.take(p - 1),
                    views,
                    x,
                    descending,
                ) + before.skip(p - 1));
            }
            p -= 1;
        }
        proof {
            let head = before.take(p as int);
            if p > 0 {
                assert(head.last() == before[p - 1]);
                assert(views[x as int] == keys@[x as int]@);
                assert(views[before[p - 1] as int] == keys@[before[p - 1] as int]@);
            }
            assert(insert_by(head, views, x, descending) == head.push(x));
            assert(head.push(x) + before.skip(p as int) =~= before.insert(p as int, x));
            assert(order@.take(k + 1).drop_last() =~= order@.take(k as int));
            lemma_insert_by_bounds(before, views, x, descending);
        }
        sorted.insert(p, x);
        k += 1;
    }
    assert(order@.take(k as int) =~= order@);
    sorted
}

/// The position at which a page begins among `len` rows: the offset, or the
/// start where the offset is absent or negative, and no further than the
/// end.
pub open spec fn page_start(len: nat, offset: Option<i64>) -> int {
    match offset {
        Some(skip) => if skip <= 0 {
            0
        } else if skip >= len {
            len as int
        } else {
            skip as int
        },
        None => 0,
    }
}

/// The position at which a page ends among `len` rows: `limit` rows after
/// its start, or the end where the limit is absent or negative or reaches
/// further.
pub open spec fn page_end(len: nat, offset: Option<i64>, limit: Option<i64>) -> int {
    let start = page_start(len, offset);
    match limit {
        Some(count) => if count < 0 || start + count >= len {
            len as int
        } else {
            start + count
        },
        None => len as int,
    }
}

/// The page that `offset` and `limit` cut from `rows`: a run of rows that
/// stand side by side, in the order of `rows`.
pub open spec fn page<T>(rows: Seq<T>, offset: Option<i64>, limit: Option<i64>) -> Seq<T> {
    rows.subrange(page_start(rows.len(), offset), page_end(rows.len(), offset, limit))
}

/// Where the page that `offset` and `limit` cut from `len` rows begins and
/// ends.
pub fn page_bounds(len: usize, offset: Option<i64>, limit: Option<i64>) -> (bounds: (usize, usize))
    ensures
        bounds.0 == page_start(len as nat, offset),
        bounds.1 == page_end(len as nat, offset, limit),
        bounds.0 <= bounds.1 <= len,
{
    let start: usize = match offset {
        Some(skip) => if skip <= 0 {
            0
        } else if skip as u64 >= len as u64 {
            len
        } else {
            skip as usize
        },
        None => 0,
    };
    let end: usize = match limit {
        Some(count) => if count < 0 || count as u64 >= (len - start) as u64 {
            len
        } else {
            start + count as usize
        },
        None => len,
    };
    (start, end)
}

/// The page that `offset` and `limit` cut from `order`.
pub fn page_of(order: &Vec<usize>, offset: Option<i64>, limit: Option<i64>) -> (cut: Vec<usize>)
    ensures
        cut@ == page(order@, offset, limit),
{
    let (start, end) = page_bounds(order.len(), offset, limit);
    let mut cut: Vec<usize> = Vec::new();
    let mut i: usize = start;
    while i < end
        invariant
            start <= i <= end,
            end <= order@.len(),
            cut@ == order@.subrange(start as int, i as int),
        decreases end - i,
    {
        cut.push(order[i]);
        assert(order@.subrange(start as int, i + 1) =~= order@.subrange(
            start as int,
            i as int,
        ).push(order@[i as int]));
        i += 1;
    }
    cut
}

/// The number reported for a table of `len` rows.
pub open spec fn row_count(len: nat) -> i64 {
    if len <= i64::MAX {
        len as i64
    } else {
        i64::MAX
    }
}

/// The number reported for a table of `len` rows.
pub fn count_rows(len: usize) -> (total: i64)
    ensures
        total == row_count(len as nat),
{
    if len as u64 <= 0x7fff_ffff_ffff_ffff {
        len as i64
    } else {
        i64::MAX
    }
}

/// The selection holds positions of set flags only, and in rising order: no
/// row is listed twice.
pub proof fn lemma_selected_sound(flags: Seq<bool>)
    requires
        flags.len() <= usize::MAX,
    ensures
        selected(flags).len() <= flags.len(),
        forall|k: int|
            0 <= k < selected(flags).len() ==> (#[trigger] selected(flags)[k]) < flags.len()
                && flags[selected(flags)[k] as int],
        forall|j: int, k: int|
            0 <= j < k < selected(flags).len() ==> selected(flags)[j] < selected(flags)[k],
    decreases flags.len(),
{
    if flags.len() > 0 {
        let shorter = flags.drop_last();
        let chosen = selected(flags);
        lemma_selected_sound(shorter);
        assert forall|k: int| 0 <= k < chosen.len() implies (#[trigger] chosen[k]) < flags.len()
            && flags[chosen[k] as int] by {
            if k < selected(shorter).len() {
                assert(chosen[k] == selected(shorter)[k]);
                assert(shorter[chosen[k] as int] == flags[chosen[k] as int]);
            }
        }
        assert forall|j: int, k: int| 0 <= j < k < chosen.len() implies chosen[j] < chosen[k] by {
            assert(chosen[j] == selected(shorter)[j]);
            if k < selected(shorter).len() {
                assert(chosen[k] == selected(shorter)[k]);
            }
        }
    }
}

/// The selection holds the position of every set flag.
pub proof fn lemma_selected_complete(flags: Seq<bool>, i: int)
    requires
        flags.len() <= usize::MAX,
        0 <= i < flags.len(),
        flags[i],
    ensures
        selected(flags).contains(i as usize),
    decreases flags.len(),
{
    let shorter = selected(flags.drop_last());
    if i == flags.len() - 1 {
        assert(selected(flags)[shorter.len() as int] == i as usize);
    } else {
        lemma_selected_complete(flags.drop_last(), i);
        let k = shorter.index_of(i as usize);
        assert(selected(flags)[k] == i as usize);
    }
}

/// Whether `value` passes a filter for equality: it does where the filter
/// is absent.
pub open spec fn equals(wanted: Option<i64>, value: i64) -> bool {
    wanted matches Some(w) ==> value == w
}

/// Whether `value` passes a filter for a lower bound, which is strict.
pub open spec fn above(bound: Option<i64>, value: i64) -> bool {
    bound matches Some(b) ==> value > b
}

/// Whether `value` passes a filter for an upper bound, which is strict.
pub open spec fn below(bound: Option<i64>, value: i64) -> bool {
    bound matches Some(b) ==> value < b
}

/// Whether `value` passes the three filters on one number: equality and the
/// two strict bounds. Filters that are absent let every value through.
pub open spec fn within(
    wanted: Option<i64>,
    low: Option<i64>,
    high: Option<i64>,
    value: i64,
) -> bool {
    equals(wanted, value) && above(low, value) && below(high, value)
}

/// Whether `value` passes the three filters on one number.
pub fn is_within(wanted: Option<i64>, low: Option<i64>, high: Option<i64>, value: i64) -> (passes:
    bool)
    ensures
        passes == within(wanted, low, high, value),
{
    let equal: bool = match wanted {
        Some(w) => value == w,
        None => true,
    };
    let over: bool = match low {
        Some(b) => value > b,
        None => true,
    };
    let under: bool = match high {
        Some(b) => value < b,
        None => true,
    };
    equal && over && under
}

/// Whether `value` passes a filter on a flag.
pub open spec fn flag_is(wanted: Option<bool>, value: bool) -> bool {
    wanted matches Some(w) ==> value == w
}

/// Whether `value` passes a filter on a flag.
pub fn is_flag(wanted: Option<bool>, value: bool) -> (passes: bool)
    ensures
        passes == flag_is(wanted, value),
{
    match wanted {
        Some(w) => value == w,
        None => true,
    }
}

/// Whether `value` passes a filter for an exact text.
pub open spec fn text_is(wanted: Option<String>, value: Seq<char>) -> bool {
    wanted matches Some(w) ==> value == w@
}

/// Whether `value` passes a filter for an exact text.
pub fn is_text(wanted: &Option<String>, value: &String) -> (passes: bool)
    ensures
        passes == text_is(*wanted, value@),
{
    match wanted {
        Some(w) => *value == *w,
        None => true,
    }
}

/// Whether `value` passes a search: the term occurs in it.
pub open spec fn found_in(term: Option<String>, value: Seq<char>) -> bool {
    term matches Some(t) ==> text_contains(value, t@)
}

/// Whether `value` passes a search.
pub fn is_found_in(term: &Option<String>, value: &String) -> (passes: bool)
    ensures
        passes == found_in(*term, value@),
{
    match term {
        Some(t) => contains_text(value, t),
        None => true,
    }
}

} // verus!
