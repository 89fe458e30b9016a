use crate::api_prelude::PaginatedResponse;
use crate::api_prelude::SortOrder;
use crate::database::models::Tag;
use crate::database::models::TagView;
use crate::database::store::Store;
use crate::database::store::StoreView;
use crate::database::store::lemma_index_of_unique;
use crate::database::store::tag_ids;
use crate::database::store::tag_views;
use crate::errors::ApiError;
use crate::listing::SortKey;
use crate::listing::SortKeyView;
use crate::listing::count_rows;
use crate::listing::key_views;
use crate::listing::page;
use crate::listing::page_of;
use crate::listing::row_count;
use crate::listing::sort;
use crate::listing::sorted_by;
use crate::text::chars_of;
use vstd::prelude::*;
use vstd::string::*;

verus! {

/// The column by which a listing of tags is sorted.
#[derive(Debug, Clone, Copy, PartialEq, Eq, Structural)]
pub enum SortBy {
    Name,
}

/// The sort and the page of a listing of tags.
pub struct GetTagsParams {
    /// Sort order
    pub sort_order: Option<SortOrder>,
    /// Sort by specified field
    pub sort_by: Option<SortBy>,
    /// Data list offset
    pub offset: Option<i64>,
    /// Data list limit
    pub limit: Option<i64>,
}

/// The positions `0` to `len - 1`, in rising order: a table in storage
/// order.
pub open spec fn storage_order(len: nat) -> Seq<usize> {
    Seq::new(len, |i: int| i as usize)
}

/// For each tag, in storage order, the name by which it is sorted.
pub open spec fn tag_keys(rows: Seq<TagView>) -> Seq<SortKeyView> {
    Seq::new(rows.len(), |i: int| SortKeyView::Text(rows[i].name))
}

/// The positions of the tags in the order in which a listing answers them
/// before it is cut to a page: sorted by name where a column and a direction
/// are both given, and in storage order otherwise.
pub open spec fn tag_order(rows: Seq<TagView>, p: GetTagsParams) -> Seq<usize> {
    match (p.sort_by, p.sort_order) {
        (Some(_), Some(direction)) => sorted_by(
            storage_order(rows.len()),
            tag_keys(rows),
            direction == SortOrder::Desc,
        ),
        _ => storage_order(rows.len()),
    }
}

/// The positions of the tags that a listing with the parameters `p` answers.
pub open spec fn tag_listing(rows: Seq<TagView>, p: GetTagsParams) -> Seq<usize> {
    page(tag_order(rows, p), p.offset, p.limit)
}

/// The answers of a listing of tags with the parameters `p`.
pub open spec fn tag_page(s: StoreView, p: GetTagsParams) -> Seq<TagView> {
    let listing = tag_listing(s.tags, p);
    Seq::new(listing.len(), |k: int| s.tags[listing[k] as int])
}

/// Lists the tags, sorted by name where a column and a direction are both
/// given and in storage order otherwise, cut to the page that `offset` and
/// `limit` ask for. `total` counts the whole table.
pub fn get_tags(store: &Store, params: &GetTagsParams) -> (listed: PaginatedResponse<Tag>)
    ensures
        tag_views(listed.data@) == tag_page(store@, *params),
        listed.offset == params.offset,
        listed.limit == params.limit,
        listed.total == row_count(store@.tags.len()),
{
    let tags = store.tags();
    let count: usize = tags.len();
    assert(tag_views(tags@).len() == count);
    let mut all: Vec<usize> = Vec::new();
    let mut keys: Vec<SortKey> = Vec::new();
    let sorting: bool = params.sort_by.is_some() && params.sort_order.is_some();
    let mut i: usize = 0;
    while i < count
        invariant
            count == tags@.len(),
            tag_views(tags@) == store@.tags,
            i <= count,
            all@.len() == i,
            forall|j: int| 0 <= j < i ==> all@[j] == j,
            sorting ==> keys@.len() == i,
            sorting ==> forall|j: int|
                0 <= j < i ==> (#[trigger] keys@[j])@ == SortKeyView::Text(store@.tags[j].name),
        decreases count - i,
    {
        all.push(i);
        if sorting {
            assert(tag_views(tags@)[i as int] == tags@[i as int]@);
            keys.push(SortKey::Text(chars_of(&tags[i].name)));
        }
        i += 1;
    }
    assert(all@ =~= storage_order(store@.tags.len()));
    let ordered = match (params.sort_by, params.sort_order) {
        (Some(_), Some(direction)) => {
            assert(key_views(keys@) =~= tag_keys(store@.tags));
            sort(&all, &keys, direction == SortOrder::Desc)
        },
        _ => all,
    };
    assert(ordered@ == tag_order(store@.tags, *params));
    assert(forall|j: int| 0 <= j < ordered@.len() ==> ordered@[j] < count);
    let listing = page_of(&ordered, params.offset, params.limit);
    let mut data: Vec<Tag> = Vec::new();
    let mut k: usize = 0;
    while k < listing.len()
        invariant
            count == tags@.len(),
            tag_views(tags@) == store@.tags,
            k <= listing@.len(),
            listing@ == tag_listing(store@.tags, *params),
            forall|j: int| 0 <= j < listing@.len() ==> listing@[j] < count,
            data@.len() == k,
            forall|j: int|
                0 <= j < k ==> (#[trigger] data@[j])@ == store@.tags[listing@[j] as int],
        decreases listing@.len() - k,
    {
        let row = tags[listing[k]].clone();
        assert(tag_views(tags@)[listing@[k as int] as int] == row@);
        data.push(row);
        k += 1;
    }
    assert(tag_views(data@) =~= tag_page(store@, *params));
    PaginatedResponse::new(data, params.offset, params.limit, count_rows(count))
}

/// Fetches the tag with the identifier `id`. `NotFound` where no tag has
/// it.
pub fn get_tag(store: &Store, id: &String) -> (found: Result<Tag, ApiError>)
    requires
        store.wf(),
    ensures
        match found {
            Ok(tag) => tag_ids(store@.tags).contains(id@) && tag@ == store@.tags[tag_ids(
                store@.tags,
            ).index_of(id@)],
            Err(error) => error == ApiError::NotFound && !tag_ids(store@.tags).contains(id@),
        },
{
    match store.find_tag(id) {
        Some(i) => {
            let tags = store.tags();
            proof {
                lemma_index_of_unique(tag_ids(store@.tags), id@, i as int);
                assert(tag_views(tags@)[i as int] == tags@[i as int]@);
            }
            Ok(tags[i].clone())
        },
        None => Err(ApiError::NotFound),
    }
}

} // verus!
