//! Query parameters and the projection of raw index hits.
//!
//! A query against the external index carries a search text, one of eight
//! sort orders and a result cap, all passed through to the index verbatim.
//! The raw hits that come back — per row a path, a live directory check,
//! and three metadata fields, any of which the index may have failed to
//! supply — are projected here into compact records: a missing path aborts
//! the projection with an error naming the first such row, while a row
//! whose metadata is incomplete is skipped and the rest of the batch kept.
//! Output order is raw-hit order; nothing is re-sorted.

use vstd::prelude::*;

use crate::record::{CompactItem, ItemType};

verus! {

/// The sort order a query asks of the external index; a pure passthrough
/// parameter, never re-applied locally.
#[derive(Clone, Copy, Debug, PartialEq, Eq, Structural)]
pub enum SortOrder {
    PathAscending,
    PathDescending,
    SizeAscending,
    SizeDescending,
    DateCreatedAscending,
    DateCreatedDescending,
    DateModifiedAscending,
    DateModifiedDescending,
}

/// The parameters of one query against the external index.
///
/// `max_results` is the literal server-side cap: the index returns at most
/// that many hits. Zero means zero hits, not "no cap".
#[derive(Clone, Debug)]
pub struct SearchQuery {
    pub text: String,
    pub sort: SortOrder,
    pub max_results: u32,
}

impl SearchQuery {
    pub fn new(text: String, sort: SortOrder, max_results: u32) -> (q: SearchQuery)
        ensures
            q.text@ == text@,
            q.sort == sort,
            q.max_results == max_results,
    {
        SearchQuery { text, sort, max_results }
    }
}

/// One raw row from the external index, as the surrounding application
/// hands it over: the path (`None` where the index returned none for the
/// row), the live file-system directory check made at projection time, and
/// the three metadata fields (`None` where the row read failed).
#[derive(Clone, Debug)]
pub struct RawHit {
    pub full_path: Option<String>,
    pub is_directory: bool,
    pub size: Option<u64>,
    pub date_created: Option<u64>,
    pub date_modified: Option<u64>,
}

/// The mathematical value of a raw hit.
pub struct RawHitView {
    pub full_path: Option<Seq<char>>,
    pub is_directory: bool,
    pub size: Option<u64>,
    pub date_created: Option<u64>,
    pub date_modified: Option<u64>,
}

impl View for RawHit {
    type V = RawHitView;

    open spec fn view(&self) -> RawHitView {
        RawHitView {
            full_path: match self.full_path {
                Some(p) => Some(p@),
                None => None,
            },
            is_directory: self.is_directory,
            size: self.size,
            date_created: self.date_created,
            date_modified: self.date_modified,
        }
    }
}

/// The mathematical value of a compact record.
pub struct CompactItemView {
    pub item_type: ItemType,
    pub full_path: Seq<char>,
    pub size: u64,
    pub date_created: u64,
    pub date_modified: u64,
}

impl View for CompactItem {
    type V = CompactItemView;

    open spec fn view(&self) -> CompactItemView {
        CompactItemView {
            item_type: self.item_type,
            full_path: self.full_path@,
            size: self.size,
            date_created: self.date_created,
            date_modified: self.date_modified,
        }
    }
}

/// A projection failure: the index returned no path for the row at `index`.
#[derive(Clone, Copy, Debug, PartialEq, Eq, Structural)]
pub enum ProjectionError {
    MissingPath { index: usize },
}

/// A raw hit whose every field the index supplied.
pub open spec fn hit_complete(h: RawHitView) -> bool {
    &&& h.full_path is Some
    &&& h.size is Some
    &&& h.date_created is Some
    &&& h.date_modified is Some
}

/// The compact record a complete raw hit normalizes to: a hit whose path
/// currently resolves to a directory is a `Dir`, every other a `File`.
pub open spec fn compact_of_hit(h: RawHitView) -> CompactItemView
    recommends
        hit_complete(h),
{
    CompactItemView {
        item_type: if h.is_directory {
            ItemType::Dir
        } else {
            ItemType::File
        },
        full_path: h.full_path->0,
        size: h.size->0,
        date_created: h.date_created->0,
        date_modified: h.date_modified->0,
    }
}

pub open spec fn hit_views(hits: Seq<RawHit>) -> Seq<RawHitView> {
    hits.map_values(|h: RawHit| h@)
}

pub open spec fn compact_views(items: Seq<CompactItem>) -> Seq<CompactItemView> {
    items.map_values(|c: CompactItem| c@)
}

/// The compact records of a raw result set, in order: each complete hit
/// normalized, each incomplete one skipped.
pub open spec fn projected_compacts(hits: Seq<RawHitView>) -> Seq<CompactItemView>
    decreases hits.len(),
{
    if hits.len() == 0 {
        Seq::empty()
    } else {
        projected_compacts(hits.drop_last()) + (if hit_complete(hits.last()) {
            seq![compact_of_hit(hits.last())]
        } else {
            Seq::empty()
        })
    }
}

/// Projects a raw result set into compact records. Succeeds exactly when
/// the index supplied a path for every row; a missing path yields the error
/// naming the first such row. Rows with incomplete metadata are skipped,
/// order is kept, and an empty result set yields an empty record set, not
/// an error.
pub fn compact_items_from_hits(hits: &Vec<RawHit>) -> (r: Result<
    Vec<CompactItem>,
    ProjectionError,
>)
    ensures
        r matches Ok(v) ==> compact_views(v@) == projected_compacts(hit_views(hits@)),
        r is Ok <==> (forall|i: int| 0 <= i < hits@.len() ==> hits@[i].full_path is Some),
        r matches Err(ProjectionError::MissingPath { index }) ==> index < hits@.len()
            && hits@[index as int].full_path is None && (forall|j: int|
            0 <= j < index ==> hits@[j].full_path is Some),
        hits@.len() == 0 ==> (r matches Ok(v) && v@.len() == 0),
{
    let ghost hv = hit_views(hits@);
    let mut items: Vec<CompactItem> = Vec::new();
    let mut idx: usize = 0;
    while idx < hits.len()
        invariant
            hv == hit_views(hits@),
            idx <= hits@.len(),
            compact_views(items@) == projected_compacts(hv.take(idx as int)),
            forall|j: int| 0 <= j < idx ==> hits@[j].full_path is Some,
        decreases hits@.len() - idx,
    {
        let ghost prev_items = items@;
        let h = &hits[idx];
        match &h.full_path {
            None => {
                return Err(ProjectionError::MissingPath { index: idx });
            },
            Some(path) => {
                match (h.size, h.date_created, h.date_modified) {
                    (Some(size), Some(date_created), Some(date_modified)) => {
                        let c = CompactItem {
                            item_type: if h.is_directory {
                                ItemType::Dir
                            } else {
                                ItemType::File
                            },
                            full_path: path.clone(),
                            size,
                            date_created,
                            date_modified,
                        };
                        proof {
                            assert(c@ == compact_of_hit(hv[idx as int]));
                        }
                        items.push(c);
                        proof {
                            assert(compact_views(items@) =~= compact_views(prev_items).push(
                                compact_of_hit(hv[idx as int]),
                            ));
                        }
                    },
                    _ => {},
                }
            },
        }
        proof {
            assert(hv.take(idx + 1 as int).drop_last() =~= hv.take(idx as int));
            assert(hv.take(idx + 1 as int).last() == hv[idx as int]);
            if hit_complete(hv[idx as int]) {
                assert(compact_views(items@) =~= projected_compacts(hv.take(idx as int)) + seq![
                    compact_of_hit(hv[idx as int]),
                ]);
            } else {
                assert(compact_views(items@) =~= projected_compacts(hv.take(idx as int))
                    + Seq::<CompactItemView>::empty());
            }
        }
        idx = idx + 1;
    }
    proof {
        assert(hv.take(hits@.len() as int) =~= hv);
    }
    Ok(items)
}

/// Re-applies the result cap client-side: keeps the first `result_limit`
/// hits and drops the rest. A cap of zero keeps nothing — zero is a real
/// cap, not "unlimited".
pub fn apply_result_limit(hits: Vec<RawHit>, result_limit: u32) -> (r: Vec<RawHit>)
    ensures
        hits@.len() <= result_limit ==> r@ == hits@,
        hits@.len() > result_limit ==> r@ == hits@.take(result_limit as int),
        r@.len() <= result_limit,
{
    let mut hits = hits;
    if hits.len() > result_limit as usize {
        hits.truncate(result_limit as usize);
    }
    hits
}

} // verus!
