//! The worker ranking query planner: dynamic filter composition, the
//! tier-aware deterministic sort, pagination, and the fixed-radius
//! nearby search.

use vstd::prelude::*;

use crate::geo::{dist2_micro, dist2_micro_exec, within_radius, within_radius_exec};
use crate::response::{ApiError, ErrorKind};
use crate::token::str_eq;
use crate::worker::{plan_rank, plan_rank_u8, profile_wf, same_profile, valid_lat, valid_lon,
    WorkerProfile, WorkerStore};

verus! {

/// Filters of the public worker search. Absent filters do not constrain;
/// the baseline predicate always requires availability and verification.
#[derive(Debug)]
pub struct SearchWorkersQuery {
    pub category: Option<String>,
    pub subcategory: Option<String>,
    pub city: Option<String>,
    /// Inclusive lower bound on the aggregate rating, in hundredths.
    pub min_rating_centi: Option<u32>,
    pub page: Option<i64>,
    pub limit: Option<i64>,
}

/// Parameters of the nearby search: a center plus the category filters.
#[derive(Debug)]
pub struct NearbyWorkerQuery {
    pub latitude_micro: i64,
    pub longitude_micro: i64,
    pub category: Option<String>,
    pub subcategory: Option<String>,
    pub page: Option<i64>,
    pub limit: Option<i64>,
}

/// Page window of the admin stats listing.
#[derive(Debug)]
pub struct WorkerStatsQuery {
    pub page: Option<i64>,
    pub limit: Option<i64>,
}

/// `v` holds a string equal to `s`.
pub open spec fn contains_str(v: Seq<String>, s: Seq<char>) -> bool {
    exists|i: int| 0 <= i < v.len() && #[trigger] v[i]@ == s
}

fn contains_str_exec(v: &Vec<String>, s: &str) -> (r: bool)
    ensures
        r == contains_str(v@, s@),
{
    let n = v.len();
    let mut i: usize = 0;
    while i < n
        invariant
            0 <= i <= n,
            n == v@.len(),
            forall|k: int| 0 <= k < i ==> #[trigger] v@[k]@ != s@,
        decreases n - i,
    {
        if str_eq(v[i].as_str(), s) {
            return true;
        }
        i += 1;
    }
    false
}

/// The baseline search predicate: available, verified, and passing every
/// present filter.
pub open spec fn matches_search(w: WorkerProfile, q: SearchWorkersQuery) -> bool {
    &&& w.is_available
    &&& w.is_verified
    &&& match q.category {
        Some(c) => contains_str(w.categories@, c@),
        None => true,
    }
    &&& match q.subcategory {
        Some(c) => contains_str(w.subcategories@, c@),
        None => true,
    }
    &&& match q.min_rating_centi {
        Some(m) => w.rating_centi >= m,
        None => true,
    }
}

fn matches_search_exec(w: &WorkerProfile, q: &SearchWorkersQuery) -> (r: bool)
    ensures
        r == matches_search(*w, *q),
{
    if !w.is_available || !w.is_verified {
        return false;
    }
    match &q.category {
        Some(c) => {
            if !contains_str_exec(&w.categories, c.as_str()) {
                return false;
            }
        },
        None => {},
    }
    match &q.subcategory {
        Some(c) => {
            if !contains_str_exec(&w.subcategories, c.as_str()) {
                return false;
            }
        },
        None => {},
    }
    match &q.min_rating_centi {
        Some(m) => {
            if w.rating_centi < *m {
                return false;
            }
        },
        None => {},
    }
    true
}

/// The nearby predicate: verified, available, within the fixed radius of
/// the center, and passing the category filters.
pub open spec fn matches_nearby(w: WorkerProfile, q: NearbyWorkerQuery) -> bool {
    &&& w.is_available
    &&& w.is_verified
    &&& within_radius(
        q.latitude_micro as int,
        q.longitude_micro as int,
        w.location.lat_micro as int,
        w.location.lon_micro as int,
    )
    &&& match q.category {
        Some(c) => contains_str(w.categories@, c@),
        None => true,
    }
    &&& match q.subcategory {
        Some(c) => contains_str(w.subcategories@, c@),
        None => true,
    }
}

fn matches_nearby_exec(w: &WorkerProfile, q: &NearbyWorkerQuery) -> (r: bool)
    requires
        valid_lat(q.latitude_micro as int),
        valid_lon(q.longitude_micro as int),
        profile_wf(*w),
    ensures
        r == matches_nearby(*w, *q),
{
    if !w.is_available || !w.is_verified {
        return false;
    }
    if !within_radius_exec(
        q.latitude_micro,
        q.longitude_micro,
        w.location.lat_micro,
        w.location.lon_micro,
    ) {
        return false;
    }
    match &q.category {
        Some(c) => {
            if !contains_str_exec(&w.categories, c.as_str()) {
                return false;
            }
        },
        None => {},
    }
    match &q.subcategory {
        Some(c) => {
            if !contains_str_exec(&w.subcategories, c.as_str()) {
                return false;
            }
        },
        None => {},
    }
    true
}

/// The order in which results are listed.
#[derive(Clone, Copy, Debug)]
pub enum SortKey {
    /// Subscription plan descending, then rating descending, then review
    /// count descending: the public-search tier sort.
    TierRatingReviews,
    /// Creation time, newest first: the admin stats listing.
    CreatedDesc,
    /// Squared distance from the center, closest first: the nearby
    /// search.
    DistanceAsc { clat: i64, clon: i64 },
}

/// A distance key needs a valid center.
pub open spec fn key_wf(key: SortKey) -> bool {
    match key {
        SortKey::DistanceAsc { clat, clon } => valid_lat(clat as int) && valid_lon(clon as int),
        _ => true,
    }
}

/// `a` may be listed at or before `b`: a total preorder for each key.
pub open spec fn key_le(key: SortKey, a: WorkerProfile, b: WorkerProfile) -> bool {
    match key {
        SortKey::TierRatingReviews => {
            let pa = plan_rank(a.subscription_plan);
            let pb = plan_rank(b.subscription_plan);
            ||| pa > pb
            ||| (pa == pb && a.rating_centi > b.rating_centi)
            ||| (pa == pb && a.rating_centi == b.rating_centi && a.total_reviews
                >= b.total_reviews)
        },
        SortKey::CreatedDesc => a.created_at >= b.created_at,
        SortKey::DistanceAsc { clat, clon } => dist2_micro(
            clat as int,
            clon as int,
            a.location.lat_micro as int,
            a.location.lon_micro as int,
        ) <= dist2_micro(
            clat as int,
            clon as int,
            b.location.lat_micro as int,
            b.location.lon_micro as int,
        ),
    }
}

fn key_le_exec(key: SortKey, a: &WorkerProfile, b: &WorkerProfile) -> (r: bool)
    requires
        key_wf(key),
        profile_wf(*a),
        profile_wf(*b),
    ensures
        r == key_le(key, *a, *b),
{
    match key {
        SortKey::TierRatingReviews => {
            let pa = plan_rank_u8(a.subscription_plan);
            let pb = plan_rank_u8(b.subscription_plan);
            if pa != pb {
                pa > pb
            } else if a.rating_centi != b.rating_centi {
                a.rating_centi > b.rating_centi
            } else {
                a.total_reviews >= b.total_reviews
            }
        },
        SortKey::CreatedDesc => a.created_at >= b.created_at,
        SortKey::DistanceAsc { clat, clon } => {
            let da = dist2_micro_exec(clat, clon, a.location.lat_micro, a.location.lon_micro);
            let db = dist2_micro_exec(clat, clon, b.location.lat_micro, b.location.lon_micro);
            da <= db
        },
    }
}

/// The profiles selected by a sequence of indices.
pub open spec fn sel(workers: Seq<WorkerProfile>, idxs: Seq<usize>) -> Seq<WorkerProfile> {
    idxs.map_values(|i: usize| workers[i as int])
}

/// Every index is in range.
pub open spec fn idxs_ok(workers: Seq<WorkerProfile>, idxs: Seq<usize>) -> bool {
    forall|k: int| 0 <= k < idxs.len() ==> #[trigger] idxs[k] < workers.len()
}

/// The selected profiles are listed in key order.
pub open spec fn sorted_by_key(key: SortKey, s: Seq<WorkerProfile>) -> bool {
    forall|i: int, j: int| 0 <= i < j < s.len() ==> key_le(key, s[i], s[j])
}

proof fn lemma_key_le_total(key: SortKey, a: WorkerProfile, b: WorkerProfile)
    ensures
        key_le(key, a, b) || key_le(key, b, a),
{
}

proof fn lemma_key_le_trans(key: SortKey, a: WorkerProfile, b: WorkerProfile, c: WorkerProfile)
    requires
        key_le(key, a, b),
        key_le(key, b, c),
    ensures
        key_le(key, a, c),
{
}

proof fn lemma_insert_to_multiset(s: Seq<WorkerProfile>, j: int, v: WorkerProfile)
    requires
        0 <= j <= s.len(),
    ensures
        s.insert(j, v).to_multiset() =~= s.to_multiset().insert(v),
{
    broadcast use vstd::seq_lib::group_to_multiset_ensures;

    let t = s.insert(j, v);
    assert(t.remove(j) =~= s);
    assert(t[j] == v);
    assert(t.contains(v)) by {
        assert(t[j] == v);
    }
    assert(t.remove(j).to_multiset() =~= t.to_multiset().remove(t[j]));
    assert(s.to_multiset() =~= t.to_multiset().remove(v));
    assert(t.to_multiset().count(v) > 0);
    assert forall|a: WorkerProfile| true implies #[trigger] t.to_multiset().count(a)
        == s.to_multiset().insert(v).count(a) by {
        if a == v {
            assert(s.to_multiset().count(a) == t.to_multiset().count(a) - 1);
        } else {
            assert(s.to_multiset().count(a) == t.to_multiset().count(a));
        }
    }
    assert(t.to_multiset() =~= s.to_multiset().insert(v));
}

/// Reorders the index list so that the selected profiles come out in key
/// order; the selection holds exactly the same profiles as before.
pub fn sort_indices(workers: &Vec<WorkerProfile>, idxs: &mut Vec<usize>, key: SortKey)
    requires
        key_wf(key),
        idxs_ok(workers@, old(idxs)@),
        forall|i: int| 0 <= i < workers@.len() ==> profile_wf(#[trigger] workers@[i]),
    ensures
        final(idxs)@.len() == old(idxs)@.len(),
        idxs_ok(workers@, final(idxs)@),
        sel(workers@, final(idxs)@).to_multiset() == sel(workers@, old(idxs)@).to_multiset(),
        sorted_by_key(key, sel(workers@, final(idxs)@)),
{
    broadcast use vstd::seq_lib::group_to_multiset_ensures;

    let n = idxs.len();
    if n <= 1 {
        return;
    }
    let mut i: usize = 1;
    while i < n
        invariant
            1 <= i <= n,
            n == idxs@.len(),
            n == old(idxs)@.len(),
            key_wf(key),
            forall|t: int| 0 <= t < workers@.len() ==> profile_wf(#[trigger] workers@[t]),
            idxs_ok(workers@, idxs@),
            sel(workers@, idxs@).to_multiset() == sel(workers@, old(idxs)@).to_multiset(),
            sorted_by_key(key, sel(workers@, idxs@).take(i as int)),
        decreases n - i,
    {
        let ghost s_before = idxs@;
        let x = idxs.remove(i);
        let ghost s_rm = idxs@;
        proof {
            assert(x == s_before[i as int]);
            assert(s_rm == s_before.remove(i as int));
        }
        let mut j: usize = i;
        while j > 0 && !key_le_exec(key, &workers[idxs[j - 1]], &workers[x])
            invariant
                0 <= j <= i,
                i < n,
                idxs@ == s_rm,
                s_rm.len() == n - 1,
                key_wf(key),
                forall|t: int| 0 <= t < workers@.len() ==> profile_wf(#[trigger] workers@[t]),
                idxs_ok(workers@, s_rm),
                x < workers@.len(),
                forall|k: int|
                    j <= k < i ==> key_le(
                        key,
                        workers@[x as int],
                        workers@[#[trigger] s_rm[k] as int],
                    ),
            decreases j,
        {
            proof {
                lemma_key_le_total(key, workers@[s_rm[j - 1] as int], workers@[x as int]);
            }
            j -= 1;
        }
        idxs.insert(j, x);
        proof {
            broadcast use vstd::seq_lib::group_to_multiset_ensures;

            let w = workers@;
            let vx = w[x as int];
            let s_new = idxs@;
            assert(s_new == s_rm.insert(j as int, x));
            // The selection is the old selection with `vx` moved from
            // position `i` to position `j`.
            assert(sel(w, s_rm) =~= sel(w, s_before).remove(i as int));
            assert(sel(w, s_new) =~= sel(w, s_rm).insert(j as int, vx));
            assert(sel(w, s_before).to_multiset().count(vx) > 0) by {
                assert(sel(w, s_before)[i as int] == vx);
                assert(sel(w, s_before).contains(vx));
            }
            assert(sel(w, s_before).remove(i as int).to_multiset() =~= sel(
                w,
                s_before,
            ).to_multiset().remove(sel(w, s_before)[i as int]));
            assert(sel(w, s_rm).to_multiset() =~= sel(w, s_before).to_multiset().remove(vx));
            lemma_insert_to_multiset(sel(w, s_rm), j as int, vx);
            assert(sel(w, s_new).to_multiset() =~= sel(w, s_before).to_multiset().remove(
                vx,
            ).insert(vx));
            assert forall|a: WorkerProfile| true implies #[trigger] sel(
                w,
                s_new,
            ).to_multiset().count(a) == sel(w, s_before).to_multiset().count(a) by {}
            assert(sel(w, s_new).to_multiset() =~= sel(w, s_before).to_multiset());
            // The sorted prefix grew by one.
            let old_sel = sel(w, s_rm);
            let new_sel = sel(w, s_new);
            assert forall|p: int, q: int|
                0 <= p < q < i + 1 implies key_le(key, new_sel[p], new_sel[q]) by {
                let jj = j as int;
                assert forall|k: int| 0 <= k < s_rm.len() implies old_sel[k] == sel(
                    w,
                    s_before,
                )[if k < i {
                    k
                } else {
                    k + 1
                }] by {}
                if jj > 0 {
                    assert(key_le(key, old_sel[jj - 1], vx));
                }
                if p < jj && q == jj {
                    if p < jj - 1 {
                        assert(key_le(key, old_sel[p], old_sel[jj - 1]));
                        lemma_key_le_trans(key, old_sel[p], old_sel[jj - 1], vx);
                    }
                    assert(new_sel[p] == old_sel[p]);
                    assert(new_sel[q] == vx);
                } else if p < jj && q > jj {
                    assert(new_sel[p] == old_sel[p]);
                    assert(new_sel[q] == old_sel[q - 1]);
                    assert(key_le(key, old_sel[p], old_sel[q - 1]));
                } else if p == jj && q > jj {
                    assert(new_sel[p] == vx);
                    assert(new_sel[q] == old_sel[q - 1]);
                    assert(key_le(key, vx, old_sel[q - 1]));
                } else if p < jj && q < jj {
                    assert(new_sel[p] == old_sel[p]);
                    assert(new_sel[q] == old_sel[q]);
                } else {
                    assert(p > jj && q > jj);
                    assert(new_sel[p] == old_sel[p - 1]);
                    assert(new_sel[q] == old_sel[q - 1]);
                }
            }
            assert(sorted_by_key(key, sel(w, s_new).take(i as int + 1))) by {
                assert forall|p: int, q: int|
                    0 <= p < q < i + 1 implies #[trigger] key_le(
                        key,
                        sel(w, s_new).take(i as int + 1)[p],
                        sel(w, s_new).take(i as int + 1)[q],
                    ) by {
                    assert(sel(w, s_new).take(i as int + 1)[p] == new_sel[p]);
                    assert(sel(w, s_new).take(i as int + 1)[q] == new_sel[q]);
                }
            }
        }
        i += 1;
    }
    proof {
        assert(sel(workers@, idxs@).take(n as int) =~= sel(workers@, idxs@));
    }
}

proof fn lemma_sel_push(w: Seq<WorkerProfile>, r: Seq<usize>, x: usize)
    ensures
        sel(w, r.push(x)) == sel(w, r).push(w[x as int]),
{
    assert forall|k: int|
        0 <= k < r.push(x).len() implies #[trigger] sel(w, r.push(x))[k] == sel(w, r).push(
            w[x as int],
        )[k] by {
        if k < r.len() {
            assert(r.push(x)[k] == r[k]);
            assert(sel(w, r.push(x))[k] == w[r[k] as int]);
            assert(sel(w, r)[k] == w[r[k] as int]);
        } else {
            assert(r.push(x)[k] == x);
        }
    }
    assert(sel(w, r.push(x)) =~= sel(w, r).push(w[x as int]));
}

proof fn lemma_filter_take_step(
    s: Seq<WorkerProfile>,
    pred: spec_fn(WorkerProfile) -> bool,
    i: int,
)
    requires
        0 <= i < s.len(),
    ensures
        s.take(i + 1).filter(pred) == if pred(s[i]) {
            s.take(i).filter(pred).push(s[i])
        } else {
            s.take(i).filter(pred)
        },
{
    reveal(Seq::filter);
    assert(s.take(i + 1).drop_last() =~= s.take(i));
    assert(s.take(i + 1).last() == s[i]);
}

/// The search predicate as a value, shared by contracts and proofs.
pub open spec fn search_pred(q: SearchWorkersQuery) -> spec_fn(WorkerProfile) -> bool {
    |w: WorkerProfile| matches_search(w, q)
}

/// The nearby predicate as a value.
pub open spec fn nearby_pred(q: NearbyWorkerQuery) -> spec_fn(WorkerProfile) -> bool {
    |w: WorkerProfile| matches_nearby(w, q)
}

/// Faithful copies rank identically.
proof fn lemma_same_profile_key(
    key: SortKey,
    a: WorkerProfile,
    a2: WorkerProfile,
    b: WorkerProfile,
    b2: WorkerProfile,
)
    requires
        same_profile(a, a2),
        same_profile(b, b2),
    ensures
        key_le(key, a, b) == key_le(key, a2, b2),
{
}

/// Faithful copies match the same searches.
proof fn lemma_same_profile_matches(a: WorkerProfile, a2: WorkerProfile, q: SearchWorkersQuery)
    requires
        same_profile(a, a2),
    ensures
        matches_search(a, q) == matches_search(a2, q),
{
}

proof fn lemma_same_profile_matches_nearby(
    a: WorkerProfile,
    a2: WorkerProfile,
    q: NearbyWorkerQuery,
)
    requires
        same_profile(a, a2),
    ensures
        matches_nearby(a, q) == matches_nearby(a2, q),
{
}

/// The 1-indexed page number, clamped to at least 1; absent means 1.
pub open spec fn clamp_page_spec(p: Option<i64>) -> int {
    let v = match p {
        Some(v) => v as int,
        None => 1,
    };
    if v < 1 {
        1
    } else {
        v
    }
}

/// The page size, clamped into `[1, max]`; absent means 20.
pub open spec fn clamp_limit_spec(l: Option<i64>, max: int) -> int {
    let v = match l {
        Some(v) => v as int,
        None => 20,
    };
    if v < 1 {
        1
    } else if v > max {
        max
    } else {
        v
    }
}

fn clamp_page_exec(p: Option<i64>) -> (r: i64)
    ensures
        r as int == clamp_page_spec(p),
        r >= 1,
{
    let v = match p {
        Some(v) => v,
        None => 1,
    };
    if v < 1 {
        1
    } else {
        v
    }
}

fn clamp_limit_exec(l: Option<i64>, max: i64) -> (r: i64)
    requires
        1 <= max <= 100,
    ensures
        r as int == clamp_limit_spec(l, max as int),
        1 <= r <= max,
{
    let v = match l {
        Some(v) => v,
        None => 20,
    };
    if v < 1 {
        1
    } else if v > max {
        max
    } else {
        v
    }
}

/// Number of items on the page starting at `skip`.
pub open spec fn window_len(total: int, skip: int, limit: int) -> int {
    if skip >= total {
        0
    } else if skip + limit > total {
        total - skip
    } else {
        limit
    }
}

/// `ceil(total / limit)`, the page count.
pub open spec fn ceil_div(total: int, limit: int) -> int {
    if total <= 0 {
        0
    } else {
        (total - 1) / limit + 1
    }
}

/// A page of results with its pagination metadata.
#[derive(Debug)]
pub struct SearchResult {
    pub workers: Vec<WorkerProfile>,
    pub page: i64,
    pub limit: i64,
    pub total: u64,
    pub pages: u64,
}

/// Computes the page count `ceil(total / limit)`.
fn pages_exec(total: u64, limit: i64) -> (r: u64)
    requires
        1 <= limit <= 100,
    ensures
        r as int == ceil_div(total as int, limit as int),
{
    if total == 0 {
        0
    } else {
        (total - 1) / (limit as u64) + 1
    }
}

/// Copies the requested page out of the selected, ordered profiles.
fn page_window(workers: &Vec<WorkerProfile>, idxs: &Vec<usize>, page: i64, limit: i64) -> (r: Vec<
    WorkerProfile,
>)
    requires
        idxs_ok(workers@, idxs@),
        page >= 1,
        1 <= limit <= 100,
    ensures
        r@.len() == window_len(idxs@.len() as int, (page - 1) * limit, limit as int),
        forall|k: int|
            0 <= k < r@.len() ==> same_profile(
                #[trigger] r@[k],
                sel(workers@, idxs@)[(page - 1) * limit + k],
            ),
{
    let total: usize = idxs.len();
    let limit_u: u64 = limit as u64;
    let pgm1: u64 = (page - 1) as u64;
    let ghost skip = (page - 1) as int * limit as int;
    if pgm1 > (total as u64) / limit_u {
        proof {
            let t = total as int;
            let l = limit as int;
            let pm = (page - 1) as int;
            assert(pm >= t / l + 1);
            assert(pm * l >= (t / l + 1) * l) by (nonlinear_arith)
                requires
                    pm >= t / l + 1,
                    l >= 1,
            ;
            assert((t / l + 1) * l == (t / l) * l + l) by (nonlinear_arith);
            assert((t / l) * l + l > t) by (nonlinear_arith)
                requires
                    l >= 1,
                    t >= 0,
            ;
            assert(skip == pm * l);
            assert(skip >= t);
        }
        return Vec::new();
    }
    proof {
        let t = total as int;
        let l = limit as int;
        let pm = (page - 1) as int;
        assert(pm <= t / l);
        assert(pm * l <= (t / l) * l) by (nonlinear_arith)
            requires
                pm <= t / l,
                l >= 1,
                pm >= 0,
        ;
        assert((t / l) * l <= t) by (nonlinear_arith)
            requires
                l >= 1,
                t >= 0,
        ;
        assert(skip == pm * l);
        assert(0 <= skip <= t);
    }
    let skip_u: u64 = pgm1 * limit_u;
    let start: usize = skip_u as usize;
    let end: usize = if total - start < limit_u as usize {
        total
    } else {
        start + limit_u as usize
    };
    let mut r: Vec<WorkerProfile> = Vec::new();
    let mut k: usize = start;
    while k < end
        invariant
            start <= k <= end <= total,
            total == idxs@.len(),
            idxs_ok(workers@, idxs@),
            r@.len() == k - start,
            start == skip,
            forall|t: int|
                0 <= t < r@.len() ==> same_profile(
                    #[trigger] r@[t],
                    workers@[idxs@[start + t] as int],
                ),
        decreases end - k,
    {
        r.push(workers[idxs[k]].duplicate());
        k += 1;
    }
    proof {
        assert(r@.len() == window_len(idxs@.len() as int, skip, limit as int));
        assert forall|t: int| 0 <= t < r@.len() implies same_profile(
            #[trigger] r@[t],
            sel(workers@, idxs@)[skip + t],
        ) by {
            assert(sel(workers@, idxs@)[skip + t] == workers@[idxs@[skip + t] as int]);
        }
    }
    r
}

/// Indices of the profiles passing the public search filter, in store
/// order.
fn collect_search_indices(store: &WorkerStore, q: &SearchWorkersQuery) -> (r: Vec<usize>)
    ensures
        idxs_ok(store.workers@, r@),
        sel(store.workers@, r@) == store.workers@.filter(search_pred(*q)),
{
    let n = store.workers.len();
    let mut r: Vec<usize> = Vec::new();
    let mut i: usize = 0;
    while i < n
        invariant
            0 <= i <= n,
            n == store.workers@.len(),
            idxs_ok(store.workers@, r@),
            sel(store.workers@, r@) == store.workers@.take(i as int).filter(search_pred(*q)),
        decreases n - i,
    {
        let ghost w = store.workers@;
        let ghost pre_r = r@;
        proof {
            lemma_filter_take_step(w, search_pred(*q), i as int);
        }
        if matches_search_exec(&store.workers[i], q) {
            r.push(i);
            proof {
                lemma_sel_push(w, pre_r, i);
            }
        }
        i += 1;
    }
    proof {
        assert(store.workers@.take(n as int) =~= store.workers@);
    }
    r
}

/// Indices of the profiles passing the nearby filter, in store order.
fn collect_nearby_indices(store: &WorkerStore, q: &NearbyWorkerQuery) -> (r: Vec<usize>)
    requires
        valid_lat(q.latitude_micro as int),
        valid_lon(q.longitude_micro as int),
        forall|i: int| 0 <= i < store.workers@.len() ==> profile_wf(#[trigger] store.workers@[i]),
    ensures
        idxs_ok(store.workers@, r@),
        sel(store.workers@, r@) == store.workers@.filter(nearby_pred(*q)),
{
    let n = store.workers.len();
    let mut r: Vec<usize> = Vec::new();
    let mut i: usize = 0;
    while i < n
        invariant
            0 <= i <= n,
            n == store.workers@.len(),
            valid_lat(q.latitude_micro as int),
            valid_lon(q.longitude_micro as int),
            forall|t: int| 0 <= t < store.workers@.len() ==> profile_wf(
                #[trigger] store.workers@[t],
            ),
            idxs_ok(store.workers@, r@),
            sel(store.workers@, r@) == store.workers@.take(i as int).filter(nearby_pred(*q)),
        decreases n - i,
    {
        let ghost w = store.workers@;
        let ghost pre_r = r@;
        proof {
            lemma_filter_take_step(w, nearby_pred(*q), i as int);
        }
        if matches_nearby_exec(&store.workers[i], q) {
            r.push(i);
            proof {
                lemma_sel_push(w, pre_r, i);
            }
        }
        i += 1;
    }
    proof {
        assert(store.workers@.take(n as int) =~= store.workers@);
    }
    r
}

/// All indices of the store, in order.
fn collect_all_indices(store: &WorkerStore) -> (r: Vec<usize>)
    ensures
        idxs_ok(store.workers@, r@),
        sel(store.workers@, r@) == store.workers@,
{
    let n = store.workers.len();
    let mut r: Vec<usize> = Vec::new();
    let mut i: usize = 0;
    while i < n
        invariant
            0 <= i <= n,
            n == store.workers@.len(),
            idxs_ok(store.workers@, r@),
            sel(store.workers@, r@) == store.workers@.take(i as int),
        decreases n - i,
    {
        let ghost pre_r = r@;
        r.push(i);
        proof {
            lemma_sel_push(store.workers@, pre_r, i);
            assert(store.workers@.take(i as int + 1) =~= store.workers@.take(i as int).push(
                store.workers@[i as int],
            ));
        }
        i += 1;
    }
    proof {
        assert(store.workers@.take(n as int) =~= store.workers@);
    }
    r
}

/// Profiles counted by the admin stats.
pub open spec fn verified_pred() -> spec_fn(WorkerProfile) -> bool {
    |w: WorkerProfile| w.is_verified
}

pub open spec fn available_pred() -> spec_fn(WorkerProfile) -> bool {
    |w: WorkerProfile| w.is_available
}

pub open spec fn plan_pred(p: crate::worker::SubscriptionPlan) -> spec_fn(WorkerProfile) -> bool {
    |w: WorkerProfile| w.subscription_plan == p
}

/// Counters of the admin stats endpoint.
#[derive(Debug)]
pub struct WorkerStats {
    pub total_workers: u64,
    pub verified_workers: u64,
    pub available_workers: u64,
    pub silver_subscribers: u64,
    pub gold_subscribers: u64,
}

/// Counts the profiles satisfying `pred`, where `f` decides `pred`.
fn count_verified(store: &WorkerStore) -> (r: u64)
    ensures
        r as int == store.workers@.filter(verified_pred()).len(),
{
    let n = store.workers.len();
    let mut cnt: usize = 0;
    let mut i: usize = 0;
    while i < n
        invariant
            0 <= i <= n,
            n == store.workers@.len(),
            cnt == store.workers@.take(i as int).filter(verified_pred()).len(),
            cnt <= i,
        decreases n - i,
    {
        proof {
            lemma_filter_take_step(store.workers@, verified_pred(), i as int);
        }
        if store.workers[i].is_verified {
            cnt += 1;
        }
        i += 1;
    }
    proof {
        assert(store.workers@.take(n as int) =~= store.workers@);
    }
    cnt as u64
}

fn count_available(store: &WorkerStore) -> (r: u64)
    ensures
        r as int == store.workers@.filter(available_pred()).len(),
{
    let n = store.workers.len();
    let mut cnt: usize = 0;
    let mut i: usize = 0;
    while i < n
        invariant
            0 <= i <= n,
            n == store.workers@.len(),
            cnt == store.workers@.take(i as int).filter(available_pred()).len(),
            cnt <= i,
        decreases n - i,
    {
        proof {
            lemma_filter_take_step(store.workers@, available_pred(), i as int);
        }
        if store.workers[i].is_available {
            cnt += 1;
        }
        i += 1;
    }
    proof {
        assert(store.workers@.take(n as int) =~= store.workers@);
    }
    cnt as u64
}

fn count_plan(store: &WorkerStore, p: crate::worker::SubscriptionPlan) -> (r: u64)
    ensures
        r as int == store.workers@.filter(plan_pred(p)).len(),
{
    let n = store.workers.len();
    let mut cnt: usize = 0;
    let mut i: usize = 0;
    while i < n
        invariant
            0 <= i <= n,
            n == store.workers@.len(),
            cnt == store.workers@.take(i as int).filter(plan_pred(p)).len(),
            cnt <= i,
        decreases n - i,
    {
        proof {
            lemma_filter_take_step(store.workers@, plan_pred(p), i as int);
        }
        if store.workers[i].subscription_plan == p {
            cnt += 1;
        }
        i += 1;
    }
    proof {
        assert(store.workers@.take(n as int) =~= store.workers@);
    }
    cnt as u64
}

/// `all` is a key-ordered arrangement of the selection whose window at
/// `skip` the page copies faithfully.
pub open spec fn planner_window(
    r: SearchResult,
    matches: Seq<WorkerProfile>,
    key: SortKey,
    skip: int,
    all: Seq<WorkerProfile>,
) -> bool {
    &&& all.to_multiset() == matches.to_multiset()
    &&& all.len() == matches.len()
    &&& sorted_by_key(key, all)
    &&& (forall|k: int|
        0 <= k < r.workers@.len() ==> same_profile(#[trigger] r.workers@[k], all[skip + k]))
}

/// The page of results the planner owes for the given selection, order
/// and window: the metadata is exact, the page is sorted, and it is the
/// requested window of some key-ordered arrangement of the selection.
pub open spec fn planner_post(
    r: SearchResult,
    matches: Seq<WorkerProfile>,
    key: SortKey,
    page: int,
    limit: int,
) -> bool {
    let skip = (page - 1) * limit;
    &&& r.page as int == page
    &&& r.limit as int == limit
    &&& r.total as int == matches.len()
    &&& r.pages as int == ceil_div(matches.len() as int, limit)
    &&& r.workers@.len() == window_len(matches.len() as int, skip, limit)
    &&& sorted_by_key(key, r.workers@)
    &&& exists|all: Seq<WorkerProfile>| planner_window(r, matches, key, skip, all)
}

/// Shared tail of the planner: sort the selected indices, copy the page
/// window, assemble the metadata.
fn run_planner(store: &WorkerStore, idxs: Vec<usize>, key: SortKey, page: i64, limit: i64) -> (r:
    SearchResult)
    requires
        store.wf(),
        key_wf(key),
        idxs_ok(store.workers@, idxs@),
        page >= 1,
        1 <= limit <= 100,
    ensures
        planner_post(r, sel(store.workers@, idxs@), key, page as int, limit as int),
{
    broadcast use vstd::seq_lib::group_to_multiset_ensures;

    let ghost matches = sel(store.workers@, idxs@);
    let mut idxs = idxs;
    let total_usize = idxs.len();
    let total = total_usize as u64;
    proof {
        assert forall|t: int| 0 <= t < store.workers@.len() implies profile_wf(
            #[trigger] store.workers@[t],
        ) by {}
    }
    sort_indices(&store.workers, &mut idxs, key);
    let workers_page = page_window(&store.workers, &idxs, page, limit);
    let pages = pages_exec(total, limit);
    let r = SearchResult { workers: workers_page, page, limit, total, pages };
    proof {
        let w = store.workers@;
        let all = sel(w, idxs@);
        let skip = (page - 1) as int * limit as int;
        assert(all.to_multiset() == matches.to_multiset());
        assert(all.len() == matches.len()) by {
            assert(all.len() == all.to_multiset().len());
            assert(matches.len() == matches.to_multiset().len());
        }
        assert forall|p: int, q: int|
            0 <= p < q < r.workers@.len() implies key_le(
                key,
                #[trigger] r.workers@[p],
                #[trigger] r.workers@[q],
            ) by {
            assert(same_profile(r.workers@[p], all[skip + p]));
            assert(same_profile(r.workers@[q], all[skip + q]));
            assert(skip + q < all.len());
            assert(key_le(key, all[skip + p], all[skip + q]));
            lemma_same_profile_key(key, all[skip + p], r.workers@[p], all[skip + q], r.workers@[q]);
        }
        assert(planner_window(r, matches, key, skip, all));
        assert(exists|a: Seq<WorkerProfile>| planner_window(r, matches, key, skip, a));
    }
    r
}

/// The public worker search: composes the optional filters over the
/// baseline availability and verification predicate, orders by
/// subscription tier, then rating, then review count, each descending,
/// and returns the requested page with exact pagination metadata.
pub fn search_workers(store: &WorkerStore, q: &SearchWorkersQuery) -> (r: SearchResult)
    requires
        store.wf(),
    ensures
        planner_post(
            r,
            store.workers@.filter(search_pred(*q)),
            SortKey::TierRatingReviews,
            clamp_page_spec(q.page),
            clamp_limit_spec(q.limit, 100),
        ),
        forall|k: int|
            0 <= k < r.workers@.len() ==> matches_search(#[trigger] r.workers@[k], *q),
{
    broadcast use vstd::seq_lib::group_filter_ensures;

    let page = clamp_page_exec(q.page);
    let limit = clamp_limit_exec(q.limit, 100);
    let idxs = collect_search_indices(store, q);
    let ghost matches = store.workers@.filter(search_pred(*q));
    let r = run_planner(store, idxs, SortKey::TierRatingReviews, page, limit);
    proof {
        broadcast use vstd::seq_lib::group_to_multiset_ensures;

        let key = SortKey::TierRatingReviews;
        let skip = (clamp_page_spec(q.page) - 1) * clamp_limit_spec(q.limit, 100);
        let all = choose|all: Seq<WorkerProfile>| planner_window(r, matches, key, skip, all);
        assert forall|k: int| 0 <= k < r.workers@.len() implies matches_search(
            #[trigger] r.workers@[k],
            *q,
        ) by {
            let v = all[skip + k];
            assert(0 <= skip + k < all.len());
            assert(all.contains(v));
            assert(all.to_multiset().count(v) > 0);
            assert(matches.to_multiset().count(v) > 0);
            assert(matches.contains(v));
            let mi = choose|mi: int| 0 <= mi < matches.len() && matches[mi] == v;
            assert(search_pred(*q)(matches[mi]));
            assert(same_profile(r.workers@[k], v));
            lemma_same_profile_matches(r.workers@[k], v, *q);
        }
    }
    r
}

/// The nearby search: a fixed 10 km radius around the given center, the
/// availability/verification baseline plus the category filters, results
/// closest first, page size capped at 50. Rejects an out-of-range center
/// with `InvalidInput`.
pub fn find_nearby_workers(store: &WorkerStore, q: &NearbyWorkerQuery) -> (r: Result<
    SearchResult,
    ApiError,
>)
    requires
        store.wf(),
    ensures
        match r {
            Ok(res) => {
                &&& valid_lat(q.latitude_micro as int)
                &&& valid_lon(q.longitude_micro as int)
                &&& planner_post(
                    res,
                    store.workers@.filter(nearby_pred(*q)),
                    SortKey::DistanceAsc { clat: q.latitude_micro, clon: q.longitude_micro },
                    clamp_page_spec(q.page),
                    clamp_limit_spec(q.limit, 50),
                )
                &&& forall|k: int|
                    0 <= k < res.workers@.len() ==> matches_nearby(#[trigger] res.workers@[k], *q)
            },
            Err(e) => {
                &&& e.kind == ErrorKind::InvalidInput
                &&& !(valid_lat(q.latitude_micro as int) && valid_lon(q.longitude_micro as int))
            },
        },
{
    broadcast use vstd::seq_lib::group_filter_ensures;

    if q.latitude_micro < -90_000_000 || q.latitude_micro > 90_000_000 {
        return Err(ApiError::bad_request("Invalid latitude"));
    }
    if q.longitude_micro < -180_000_000 || q.longitude_micro > 180_000_000 {
        return Err(ApiError::bad_request("Invalid longitude"));
    }
    let page = clamp_page_exec(q.page);
    let limit = clamp_limit_exec(q.limit, 50);
    proof {
        assert forall|t: int| 0 <= t < store.workers@.len() implies profile_wf(
            #[trigger] store.workers@[t],
        ) by {}
    }
    let idxs = collect_nearby_indices(store, q);
    let ghost matches = store.workers@.filter(nearby_pred(*q));
    let key = SortKey::DistanceAsc { clat: q.latitude_micro, clon: q.longitude_micro };
    let res = run_planner(store, idxs, key, page, limit);
    proof {
        broadcast use vstd::seq_lib::group_to_multiset_ensures;

        let skip = (clamp_page_spec(q.page) - 1) * clamp_limit_spec(q.limit, 50);
        let all = choose|all: Seq<WorkerProfile>| planner_window(res, matches, key, skip, all);
        assert forall|k: int| 0 <= k < res.workers@.len() implies matches_nearby(
            #[trigger] res.workers@[k],
            *q,
        ) by {
            let v = all[skip + k];
            assert(0 <= skip + k < all.len());
            assert(all.contains(v));
            assert(all.to_multiset().count(v) > 0);
            assert(matches.to_multiset().count(v) > 0);
            assert(matches.contains(v));
            let mi = choose|mi: int| 0 <= mi < matches.len() && matches[mi] == v;
            assert(nearby_pred(*q)(matches[mi]));
            assert(same_profile(res.workers@[k], v));
            lemma_same_profile_matches_nearby(res.workers@[k], v, *q);
        }
    }
    Ok(res)
}

/// The admin stats: exact counters over the whole collection, plus a
/// page of all profiles, newest first.
pub fn get_worker_stats(store: &WorkerStore, q: &WorkerStatsQuery) -> (r: (
    WorkerStats,
    SearchResult,
))
    requires
        store.wf(),
    ensures
        r.0.total_workers == store.workers@.len(),
        r.0.verified_workers as int == store.workers@.filter(verified_pred()).len(),
        r.0.available_workers as int == store.workers@.filter(available_pred()).len(),
        r.0.silver_subscribers as int == store.workers@.filter(
            plan_pred(crate::worker::SubscriptionPlan::Silver),
        ).len(),
        r.0.gold_subscribers as int == store.workers@.filter(
            plan_pred(crate::worker::SubscriptionPlan::Gold),
        ).len(),
        planner_post(
            r.1,
            store.workers@,
            SortKey::CreatedDesc,
            clamp_page_spec(q.page),
            clamp_limit_spec(q.limit, 100),
        ),
{
    let page = clamp_page_exec(q.page);
    let limit = clamp_limit_exec(q.limit, 100);
    let stats = WorkerStats {
        total_workers: store.workers.len() as u64,
        verified_workers: count_verified(store),
        available_workers: count_available(store),
        silver_subscribers: count_plan(store, crate::worker::SubscriptionPlan::Silver),
        gold_subscribers: count_plan(store, crate::worker::SubscriptionPlan::Gold),
    };
    let idxs = collect_all_indices(store);
    let res = run_planner(store, idxs, SortKey::CreatedDesc, page, limit);
    (stats, res)
}

/// Size of page `p` (1-indexed) under the given total and page size.
pub open spec fn page_size(total: int, limit: int, p: int) -> int {
    window_len(total, (p - 1) * limit, limit)
}

/// Total of the sizes of the first `pages` pages.
pub open spec fn sum_page_sizes(total: int, limit: int, pages: int) -> int
    decreases pages,
{
    if pages <= 0 {
        0
    } else {
        sum_page_sizes(total, limit, pages - 1) + page_size(total, limit, pages)
    }
}

proof fn lemma_sum_page_sizes_min(total: int, limit: int, p: int)
    requires
        total >= 0,
        limit >= 1,
        p >= 0,
    ensures
        sum_page_sizes(total, limit, p) == if p * limit <= total {
            p * limit
        } else {
            total
        },
    decreases p,
{
    if p > 0 {
        lemma_sum_page_sizes_min(total, limit, p - 1);
        assert(p * limit == (p - 1) * limit + limit) by (nonlinear_arith);
        assert((p - 1) * limit >= 0) by (nonlinear_arith)
            requires
                p >= 1,
                limit >= 1,
        ;
    } else {
        assert(p * limit == 0) by (nonlinear_arith)
            requires
                p == 0,
        ;
    }
}

/// The pagination invariant: with the page count `ceil(total / limit)`,
/// the page sizes over all pages sum to exactly the total; the page
/// count is the least one whose capacity covers the total.
pub proof fn lemma_pagination_invariant(total: int, limit: int)
    requires
        total >= 0,
        limit >= 1,
    ensures
        sum_page_sizes(total, limit, ceil_div(total, limit)) == total,
        ceil_div(total, limit) * limit >= total,
        total > 0 ==> (ceil_div(total, limit) - 1) * limit < total,
{
    let pg = ceil_div(total, limit);
    if total > 0 {
        let d = (total - 1) / limit;
        vstd::arithmetic::div_mod::lemma_fundamental_div_mod(total - 1, limit);
        assert(total - 1 == limit * d + (total - 1) % limit);
        assert(0 <= (total - 1) % limit < limit) by {
            vstd::arithmetic::div_mod::lemma_mod_bound(total - 1, limit);
        }
        assert(pg == d + 1);
        assert(pg * limit == d * limit + limit) by (nonlinear_arith)
            requires
                pg == d + 1,
        ;
        assert(limit * d == d * limit) by (nonlinear_arith);
        assert(pg * limit >= total);
        assert((pg - 1) * limit == d * limit) by (nonlinear_arith)
            requires
                pg == d + 1,
        ;
        assert((pg - 1) * limit < total);
    }
    lemma_sum_page_sizes_min(total, limit, pg);
}

/// The ranking law of paid tiers: a gold-plan profile sorts before a
/// silver-plan profile whatever their ratings and review counts.
pub proof fn lemma_gold_outranks_silver(a: WorkerProfile, b: WorkerProfile)
    requires
        a.subscription_plan == crate::worker::SubscriptionPlan::Gold,
        b.subscription_plan == crate::worker::SubscriptionPlan::Silver,
    ensures
        key_le(SortKey::TierRatingReviews, a, b),
        !key_le(SortKey::TierRatingReviews, b, a),
{
}

/// In any tier-sorted listing the subscription ranks never increase.
pub proof fn lemma_sorted_plans_descend(s: Seq<WorkerProfile>, i: int, j: int)
    requires
        sorted_by_key(SortKey::TierRatingReviews, s),
        0 <= i < j < s.len(),
    ensures
        plan_rank(s[i].subscription_plan) >= plan_rank(s[j].subscription_plan),
{
    assert(key_le(SortKey::TierRatingReviews, s[i], s[j]));
}

} // verus!
