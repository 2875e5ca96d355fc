//! Worker marketplace listings: at most one profile per user, with valid
//! coordinates and a bounded aggregate rating.
//!
//! Coordinates are carried in microdegrees (degree × 1,000,000) and the
//! aggregate rating in hundredths of a star, so that every rule over them
//! is exact integer arithmetic.

use vstd::prelude::*;

use crate::response::{ApiError, ErrorKind};

verus! {

/// Subscription tier, ordered `NoPlan < Silver < Gold`; a higher tier
/// ranks first in public search.
#[derive(Clone, Copy, Debug, PartialEq, Eq, Structural)]
pub enum SubscriptionPlan {
    NoPlan,
    Silver,
    Gold,
}

/// Ranking value of a tier.
pub open spec fn plan_rank(p: SubscriptionPlan) -> int {
    match p {
        SubscriptionPlan::NoPlan => 0,
        SubscriptionPlan::Silver => 1,
        SubscriptionPlan::Gold => 2,
    }
}

/// Executable tier rank, used by the sort comparator.
pub fn plan_rank_u8(p: SubscriptionPlan) -> (r: u8)
    ensures
        r as int == plan_rank(p),
{
    match p {
        SubscriptionPlan::NoPlan => 0,
        SubscriptionPlan::Silver => 1,
        SubscriptionPlan::Gold => 2,
    }
}

/// A geographic point in microdegrees: latitude in [-90e6, 90e6],
/// longitude in [-180e6, 180e6].
#[derive(Clone, Copy, Debug, PartialEq, Eq, Structural)]
pub struct GeoPoint {
    pub lat_micro: i64,
    pub lon_micro: i64,
}

pub open spec fn valid_lat(lat: int) -> bool {
    -90_000_000 <= lat <= 90_000_000
}

pub open spec fn valid_lon(lon: int) -> bool {
    -180_000_000 <= lon <= 180_000_000
}

pub open spec fn valid_point(p: GeoPoint) -> bool {
    valid_lat(p.lat_micro as int) && valid_lon(p.lon_micro as int)
}

/// A worker's marketplace listing.
#[derive(Debug)]
pub struct WorkerProfile {
    pub id: u64,
    pub user_id: u64,
    pub categories: Vec<String>,
    pub subcategories: Vec<String>,
    pub experience_years: u32,
    pub description: Option<String>,
    pub hourly_rate: u64,
    pub license_number: Option<String>,
    pub service_areas: Vec<String>,
    pub subscription_plan: SubscriptionPlan,
    pub subscription_expires_at: Option<u64>,
    pub is_verified: bool,
    pub is_available: bool,
    /// Aggregate rating in hundredths of a star, at most 500.
    pub rating_centi: u32,
    pub total_reviews: u32,
    pub total_jobs_completed: u32,
    pub location: GeoPoint,
    pub created_at: u64,
    pub updated_at: u64,
}

/// Per-record invariant: the rating stays on the five-star scale and the
/// location is a valid point.
pub open spec fn profile_wf(w: WorkerProfile) -> bool {
    &&& w.rating_centi <= 500
    &&& valid_point(w.location)
}

/// Fields of a new listing.
#[derive(Debug)]
pub struct CreateWorkerProfileDto {
    pub categories: Vec<String>,
    pub subcategories: Vec<String>,
    pub experience_years: u32,
    pub description: Option<String>,
    pub hourly_rate: u64,
    pub license_number: Option<String>,
    pub service_areas: Vec<String>,
    pub latitude_micro: Option<i64>,
    pub longitude_micro: Option<i64>,
}

/// Partial-field merge applied by the owner or an admin.
#[derive(Debug)]
pub struct UpdateWorkerProfileDto {
    pub categories: Option<Vec<String>>,
    pub subcategories: Option<Vec<String>>,
    pub experience_years: Option<u32>,
    pub description: Option<String>,
    pub hourly_rate: Option<u64>,
    pub service_areas: Option<Vec<String>>,
    pub is_available: Option<bool>,
}

/// Index of the first profile owned by `uid`, or `-1` when absent.
pub open spec fn index_of_user(workers: Seq<WorkerProfile>, uid: u64) -> int
    decreases workers.len(),
{
    if workers.len() == 0 {
        -1
    } else if workers[0].user_id == uid {
        0
    } else {
        let r = index_of_user(workers.skip(1), uid);
        if r < 0 {
            -1
        } else {
            r + 1
        }
    }
}

/// `index_of_user` returns the least owning index, or `-1` exactly when
/// no profile is owned by `uid`.
pub proof fn lemma_index_of_user_props(workers: Seq<WorkerProfile>, uid: u64)
    ensures
        index_of_user(workers, uid) == -1 <==> (forall|i: int|
            0 <= i < workers.len() ==> workers[i].user_id != uid),
        index_of_user(workers, uid) != -1 ==> {
            &&& 0 <= index_of_user(workers, uid) < workers.len()
            &&& workers[index_of_user(workers, uid)].user_id == uid
            &&& forall|k: int| 0 <= k < index_of_user(workers, uid) ==> workers[k].user_id != uid
        },
    decreases workers.len(),
{
    if workers.len() > 0 && workers[0].user_id != uid {
        lemma_index_of_user_props(workers.skip(1), uid);
        let r = index_of_user(workers.skip(1), uid);
        assert forall|i: int|
            0 <= i < workers.skip(1).len() implies workers.skip(1)[i] == workers[i + 1] by {}
        if r == -1 {
            assert forall|i: int| 0 <= i < workers.len() implies workers[i].user_id != uid by {
                if i > 0 {
                    assert(workers.skip(1)[i - 1] == workers[i]);
                }
            }
        } else {
            assert(workers[r + 1] == workers.skip(1)[r]);
            assert forall|k: int| 0 <= k < r + 1 implies workers[k].user_id != uid by {
                if k > 0 {
                    assert(workers.skip(1)[k - 1] == workers[k]);
                }
            }
        }
    }
}

/// The worker-profile collection, keyed by owning user.
pub struct WorkerStore {
    pub workers: Vec<WorkerProfile>,
    pub next_id: u64,
}

impl WorkerStore {
    /// Well-formedness: ids unique and below `next_id`, at most one
    /// profile per user, every record valid.
    pub open spec fn wf(self) -> bool {
        &&& forall|i: int| 0 <= i < self.workers@.len() ==> #[trigger] self.workers@[i].id
            < self.next_id
        &&& forall|i: int, j: int|
            0 <= i < j < self.workers@.len() ==> self.workers@[i].id != self.workers@[j].id
        &&& forall|i: int, j: int|
            0 <= i < j < self.workers@.len() ==> self.workers@[i].user_id
                != self.workers@[j].user_id
        &&& forall|i: int| 0 <= i < self.workers@.len() ==> profile_wf(#[trigger] self.workers@[i])
    }

    /// Some profile is owned by `uid`.
    pub open spec fn has_user(self, uid: u64) -> bool {
        index_of_user(self.workers@, uid) >= 0
    }

    pub fn new() -> (s: WorkerStore)
        ensures
            s.wf(),
            s.workers@.len() == 0,
            s.next_id == 1,
    {
        WorkerStore { workers: Vec::new(), next_id: 1 }
    }

    /// Looks the profile of `user_id` up.
    pub fn find_by_user_id(&self, user_id: u64) -> (r: Option<&WorkerProfile>)
        ensures
            match r {
                Some(w) => exists|i: int|
                    0 <= i < self.workers@.len() && #[trigger] self.workers@[i] == *w
                        && self.workers@[i].user_id == user_id,
                None => forall|i: int|
                    0 <= i < self.workers@.len() ==> #[trigger] self.workers@[i].user_id
                        != user_id,
            },
    {
        let n = self.workers.len();
        let mut i: usize = 0;
        while i < n
            invariant
                0 <= i <= n,
                n == self.workers@.len(),
                forall|k: int| 0 <= k < i ==> #[trigger] self.workers@[k].user_id != user_id,
            decreases n - i,
        {
            if self.workers[i].user_id == user_id {
                return Some(&self.workers[i]);
            }
            i += 1;
        }
        None
    }

    /// Looks a profile up by its own id.
    pub fn find_by_id(&self, worker_id: u64) -> (r: Option<&WorkerProfile>)
        ensures
            match r {
                Some(w) => exists|i: int|
                    0 <= i < self.workers@.len() && #[trigger] self.workers@[i] == *w
                        && self.workers@[i].id == worker_id,
                None => forall|i: int|
                    0 <= i < self.workers@.len() ==> #[trigger] self.workers@[i].id != worker_id,
            },
    {
        let n = self.workers.len();
        let mut i: usize = 0;
        while i < n
            invariant
                0 <= i <= n,
                n == self.workers@.len(),
                forall|k: int| 0 <= k < i ==> #[trigger] self.workers@[k].id != worker_id,
            decreases n - i,
        {
            if self.workers[i].id == worker_id {
                return Some(&self.workers[i]);
            }
            i += 1;
        }
        None
    }

    /// Creates a listing for `user_id`. Fails with `Conflict` when one
    /// already exists and with `InvalidInput` on out-of-range
    /// coordinates; on failure the store is unchanged.
    pub fn create_worker_profile(&mut self, user_id: u64, dto: CreateWorkerProfileDto, now: u64)
        -> (r: Result<u64, ApiError>)
        requires
            old(self).wf(),
            old(self).next_id < u64::MAX,
        ensures
            final(self).wf(),
            match r {
                Ok(id) => {
                    &&& !old(self).has_user(user_id)
                    &&& id == old(self).next_id
                    &&& final(self).next_id == old(self).next_id + 1
                    &&& final(self).workers@.len() == old(self).workers@.len() + 1
                    &&& (forall|i: int|
                        0 <= i < old(self).workers@.len() ==> final(self).workers@[i] == old(
                            self,
                        ).workers@[i])
                    &&& ({
                        let w = final(self).workers@.last();
                        &&& w.id == id
                        &&& w.user_id == user_id
                        &&& w.categories == dto.categories
                        &&& w.subcategories == dto.subcategories
                        &&& w.experience_years == dto.experience_years
                        &&& w.description == dto.description
                        &&& w.hourly_rate == dto.hourly_rate
                        &&& w.license_number == dto.license_number
                        &&& w.service_areas == dto.service_areas
                        &&& w.subscription_plan == SubscriptionPlan::NoPlan
                        &&& w.subscription_expires_at is None
                        &&& !w.is_verified
                        &&& w.is_available
                        &&& w.rating_centi == 0
                        &&& w.total_reviews == 0
                        &&& w.total_jobs_completed == 0
                        &&& w.location.lat_micro as int == (match dto.latitude_micro {
                            Some(v) => v as int,
                            None => 0,
                        })
                        &&& w.location.lon_micro as int == (match dto.longitude_micro {
                            Some(v) => v as int,
                            None => 0,
                        })
                        &&& w.created_at == now
                        &&& w.updated_at == now
                    })
                },
                Err(e) => {
                    &&& *final(self) == *old(self)
                    &&& (e.kind == ErrorKind::Conflict <==> old(self).has_user(user_id))
                    &&& (e.kind == ErrorKind::Conflict || e.kind == ErrorKind::InvalidInput)
                    &&& (e.kind == ErrorKind::InvalidInput ==> !(valid_lat(
                        match dto.latitude_micro {
                            Some(v) => v as int,
                            None => 0,
                        },
                    ) && valid_lon(
                        match dto.longitude_micro {
                            Some(v) => v as int,
                            None => 0,
                        },
                    )))
                },
            },
    {
        let ghost pre = *self;
        if self.exists_user(user_id) {
            return Err(ApiError::conflict("Worker profile already exists"));
        }
        let lat: i64 = match dto.latitude_micro {
            Some(v) => v,
            None => 0,
        };
        let lon: i64 = match dto.longitude_micro {
            Some(v) => v,
            None => 0,
        };
        if lat < -90_000_000 || lat > 90_000_000 {
            return Err(ApiError::bad_request("Invalid latitude"));
        }
        if lon < -180_000_000 || lon > 180_000_000 {
            return Err(ApiError::bad_request("Invalid longitude"));
        }
        let id = self.next_id;
        self.next_id = self.next_id + 1;
        let w = WorkerProfile {
            id,
            user_id,
            categories: dto.categories,
            subcategories: dto.subcategories,
            experience_years: dto.experience_years,
            description: dto.description,
            hourly_rate: dto.hourly_rate,
            license_number: dto.license_number,
            service_areas: dto.service_areas,
            subscription_plan: SubscriptionPlan::NoPlan,
            subscription_expires_at: None,
            is_verified: false,
            is_available: true,
            rating_centi: 0,
            total_reviews: 0,
            total_jobs_completed: 0,
            location: GeoPoint { lat_micro: lat, lon_micro: lon },
            created_at: now,
            updated_at: now,
        };
        self.workers.push(w);
        proof {
            let post = self.workers@;
            lemma_index_of_user_props(pre.workers@, user_id);
            assert forall|k: int| 0 <= k < post.len() implies #[trigger] post[k].id
                < self.next_id by {
                if k < post.len() - 1 {
                    assert(post[k] == pre.workers@[k]);
                }
            }
            assert forall|k: int, j: int|
                0 <= k < j < post.len() implies post[k].id != post[j].id by {
                assert(post[k] == pre.workers@[k]);
                if j < post.len() - 1 {
                    assert(post[j] == pre.workers@[j]);
                } else {
                    assert(pre.workers@[k].id < pre.next_id);
                }
            }
            assert forall|k: int, j: int|
                0 <= k < j < post.len() implies post[k].user_id != post[j].user_id by {
                assert(post[k] == pre.workers@[k]);
                if j < post.len() - 1 {
                    assert(post[j] == pre.workers@[j]);
                }
            }
            assert forall|k: int| 0 <= k < post.len() implies profile_wf(#[trigger] post[k]) by {
                if k < post.len() - 1 {
                    assert(post[k] == pre.workers@[k]);
                }
            }
        }
        Ok(id)
    }

    /// Reports whether a profile owned by `user_id` exists.
    pub fn exists_user(&self, user_id: u64) -> (r: bool)
        ensures
            r == self.has_user(user_id),
    {
        proof {
            lemma_index_of_user_props(self.workers@, user_id);
        }
        match self.find_by_user_id(user_id) {
            Some(_) => true,
            None => false,
        }
    }
}

/// The two profiles carry the same content: equal plain fields, equal
/// string views. A faithful copy of a record is `same_profile` to it.
pub open spec fn same_profile(a: WorkerProfile, b: WorkerProfile) -> bool {
    &&& a.id == b.id
    &&& a.user_id == b.user_id
    &&& a.categories@ == b.categories@
    &&& a.subcategories@ == b.subcategories@
    &&& a.experience_years == b.experience_years
    &&& a.description == b.description
    &&& a.hourly_rate == b.hourly_rate
    &&& a.license_number == b.license_number
    &&& a.service_areas@ == b.service_areas@
    &&& a.subscription_plan == b.subscription_plan
    &&& a.subscription_expires_at == b.subscription_expires_at
    &&& a.is_verified == b.is_verified
    &&& a.is_available == b.is_available
    &&& a.rating_centi == b.rating_centi
    &&& a.total_reviews == b.total_reviews
    &&& a.total_jobs_completed == b.total_jobs_completed
    &&& a.location == b.location
    &&& a.created_at == b.created_at
    &&& a.updated_at == b.updated_at
}

pub(crate) fn clone_string_vec(v: &Vec<String>) -> (r: Vec<String>)
    ensures
        r@ == v@,
{
    let n = v.len();
    let mut r: Vec<String> = Vec::new();
    let mut i: usize = 0;
    while i < n
        invariant
            0 <= i <= n,
            n == v@.len(),
            r@ == v@.take(i as int),
        decreases n - i,
    {
        r.push(v[i].clone());
        proof {
            assert(r@ =~= v@.take(i as int + 1));
        }
        i += 1;
    }
    proof {
        assert(v@.take(n as int) =~= v@);
    }
    r
}

impl WorkerProfile {
    /// A faithful copy of the record.
    pub fn duplicate(&self) -> (r: WorkerProfile)
        ensures
            same_profile(r, *self),
    {
        WorkerProfile {
            id: self.id,
            user_id: self.user_id,
            categories: clone_string_vec(&self.categories),
            subcategories: clone_string_vec(&self.subcategories),
            experience_years: self.experience_years,
            description: crate::users::clone_opt_string(&self.description),
            hourly_rate: self.hourly_rate,
            license_number: crate::users::clone_opt_string(&self.license_number),
            service_areas: clone_string_vec(&self.service_areas),
            subscription_plan: self.subscription_plan,
            subscription_expires_at: self.subscription_expires_at,
            is_verified: self.is_verified,
            is_available: self.is_available,
            rating_centi: self.rating_centi,
            total_reviews: self.total_reviews,
            total_jobs_completed: self.total_jobs_completed,
            location: self.location,
            created_at: self.created_at,
            updated_at: self.updated_at,
        }
    }
}

/// Lifetime of a purchased subscription, in seconds (one year).
pub const SUBSCRIPTION_TTL_SECS: u64 = 31536000;

/// `w` after a partial-field merge: fields present in the update replace
/// the old ones, the rest stay; `updated_at` is refreshed.
pub open spec fn apply_worker_update(w: WorkerProfile, dto: UpdateWorkerProfileDto, now: u64)
    -> WorkerProfile {
    WorkerProfile {
        id: w.id,
        user_id: w.user_id,
        categories: match dto.categories {
            Some(v) => v,
            None => w.categories,
        },
        subcategories: match dto.subcategories {
            Some(v) => v,
            None => w.subcategories,
        },
        experience_years: match dto.experience_years {
            Some(v) => v,
            None => w.experience_years,
        },
        description: if dto.description is Some {
            dto.description
        } else {
            w.description
        },
        hourly_rate: match dto.hourly_rate {
            Some(v) => v,
            None => w.hourly_rate,
        },
        license_number: w.license_number,
        service_areas: match dto.service_areas {
            Some(v) => v,
            None => w.service_areas,
        },
        subscription_plan: w.subscription_plan,
        subscription_expires_at: w.subscription_expires_at,
        is_verified: w.is_verified,
        is_available: match dto.is_available {
            Some(v) => v,
            None => w.is_available,
        },
        rating_centi: w.rating_centi,
        total_reviews: w.total_reviews,
        total_jobs_completed: w.total_jobs_completed,
        location: w.location,
        created_at: w.created_at,
        updated_at: now,
    }
}

/// `w` moved to a new location.
pub open spec fn with_location(w: WorkerProfile, p: GeoPoint, now: u64) -> WorkerProfile {
    WorkerProfile {
        id: w.id,
        user_id: w.user_id,
        categories: w.categories,
        subcategories: w.subcategories,
        experience_years: w.experience_years,
        description: w.description,
        hourly_rate: w.hourly_rate,
        license_number: w.license_number,
        service_areas: w.service_areas,
        subscription_plan: w.subscription_plan,
        subscription_expires_at: w.subscription_expires_at,
        is_verified: w.is_verified,
        is_available: w.is_available,
        rating_centi: w.rating_centi,
        total_reviews: w.total_reviews,
        total_jobs_completed: w.total_jobs_completed,
        location: p,
        created_at: w.created_at,
        updated_at: now,
    }
}

/// `w` moved to a new subscription tier.
pub open spec fn with_plan(w: WorkerProfile, plan: SubscriptionPlan, expires: u64, now: u64)
    -> WorkerProfile {
    WorkerProfile {
        id: w.id,
        user_id: w.user_id,
        categories: w.categories,
        subcategories: w.subcategories,
        experience_years: w.experience_years,
        description: w.description,
        hourly_rate: w.hourly_rate,
        license_number: w.license_number,
        service_areas: w.service_areas,
        subscription_plan: plan,
        subscription_expires_at: Some(expires),
        is_verified: w.is_verified,
        is_available: w.is_available,
        rating_centi: w.rating_centi,
        total_reviews: w.total_reviews,
        total_jobs_completed: w.total_jobs_completed,
        location: w.location,
        created_at: w.created_at,
        updated_at: now,
    }
}

/// The verification flag an admin sets on a listing.
#[derive(Debug)]
pub struct UpdateWorkerVerificationDto {
    pub is_verified: bool,
}

/// `w` with its verification flag set.
pub open spec fn with_verification(w: WorkerProfile, v: bool, now: u64) -> WorkerProfile {
    WorkerProfile {
        id: w.id,
        user_id: w.user_id,
        categories: w.categories,
        subcategories: w.subcategories,
        experience_years: w.experience_years,
        description: w.description,
        hourly_rate: w.hourly_rate,
        license_number: w.license_number,
        service_areas: w.service_areas,
        subscription_plan: w.subscription_plan,
        subscription_expires_at: w.subscription_expires_at,
        is_verified: v,
        is_available: w.is_available,
        rating_centi: w.rating_centi,
        total_reviews: w.total_reviews,
        total_jobs_completed: w.total_jobs_completed,
        location: w.location,
        created_at: w.created_at,
        updated_at: now,
    }
}

/// The plan name a subscription purchase carries.
#[derive(Debug)]
pub struct UpdateSubscriptionDto {
    pub plan: String,
}

/// The plan a purchase names: only `silver` and `gold` can be bought.
pub open spec fn parse_plan_spec(s: Seq<char>) -> Option<SubscriptionPlan> {
    if s == "silver"@ {
        Some(SubscriptionPlan::Silver)
    } else if s == "gold"@ {
        Some(SubscriptionPlan::Gold)
    } else {
        None
    }
}

/// Parses a purchasable plan name.
pub fn parse_plan(s: &str) -> (r: Option<SubscriptionPlan>)
    ensures
        r == parse_plan_spec(s@),
{
    if crate::token::str_eq(s, "silver") {
        Some(SubscriptionPlan::Silver)
    } else if crate::token::str_eq(s, "gold") {
        Some(SubscriptionPlan::Gold)
    } else {
        None
    }
}

impl WorkerStore {
    /// Applies a partial-field merge to the profile owned by `user_id`;
    /// fails with `NotFound`, leaving the store unchanged, when none
    /// exists.
    pub fn update_worker_profile(&mut self, user_id: u64, dto: UpdateWorkerProfileDto, now: u64)
        -> (r: Result<(), ApiError>)
        requires
            old(self).wf(),
        ensures
            final(self).wf(),
            match r {
                Ok(()) => exists|i: int|
                    {
                        &&& 0 <= i < old(self).workers@.len()
                        &&& #[trigger] old(self).workers@[i].user_id == user_id
                        &&& final(self).workers@ == old(self).workers@.update(
                            i,
                            apply_worker_update(old(self).workers@[i], dto, now),
                        )
                        &&& final(self).next_id == old(self).next_id
                    },
                Err(e) => {
                    &&& e.kind == ErrorKind::NotFound
                    &&& *final(self) == *old(self)
                    &&& !old(self).has_user(user_id)
                },
            },
    {
        let ghost pre = *self;
        let n = self.workers.len();
        let mut i: usize = 0;
        while i < n
            invariant
                0 <= i <= n,
                n == self.workers@.len(),
                *self == pre,
                pre == *old(self),
                pre.wf(),
                forall|k: int| 0 <= k < i ==> #[trigger] pre.workers@[k].user_id != user_id,
            decreases n - i,
        {
            if self.workers[i].user_id == user_id {
                let mut w = self.workers.remove(i);
                w = WorkerProfile {
                    categories: match dto.categories {
                        Some(v) => v,
                        None => w.categories,
                    },
                    subcategories: match dto.subcategories {
                        Some(v) => v,
                        None => w.subcategories,
                    },
                    experience_years: match dto.experience_years {
                        Some(v) => v,
                        None => w.experience_years,
                    },
                    description: if dto.description.is_some() {
                        dto.description
                    } else {
                        w.description
                    },
                    hourly_rate: match dto.hourly_rate {
                        Some(v) => v,
                        None => w.hourly_rate,
                    },
                    service_areas: match dto.service_areas {
                        Some(v) => v,
                        None => w.service_areas,
                    },
                    is_available: match dto.is_available {
                        Some(v) => v,
                        None => w.is_available,
                    },
                    updated_at: now,
                    ..w
                };
                self.workers.insert(i, w);
                proof {
                    let upd = apply_worker_update(pre.workers@[i as int], dto, now);
                    assert(self.workers@ =~= pre.workers@.update(i as int, upd));
                    self.lemma_wf_after_update(pre, i as int, upd);
                }
                return Ok(());
            }
            i += 1;
        }
        proof {
            lemma_index_of_user_props(pre.workers@, user_id);
        }
        Err(ApiError::not_found("Worker profile not found"))
    }

    /// The update kept ids, owners, ratings and locations, so the store
    /// stays well-formed.
    proof fn lemma_wf_after_update(self, pre: WorkerStore, i: int, upd: WorkerProfile)
        requires
            pre.wf(),
            0 <= i < pre.workers@.len(),
            self.workers@ == pre.workers@.update(i, upd),
            self.next_id == pre.next_id,
            upd.id == pre.workers@[i].id,
            upd.user_id == pre.workers@[i].user_id,
            profile_wf(upd),
        ensures
            self.wf(),
    {
        let post = self.workers@;
        assert forall|k: int| 0 <= k < post.len() implies #[trigger] post[k].id < self.next_id by {
            if k != i {
                assert(post[k] == pre.workers@[k]);
            }
        }
        assert forall|k: int, j: int| 0 <= k < j < post.len() implies post[k].id != post[j].id by {
            if k != i {
                assert(post[k] == pre.workers@[k]);
            }
            if j != i {
                assert(post[j] == pre.workers@[j]);
            }
        }
        assert forall|k: int, j: int|
            0 <= k < j < post.len() implies post[k].user_id != post[j].user_id by {
            if k != i {
                assert(post[k] == pre.workers@[k]);
            }
            if j != i {
                assert(post[j] == pre.workers@[j]);
            }
        }
        assert forall|k: int| 0 <= k < post.len() implies profile_wf(#[trigger] post[k]) by {
            if k != i {
                assert(post[k] == pre.workers@[k]);
            }
        }
    }

    /// Deletes the profile owned by `user_id` (hard delete); fails with
    /// `NotFound`, leaving the store unchanged, when none exists.
    pub fn delete_worker_profile(&mut self, user_id: u64) -> (r: Result<(), ApiError>)
        requires
            old(self).wf(),
        ensures
            final(self).wf(),
            match r {
                Ok(()) => exists|i: int|
                    {
                        &&& 0 <= i < old(self).workers@.len()
                        &&& #[trigger] old(self).workers@[i].user_id == user_id
                        &&& final(self).workers@ == old(self).workers@.remove(i)
                        &&& final(self).next_id == old(self).next_id
                    },
                Err(e) => {
                    &&& e.kind == ErrorKind::NotFound
                    &&& *final(self) == *old(self)
                    &&& !old(self).has_user(user_id)
                },
            },
    {
        let ghost pre = *self;
        let n = self.workers.len();
        let mut i: usize = 0;
        while i < n
            invariant
                0 <= i <= n,
                n == self.workers@.len(),
                *self == pre,
                pre == *old(self),
                pre.wf(),
                forall|k: int| 0 <= k < i ==> #[trigger] pre.workers@[k].user_id != user_id,
            decreases n - i,
        {
            if self.workers[i].user_id == user_id {
                self.workers.remove(i);
                proof {
                    let post = self.workers@;
                    assert forall|k: int| 0 <= k < post.len() implies #[trigger] post[k].id
                        < self.next_id by {
                        if k < i {
                            assert(post[k] == pre.workers@[k]);
                        } else {
                            assert(post[k] == pre.workers@[k + 1]);
                        }
                    }
                    assert forall|k: int, j: int|
                        0 <= k < j < post.len() implies post[k].id != post[j].id by {
                        let k2 = if k < i {
                            k
                        } else {
                            k + 1
                        };
                        let j2 = if j < i {
                            j
                        } else {
                            j + 1
                        };
                        assert(post[k] == pre.workers@[k2]);
                        assert(post[j] == pre.workers@[j2]);
                    }
                    assert forall|k: int, j: int|
                        0 <= k < j < post.len() implies post[k].user_id != post[j].user_id by {
                        let k2 = if k < i {
                            k
                        } else {
                            k + 1
                        };
                        let j2 = if j < i {
                            j
                        } else {
                            j + 1
                        };
                        assert(post[k] == pre.workers@[k2]);
                        assert(post[j] == pre.workers@[j2]);
                    }
                    assert forall|k: int|
                        0 <= k < post.len() implies profile_wf(#[trigger] post[k]) by {
                        if k < i {
                            assert(post[k] == pre.workers@[k]);
                        } else {
                            assert(post[k] == pre.workers@[k + 1]);
                        }
                    }
                }
                return Ok(());
            }
            i += 1;
        }
        proof {
            lemma_index_of_user_props(pre.workers@, user_id);
        }
        Err(ApiError::not_found("Worker profile not found"))
    }

    /// Grants or revokes a listing's verification, by the listing's own
    /// id; fails with `NotFound`, leaving the store unchanged, when no
    /// record carries it.
    pub fn verify_worker(&mut self, worker_id: u64, dto: &UpdateWorkerVerificationDto, now: u64)
        -> (r: Result<(), ApiError>)
        requires
            old(self).wf(),
        ensures
            final(self).wf(),
            match r {
                Ok(()) => exists|i: int|
                    {
                        &&& 0 <= i < old(self).workers@.len()
                        &&& #[trigger] old(self).workers@[i].id == worker_id
                        &&& final(self).workers@ == old(self).workers@.update(
                            i,
                            with_verification(old(self).workers@[i], dto.is_verified, now),
                        )
                        &&& final(self).next_id == old(self).next_id
                    },
                Err(e) => {
                    &&& e.kind == ErrorKind::NotFound
                    &&& *final(self) == *old(self)
                    &&& forall|i: int|
                        0 <= i < old(self).workers@.len() ==> #[trigger] old(
                            self,
                        ).workers@[i].id != worker_id
                },
            },
    {
        let ghost pre = *self;
        let n = self.workers.len();
        let mut i: usize = 0;
        while i < n
            invariant
                0 <= i <= n,
                n == self.workers@.len(),
                *self == pre,
                pre == *old(self),
                pre.wf(),
                forall|k: int| 0 <= k < i ==> #[trigger] pre.workers@[k].id != worker_id,
            decreases n - i,
        {
            if self.workers[i].id == worker_id {
                let mut w = self.workers.remove(i);
                w = WorkerProfile { is_verified: dto.is_verified, updated_at: now, ..w };
                self.workers.insert(i, w);
                proof {
                    let upd = with_verification(pre.workers@[i as int], dto.is_verified, now);
                    assert(self.workers@ =~= pre.workers@.update(i as int, upd));
                    self.lemma_wf_after_update(pre, i as int, upd);
                }
                return Ok(());
            }
            i += 1;
        }
        Err(ApiError::not_found("Worker profile not found"))
    }

    /// Moves the worker's location. Rejects out-of-range coordinates with
    /// `InvalidInput` before touching any record; fails with `NotFound`
    /// when the user owns no profile. On any failure the store is
    /// unchanged.
    pub fn update_worker_location(&mut self, user_id: u64, lat_micro: i64, lon_micro: i64, now: u64)
        -> (r: Result<(), ApiError>)
        requires
            old(self).wf(),
        ensures
            final(self).wf(),
            match r {
                Ok(()) => {
                    &&& valid_lat(lat_micro as int)
                    &&& valid_lon(lon_micro as int)
                    &&& exists|i: int|
                        {
                            &&& 0 <= i < old(self).workers@.len()
                            &&& #[trigger] old(self).workers@[i].user_id == user_id
                            &&& final(self).workers@ == old(self).workers@.update(
                                i,
                                with_location(
                                    old(self).workers@[i],
                                    GeoPoint { lat_micro, lon_micro },
                                    now,
                                ),
                            )
                            &&& final(self).next_id == old(self).next_id
                        }
                },
                Err(e) => {
                    &&& *final(self) == *old(self)
                    &&& !valid_lat(lat_micro as int) ==> e.kind == ErrorKind::InvalidInput
                        && e.message@ == "Invalid latitude"@
                    &&& (valid_lat(lat_micro as int) && !valid_lon(lon_micro as int)) ==> e.kind
                        == ErrorKind::InvalidInput && e.message@ == "Invalid longitude"@
                    &&& (valid_lat(lat_micro as int) && valid_lon(lon_micro as int)) ==> e.kind
                        == ErrorKind::NotFound && !old(self).has_user(user_id)
                },
            },
    {
        if lat_micro < -90_000_000 || lat_micro > 90_000_000 {
            return Err(ApiError::bad_request("Invalid latitude"));
        }
        if lon_micro < -180_000_000 || lon_micro > 180_000_000 {
            return Err(ApiError::bad_request("Invalid longitude"));
        }
        let ghost pre = *self;
        let n = self.workers.len();
        let mut i: usize = 0;
        while i < n
            invariant
                0 <= i <= n,
                n == self.workers@.len(),
                *self == pre,
                pre == *old(self),
                pre.wf(),
                valid_lat(lat_micro as int),
                valid_lon(lon_micro as int),
                forall|k: int| 0 <= k < i ==> #[trigger] pre.workers@[k].user_id != user_id,
            decreases n - i,
        {
            if self.workers[i].user_id == user_id {
                let mut w = self.workers.remove(i);
                w = WorkerProfile {
                    location: GeoPoint { lat_micro, lon_micro },
                    updated_at: now,
                    ..w
                };
                self.workers.insert(i, w);
                proof {
                    let upd = with_location(
                        pre.workers@[i as int],
                        GeoPoint { lat_micro, lon_micro },
                        now,
                    );
                    assert(self.workers@ =~= pre.workers@.update(i as int, upd));
                    self.lemma_wf_after_update(pre, i as int, upd);
                }
                return Ok(());
            }
            i += 1;
        }
        proof {
            lemma_index_of_user_props(pre.workers@, user_id);
        }
        Err(ApiError::not_found("Worker profile not found"))
    }

    /// Moves the worker to a purchased tier, expiring one year after
    /// `now`. Rejects an unknown plan name with `InvalidInput` and a
    /// missing profile with `NotFound`; on failure the store is
    /// unchanged.
    pub fn update_subscription(&mut self, user_id: u64, dto: &UpdateSubscriptionDto, now: u64)
        -> (r: Result<u64, ApiError>)
        requires
            old(self).wf(),
            now + SUBSCRIPTION_TTL_SECS <= u64::MAX,
        ensures
            final(self).wf(),
            match r {
                Ok(expires) => {
                    &&& parse_plan_spec(dto.plan@) is Some
                    &&& expires == now + SUBSCRIPTION_TTL_SECS
                    &&& exists|i: int|
                        {
                            &&& 0 <= i < old(self).workers@.len()
                            &&& #[trigger] old(self).workers@[i].user_id == user_id
                            &&& final(self).workers@ == old(self).workers@.update(
                                i,
                                with_plan(
                                    old(self).workers@[i],
                                    parse_plan_spec(dto.plan@)->Some_0,
                                    expires,
                                    now,
                                ),
                            )
                            &&& final(self).next_id == old(self).next_id
                        }
                },
                Err(e) => {
                    &&& *final(self) == *old(self)
                    &&& (parse_plan_spec(dto.plan@) is None ==> e.kind == ErrorKind::InvalidInput)
                    &&& (parse_plan_spec(dto.plan@) is Some ==> e.kind == ErrorKind::NotFound
                        && !old(self).has_user(user_id))
                },
            },
    {
        let plan = match parse_plan(dto.plan.as_str()) {
            Some(p) => p,
            None => {
                return Err(ApiError::bad_request("Invalid plan. Use 'silver' or 'gold'"));
            },
        };
        let expires = now + SUBSCRIPTION_TTL_SECS;
        let ghost pre = *self;
        let n = self.workers.len();
        let mut i: usize = 0;
        while i < n
            invariant
                0 <= i <= n,
                n == self.workers@.len(),
                *self == pre,
                pre == *old(self),
                pre.wf(),
                Some(plan) == parse_plan_spec(dto.plan@),
                expires == now + SUBSCRIPTION_TTL_SECS,
                forall|k: int| 0 <= k < i ==> #[trigger] pre.workers@[k].user_id != user_id,
            decreases n - i,
        {
            if self.workers[i].user_id == user_id {
                let mut w = self.workers.remove(i);
                w = WorkerProfile {
                    subscription_plan: plan,
                    subscription_expires_at: Some(expires),
                    updated_at: now,
                    ..w
                };
                self.workers.insert(i, w);
                proof {
                    let upd = with_plan(pre.workers@[i as int], plan, expires, now);
                    assert(self.workers@ =~= pre.workers@.update(i as int, upd));
                    self.lemma_wf_after_update(pre, i as int, upd);
                }
                return Ok(expires);
            }
            i += 1;
        }
        proof {
            lemma_index_of_user_props(pre.workers@, user_id);
        }
        Err(ApiError::not_found("Worker profile not found"))
    }
}

} // verus!
