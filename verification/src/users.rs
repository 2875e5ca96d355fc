//! The user identity store: one record per phone number, created on the
//! first successful OTP verification and reused afterwards.

use vstd::prelude::*;

use crate::response::{ApiError, ErrorKind};
use crate::token::str_eq;

verus! {

/// Identity-verification status gating sensitive actions.
#[derive(Clone, Copy, Debug, PartialEq, Eq, Structural)]
pub enum KycStatus {
    Pending,
    Submitted,
    Approved,
    Rejected,
}

/// Push-notification token per platform.
#[derive(Debug)]
pub struct FcmToken {
    pub android: Option<String>,
    pub ios: Option<String>,
}

/// The identity record. The phone number is the natural key: immutable and
/// unique across the store.
#[derive(Debug)]
pub struct User {
    pub id: u64,
    pub mobile: String,
    pub email: Option<String>,
    pub name: Option<String>,
    pub profile_photo: Option<String>,
    pub city: Option<String>,
    pub pincode: Option<String>,
    pub kyc_status: KycStatus,
    pub is_active: bool,
    pub fcm_token: Option<FcmToken>,
    pub subscription_id: Option<u64>,
    pub subscription_plan: Option<String>,
    pub subscription_expires_at: Option<u64>,
    pub last_login_at: u64,
    pub created_at: u64,
    pub updated_at: u64,
}

/// Partial profile update applied by the owner.
#[derive(Debug)]
pub struct UpdateProfileDto {
    pub name: Option<String>,
    pub email: Option<String>,
    pub city: Option<String>,
    pub pincode: Option<String>,
    pub profile_photo: Option<String>,
}

/// Index of the first user holding `m` as mobile, or `-1` when absent.
pub open spec fn index_of_mobile(users: Seq<User>, m: Seq<char>) -> int
    decreases users.len(),
{
    if users.len() == 0 {
        -1
    } else if users[0].mobile@ == m {
        0
    } else {
        let r = index_of_mobile(users.skip(1), m);
        if r < 0 {
            -1
        } else {
            r + 1
        }
    }
}

/// Number of users holding `m` as mobile.
pub open spec fn count_mobile(users: Seq<User>, m: Seq<char>) -> nat
    decreases users.len(),
{
    if users.len() == 0 {
        0
    } else {
        count_mobile(users.drop_last(), m) + if users.last().mobile@ == m {
            1nat
        } else {
            0nat
        }
    }
}

/// `index_of_mobile` returns the least matching index, or `-1` exactly
/// when no user holds the mobile.
pub proof fn lemma_index_of_mobile_props(users: Seq<User>, m: Seq<char>)
    ensures
        index_of_mobile(users, m) == -1 <==> (forall|i: int|
            0 <= i < users.len() ==> users[i].mobile@ != m),
        index_of_mobile(users, m) != -1 ==> {
            &&& 0 <= index_of_mobile(users, m) < users.len()
            &&& users[index_of_mobile(users, m)].mobile@ == m
            &&& forall|k: int| 0 <= k < index_of_mobile(users, m) ==> users[k].mobile@ != m
        },
    decreases users.len(),
{
    if users.len() > 0 && users[0].mobile@ != m {
        lemma_index_of_mobile_props(users.skip(1), m);
        let r = index_of_mobile(users.skip(1), m);
        assert forall|i: int|
            0 <= i < users.skip(1).len() implies users.skip(1)[i] == users[i + 1] by {}
        if r == -1 {
            assert forall|i: int| 0 <= i < users.len() implies users[i].mobile@ != m by {
                if i > 0 {
                    assert(users.skip(1)[i - 1] == users[i]);
                }
            }
        } else {
            assert(users[r + 1] == users.skip(1)[r]);
            assert forall|k: int| 0 <= k < r + 1 implies users[k].mobile@ != m by {
                if k > 0 {
                    assert(users.skip(1)[k - 1] == users[k]);
                }
            }
        }
    }
}

/// The identity store, owned exclusively by this core.
pub struct UserStore {
    pub users: Vec<User>,
    pub next_id: u64,
}

impl UserStore {
    /// Well-formedness: ids are unique and below `next_id`; mobiles are
    /// unique.
    pub open spec fn wf(self) -> bool {
        &&& forall|i: int| 0 <= i < self.users@.len() ==> #[trigger] self.users@[i].id
            < self.next_id
        &&& forall|i: int, j: int|
            0 <= i < j < self.users@.len() ==> self.users@[i].id != self.users@[j].id
        &&& forall|i: int, j: int|
            0 <= i < j < self.users@.len() ==> self.users@[i].mobile@ != self.users@[j].mobile@
    }

    /// Some user holds `m` as mobile.
    pub open spec fn has_mobile(self, m: Seq<char>) -> bool {
        index_of_mobile(self.users@, m) >= 0
    }

    pub fn new() -> (s: UserStore)
        ensures
            s.wf(),
            s.users@.len() == 0,
            s.next_id == 1,
    {
        UserStore { users: Vec::new(), next_id: 1 }
    }
}

/// `u` with its login timestamp refreshed.
pub open spec fn with_login(u: User, now: u64) -> User {
    User {
        id: u.id,
        mobile: u.mobile,
        email: u.email,
        name: u.name,
        profile_photo: u.profile_photo,
        city: u.city,
        pincode: u.pincode,
        kyc_status: u.kyc_status,
        is_active: u.is_active,
        fcm_token: u.fcm_token,
        subscription_id: u.subscription_id,
        subscription_plan: u.subscription_plan,
        subscription_expires_at: u.subscription_expires_at,
        last_login_at: now,
        created_at: u.created_at,
        updated_at: u.updated_at,
    }
}

/// What one successful OTP login does to the store: refresh the login
/// timestamp of the existing record, or append a fresh `Pending` record
/// under a new id.
pub open spec fn login_transition(
    pre: UserStore,
    post: UserStore,
    m: Seq<char>,
    id: u64,
    is_new: bool,
    now: u64,
) -> bool {
    let idx = index_of_mobile(pre.users@, m);
    &&& is_new == (idx < 0)
    &&& if idx >= 0 {
        &&& id == pre.users@[idx].id
        &&& post.users@ == pre.users@.update(idx, with_login(pre.users@[idx], now))
        &&& post.next_id == pre.next_id
    } else {
        &&& id == pre.next_id
        &&& post.users@.len() == pre.users@.len() + 1
        &&& (forall|i: int| 0 <= i < pre.users@.len() ==> post.users@[i] == pre.users@[i])
        &&& post.users@.last().id == id
        &&& post.users@.last().mobile@ == m
        &&& post.users@.last().kyc_status == KycStatus::Pending
        &&& post.users@.last().is_active == true
        &&& post.users@.last().email is None
        &&& post.users@.last().name is None
        &&& post.users@.last().profile_photo is None
        &&& post.users@.last().city is None
        &&& post.users@.last().pincode is None
        &&& post.users@.last().fcm_token is None
        &&& post.users@.last().subscription_id is None
        &&& post.users@.last().subscription_plan is None
        &&& post.users@.last().subscription_expires_at is None
        &&& post.users@.last().last_login_at == now
        &&& post.users@.last().created_at == now
        &&& post.users@.last().updated_at == now
        &&& post.next_id == pre.next_id + 1
    }
}

impl UserStore {
    /// Find-or-create on verified login: returns the identity's id and
    /// whether a new record was created.
    pub fn find_or_create_user(&mut self, mobile: &str, now: u64) -> (r: (u64, bool))
        requires
            old(self).wf(),
            old(self).next_id < u64::MAX,
        ensures
            final(self).wf(),
            login_transition(*old(self), *final(self), mobile@, r.0, r.1, now),
            final(self).has_mobile(mobile@),
    {
        let ghost pre = *self;
        let ghost idx = index_of_mobile(self.users@, mobile@);
        let n = self.users.len();
        let mut i: usize = 0;
        while i < n
            invariant
                0 <= i <= n,
                n == self.users@.len(),
                *self == pre,
                pre == *old(self),
                pre.wf(),
                idx == index_of_mobile(pre.users@, mobile@),
                forall|k: int| 0 <= k < i ==> pre.users@[k].mobile@ != mobile@,
            decreases n - i,
        {
            if str_eq(self.users[i].mobile.as_str(), mobile) {
                proof {
                    lemma_index_of_mobile_props(pre.users@, mobile@);
                    assert(pre.users@[i as int].mobile@ == mobile@);
                    if idx < i {
                        assert(pre.users@[idx].mobile@ == mobile@);
                        assert(false);
                    }
                    if idx > i {
                        assert(pre.users@[i as int].mobile@ != mobile@);
                        assert(false);
                    }
                }
                let mut u = self.users.remove(i);
                let id = u.id;
                u.last_login_at = now;
                self.users.insert(i, u);
                proof {
                    let upd = with_login(pre.users@[idx], now);
                    assert(self.users@ =~= pre.users@.update(idx, upd));
                    let post = self.users@;
                    assert forall|k: int| 0 <= k < post.len() implies #[trigger] post[k].id
                        < self.next_id by {
                        assert(post[k].id == pre.users@[k].id);
                    }
                    assert forall|k: int, j: int|
                        0 <= k < j < post.len() implies post[k].id != post[j].id by {
                        assert(post[k].id == pre.users@[k].id);
                        assert(post[j].id == pre.users@[j].id);
                    }
                    assert forall|k: int, j: int|
                        0 <= k < j < post.len() implies post[k].mobile@ != post[j].mobile@ by {
                        assert(post[k].mobile == pre.users@[k].mobile);
                        assert(post[j].mobile == pre.users@[j].mobile);
                    }
                    assert(index_of_mobile(post, mobile@) >= 0) by {
                        lemma_index_of_mobile_props(post, mobile@);
                        assert(post[idx].mobile@ == mobile@);
                    }
                }
                return (id, false);
            }
            i += 1;
        }
        proof {
            lemma_index_of_mobile_props(pre.users@, mobile@);
            assert(idx == -1);
        }
        let id = self.next_id;
        self.next_id = self.next_id + 1;
        let user = User {
            id,
            mobile: String::from_str(mobile),
            email: None,
            name: None,
            profile_photo: None,
            city: None,
            pincode: None,
            kyc_status: KycStatus::Pending,
            is_active: true,
            fcm_token: None,
            subscription_id: None,
            subscription_plan: None,
            subscription_expires_at: None,
            last_login_at: now,
            created_at: now,
            updated_at: now,
        };
        self.users.push(user);
        proof {
            let post = self.users@;
            assert(post.last().mobile@ == mobile@);
            assert forall|k: int| 0 <= k < post.len() implies #[trigger] post[k].id
                < self.next_id by {
                if k < post.len() - 1 {
                    assert(post[k] == pre.users@[k]);
                }
            }
            assert forall|k: int, j: int|
                0 <= k < j < post.len() implies post[k].id != post[j].id by {
                if j < post.len() - 1 {
                    assert(post[k] == pre.users@[k]);
                    assert(post[j] == pre.users@[j]);
                } else {
                    assert(post[k] == pre.users@[k]);
                    assert(pre.users@[k].id < pre.next_id);
                }
            }
            assert forall|k: int, j: int|
                0 <= k < j < post.len() implies post[k].mobile@ != post[j].mobile@ by {
                if j < post.len() - 1 {
                    assert(post[k] == pre.users@[k]);
                    assert(post[j] == pre.users@[j]);
                } else {
                    assert(post[k] == pre.users@[k]);
                }
            }
            assert(index_of_mobile(post, mobile@) >= 0) by {
                lemma_index_of_mobile_props(post, mobile@);
            }
        }
        (id, true)
    }

    /// Looks a user up by id.
    pub fn find_by_id(&self, user_id: u64) -> (r: Option<&User>)
        ensures
            match r {
                Some(u) => exists|i: int|
                    0 <= i < self.users@.len() && #[trigger] self.users@[i] == *u
                        && self.users@[i].id == user_id,
                None => forall|i: int|
                    0 <= i < self.users@.len() ==> #[trigger] self.users@[i].id != user_id,
            },
    {
        let n = self.users.len();
        let mut i: usize = 0;
        while i < n
            invariant
                0 <= i <= n,
                n == self.users@.len(),
                forall|k: int| 0 <= k < i ==> #[trigger] self.users@[k].id != user_id,
            decreases n - i,
        {
            if self.users[i].id == user_id {
                return Some(&self.users[i]);
            }
            i += 1;
        }
        None
    }
}

proof fn lemma_count_mobile_zero(users: Seq<User>, m: Seq<char>)
    ensures
        (count_mobile(users, m) == 0) <==> (forall|i: int|
            0 <= i < users.len() ==> users[i].mobile@ != m),
    decreases users.len(),
{
    if users.len() > 0 {
        lemma_count_mobile_zero(users.drop_last(), m);
        assert forall|i: int|
            0 <= i < users.len() - 1 implies users.drop_last()[i] == users[i] by {}
    }
}

proof fn lemma_count_mobile_update_same(users: Seq<User>, i: int, u: User, m: Seq<char>)
    requires
        0 <= i < users.len(),
        (users[i].mobile@ == m) == (u.mobile@ == m),
    ensures
        count_mobile(users.update(i, u), m) == count_mobile(users, m),
    decreases users.len(),
{
    let upd = users.update(i, u);
    if i == users.len() - 1 {
        assert(upd.drop_last() =~= users.drop_last());
        assert(upd.last() == u);
    } else {
        assert(upd.drop_last() =~= users.drop_last().update(i, u));
        assert(upd.last() == users.last());
        lemma_count_mobile_update_same(users.drop_last(), i, u, m);
    }
}

/// In a store with unique mobiles, the number of users holding `m` is one
/// when some user holds it and zero otherwise.
pub proof fn lemma_count_mobile_unique(users: Seq<User>, m: Seq<char>)
    requires
        forall|i: int, j: int| 0 <= i < j < users.len() ==> users[i].mobile@ != users[j].mobile@,
    ensures
        count_mobile(users, m) == if exists|i: int| 0 <= i < users.len() && users[i].mobile@ == m {
            1nat
        } else {
            0nat
        },
    decreases users.len(),
{
    if users.len() > 0 {
        let prefix = users.drop_last();
        assert forall|i: int| 0 <= i < prefix.len() implies prefix[i] == users[i] by {}
        lemma_count_mobile_unique(prefix, m);
        if users.last().mobile@ == m {
            assert forall|i: int| 0 <= i < prefix.len() implies prefix[i].mobile@ != m by {
                assert(users[i].mobile@ != users[users.len() - 1].mobile@);
            }
            lemma_count_mobile_zero(prefix, m);
            assert(exists|i: int|
                0 <= i < users.len() && users[i].mobile@ == m) by {
                assert(users[users.len() - 1].mobile@ == m);
            }
        } else {
            if exists|i: int| 0 <= i < users.len() && users[i].mobile@ == m {
                let w = choose|i: int| 0 <= i < users.len() && users[i].mobile@ == m;
                assert(w < users.len() - 1);
                assert(prefix[w].mobile@ == m);
            }
        }
    }
}

/// Lowercase rendering of the verification status.
pub open spec fn kyc_status_chars(k: KycStatus) -> Seq<char> {
    match k {
        KycStatus::Pending => "pending"@,
        KycStatus::Submitted => "submitted"@,
        KycStatus::Approved => "approved"@,
        KycStatus::Rejected => "rejected"@,
    }
}

/// Renders the verification status as its lowercase name.
pub fn kyc_status_name(k: KycStatus) -> (r: String)
    ensures
        r@ == kyc_status_chars(k),
{
    match k {
        KycStatus::Pending => String::from_str("pending"),
        KycStatus::Submitted => String::from_str("submitted"),
        KycStatus::Approved => String::from_str("approved"),
        KycStatus::Rejected => String::from_str("rejected"),
    }
}

/// The public image of a user record.
#[derive(Debug)]
pub struct UserResponse {
    pub id: String,
    pub mobile: String,
    pub email: Option<String>,
    pub name: Option<String>,
    pub profile_photo: Option<String>,
    pub city: Option<String>,
    pub pincode: Option<String>,
    pub kyc_status: String,
}

pub(crate) fn clone_opt_string(s: &Option<String>) -> (r: Option<String>)
    ensures
        r == *s,
{
    match s {
        Some(v) => Some(v.clone()),
        None => None,
    }
}

impl UserResponse {
    /// Builds the public image of `u`: the id in decimal, the status by
    /// its lowercase name, the other fields verbatim.
    pub fn of_user(u: &User) -> (r: UserResponse)
        ensures
            r.id@ == crate::decimal::dec_digits(u.id as nat),
            r.mobile@ == u.mobile@,
            r.email == u.email,
            r.name == u.name,
            r.profile_photo == u.profile_photo,
            r.city == u.city,
            r.pincode == u.pincode,
            r.kyc_status@ == kyc_status_chars(u.kyc_status),
    {
        UserResponse {
            id: crate::decimal::u64_to_dec(u.id),
            mobile: u.mobile.clone(),
            email: clone_opt_string(&u.email),
            name: clone_opt_string(&u.name),
            profile_photo: clone_opt_string(&u.profile_photo),
            city: clone_opt_string(&u.city),
            pincode: clone_opt_string(&u.pincode),
            kyc_status: kyc_status_name(u.kyc_status),
        }
    }
}

/// `u` after a partial profile update: fields present in the update
/// replace the old ones, the rest stay; `updated_at` is refreshed.
pub open spec fn apply_profile(u: User, dto: UpdateProfileDto, now: u64) -> User {
    User {
        id: u.id,
        mobile: u.mobile,
        email: if dto.email is Some {
            dto.email
        } else {
            u.email
        },
        name: if dto.name is Some {
            dto.name
        } else {
            u.name
        },
        profile_photo: if dto.profile_photo is Some {
            dto.profile_photo
        } else {
            u.profile_photo
        },
        city: if dto.city is Some {
            dto.city
        } else {
            u.city
        },
        pincode: if dto.pincode is Some {
            dto.pincode
        } else {
            u.pincode
        },
        kyc_status: u.kyc_status,
        is_active: u.is_active,
        fcm_token: u.fcm_token,
        subscription_id: u.subscription_id,
        subscription_plan: u.subscription_plan,
        subscription_expires_at: u.subscription_expires_at,
        last_login_at: u.last_login_at,
        created_at: u.created_at,
        updated_at: now,
    }
}

impl UserStore {
    /// Applies a partial profile update to the user with this id; fails
    /// with `NotFound`, leaving the store unchanged, when no record
    /// carries it.
    pub fn update_profile(&mut self, user_id: u64, dto: UpdateProfileDto, now: u64) -> (r: Result<
        (),
        ApiError,
    >)
        requires
            old(self).wf(),
        ensures
            final(self).wf(),
            match r {
                Ok(()) => exists|i: int|
                    {
                        &&& 0 <= i < old(self).users@.len()
                        &&& #[trigger] old(self).users@[i].id == user_id
                        &&& final(self).users@ == old(self).users@.update(
                            i,
                            apply_profile(old(self).users@[i], dto, now),
                        )
                        &&& final(self).next_id == old(self).next_id
                    },
                Err(e) => {
                    &&& e.kind == ErrorKind::NotFound
                    &&& *final(self) == *old(self)
                    &&& forall|i: int|
                        0 <= i < old(self).users@.len() ==> #[trigger] old(self).users@[i].id
                            != user_id
                },
            },
    {
        let ghost pre = *self;
        let n = self.users.len();
        let mut i: usize = 0;
        while i < n
            invariant
                0 <= i <= n,
                n == self.users@.len(),
                *self == pre,
                pre == *old(self),
                pre.wf(),
                forall|k: int| 0 <= k < i ==> #[trigger] pre.users@[k].id != user_id,
            decreases n - i,
        {
            if self.users[i].id == user_id {
                let mut u = self.users.remove(i);
                u = User {
                    email: if dto.email.is_some() {
                        dto.email
                    } else {
                        u.email
                    },
                    name: if dto.name.is_some() {
                        dto.name
                    } else {
                        u.name
                    },
                    profile_photo: if dto.profile_photo.is_some() {
                        dto.profile_photo
                    } else {
                        u.profile_photo
                    },
                    city: if dto.city.is_some() {
                        dto.city
                    } else {
                        u.city
                    },
                    pincode: if dto.pincode.is_some() {
                        dto.pincode
                    } else {
                        u.pincode
                    },
                    updated_at: now,
                    ..u
                };
                self.users.insert(i, u);
                proof {
                    let upd = apply_profile(pre.users@[i as int], dto, now);
                    assert(self.users@ =~= pre.users@.update(i as int, upd));
                    let post = self.users@;
                    assert forall|k: int| 0 <= k < post.len() implies #[trigger] post[k].id
                        < self.next_id by {
                        assert(post[k].id == pre.users@[k].id);
                    }
                    assert forall|k: int, j: int|
                        0 <= k < j < post.len() implies post[k].id != post[j].id by {
                        assert(post[k].id == pre.users@[k].id);
                        assert(post[j].id == pre.users@[j].id);
                    }
                    assert forall|k: int, j: int|
                        0 <= k < j < post.len() implies post[k].mobile@ != post[j].mobile@ by {
                        assert(post[k].mobile == pre.users@[k].mobile);
                        assert(post[j].mobile == pre.users@[j].mobile);
                    }
                }
                return Ok(());
            }
            i += 1;
        }
        Err(ApiError::not_found("User not found"))
    }
}

/// Fields an admin may change on a user record.
#[derive(Debug)]
pub struct UpdateUserDto {
    pub name: Option<String>,
    pub email: Option<String>,
    pub city: Option<String>,
    pub pincode: Option<String>,
    pub is_active: Option<bool>,
}

/// `u` after an admin update: fields present in the update replace the
/// old ones (the active flag included), the rest stay; `updated_at` is
/// refreshed.
pub open spec fn apply_admin_update(u: User, dto: UpdateUserDto, now: u64) -> User {
    User {
        id: u.id,
        mobile: u.mobile,
        email: if dto.email is Some {
            dto.email
        } else {
            u.email
        },
        name: if dto.name is Some {
            dto.name
        } else {
            u.name
        },
        profile_photo: u.profile_photo,
        city: if dto.city is Some {
            dto.city
        } else {
            u.city
        },
        pincode: if dto.pincode is Some {
            dto.pincode
        } else {
            u.pincode
        },
        kyc_status: u.kyc_status,
        is_active: match dto.is_active {
            Some(v) => v,
            None => u.is_active,
        },
        fcm_token: u.fcm_token,
        subscription_id: u.subscription_id,
        subscription_plan: u.subscription_plan,
        subscription_expires_at: u.subscription_expires_at,
        last_login_at: u.last_login_at,
        created_at: u.created_at,
        updated_at: now,
    }
}

impl UserStore {
    /// Applies an admin update to the user with this id; fails with
    /// `NotFound`, leaving the store unchanged, when no record carries
    /// it. Deactivation is the soft flag flip here; users are never hard
    /// deleted.
    pub fn update_user(&mut self, user_id: u64, dto: UpdateUserDto, now: u64) -> (r: Result<
        (),
        ApiError,
    >)
        requires
            old(self).wf(),
        ensures
            final(self).wf(),
            match r {
                Ok(()) => exists|i: int|
                    {
                        &&& 0 <= i < old(self).users@.len()
                        &&& #[trigger] old(self).users@[i].id == user_id
                        &&& final(self).users@ == old(self).users@.update(
                            i,
                            apply_admin_update(old(self).users@[i], dto, now),
                        )
                        &&& final(self).next_id == old(self).next_id
                    },
                Err(e) => {
                    &&& e.kind == ErrorKind::NotFound
                    &&& *final(self) == *old(self)
                    &&& forall|i: int|
                        0 <= i < old(self).users@.len() ==> #[trigger] old(self).users@[i].id
                            != user_id
                },
            },
    {
        let ghost pre = *self;
        let n = self.users.len();
        let mut i: usize = 0;
        while i < n
            invariant
                0 <= i <= n,
                n == self.users@.len(),
                *self == pre,
                pre == *old(self),
                pre.wf(),
                forall|k: int| 0 <= k < i ==> #[trigger] pre.users@[k].id != user_id,
            decreases n - i,
        {
            if self.users[i].id == user_id {
                let mut u = self.users.remove(i);
                u = User {
                    email: if dto.email.is_some() {
                        dto.email
                    } else {
                        u.email
                    },
                    name: if dto.name.is_some() {
                        dto.name
                    } else {
                        u.name
                    },
                    city: if dto.city.is_some() {
                        dto.city
                    } else {
                        u.city
                    },
                    pincode: if dto.pincode.is_some() {
                        dto.pincode
                    } else {
                        u.pincode
                    },
                    is_active: match dto.is_active {
                        Some(v) => v,
                        None => u.is_active,
                    },
                    updated_at: now,
                    ..u
                };
                self.users.insert(i, u);
                proof {
                    let upd = apply_admin_update(pre.users@[i as int], dto, now);
                    assert(self.users@ =~= pre.users@.update(i as int, upd));
                    let post = self.users@;
                    assert forall|k: int| 0 <= k < post.len() implies #[trigger] post[k].id
                        < self.next_id by {
                        assert(post[k].id == pre.users@[k].id);
                    }
                    assert forall|k: int, j: int|
                        0 <= k < j < post.len() implies post[k].id != post[j].id by {
                        assert(post[k].id == pre.users@[k].id);
                        assert(post[j].id == pre.users@[j].id);
                    }
                    assert forall|k: int, j: int|
                        0 <= k < j < post.len() implies post[k].mobile@ != post[j].mobile@ by {
                        assert(post[k].mobile == pre.users@[k].mobile);
                        assert(post[j].mobile == pre.users@[j].mobile);
                    }
                }
                return Ok(());
            }
            i += 1;
        }
        Err(ApiError::not_found("User not found"))
    }
}

/// After a first login for an unseen mobile, exactly one matching identity
/// exists; a second login for the same mobile reuses that identity and
/// reports `is_new == false`, and still exactly one identity exists.
pub proof fn lemma_otp_login_identity(
    s0: UserStore,
    s1: UserStore,
    s2: UserStore,
    m: Seq<char>,
    id1: u64,
    id2: u64,
    new1: bool,
    new2: bool,
    now1: u64,
    now2: u64,
)
    requires
        s0.wf(),
        s1.wf(),
        !s0.has_mobile(m),
        login_transition(s0, s1, m, id1, new1, now1),
        login_transition(s1, s2, m, id2, new2, now2),
    ensures
        new1 == true,
        count_mobile(s1.users@, m) == 1,
        new2 == false,
        id2 == id1,
        count_mobile(s2.users@, m) == 1,
{
    lemma_index_of_mobile_props(s0.users@, m);
    let idx0 = index_of_mobile(s0.users@, m);
    assert(idx0 == -1);
    assert(new1);
    // s1 appended the new record; it is the only one holding m.
    let last1 = s1.users@.len() - 1;
    assert(s1.users@[last1].mobile@ == m);
    lemma_count_mobile_unique(s1.users@, m);
    assert(count_mobile(s1.users@, m) == 1);
    // The second login finds it.
    lemma_index_of_mobile_props(s1.users@, m);
    let idx1 = index_of_mobile(s1.users@, m);
    assert(idx1 >= 0);
    assert(!new2);
    assert(s1.users@[idx1].mobile@ == m);
    // Uniqueness pins the found index to the appended record.
    if idx1 != last1 {
        assert(s1.users@[idx1].mobile@ != s1.users@[last1].mobile@);
        assert(false);
    }
    assert(id2 == s1.users@[idx1].id);
    assert(id1 == s1.users@[last1].id);
    // The refresh keeps the mobile in place, so the count stays one.
    lemma_count_mobile_update_same(s1.users@, idx1, with_login(s1.users@[idx1], now2), m);
}

} // verus!
