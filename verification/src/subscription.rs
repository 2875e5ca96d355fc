//! Priced subscription entitlements: created pending when a purchase is
//! initiated, activated only after external payment confirmation, and
//! checked against the payment gateway's webhook signature.

use vstd::prelude::*;

use crate::crypto::{bytes_to_hex, hex_of, hmac_sha256, hmac_sha256_of};
use crate::response::{ApiError, ErrorKind};

use crate::worker::{parse_plan, parse_plan_spec, SubscriptionPlan, SUBSCRIPTION_TTL_SECS};

verus! {

/// Who the entitlement is for.
#[derive(Clone, Copy, Debug, PartialEq, Eq, Structural)]
pub enum SubscriptionType {
    Worker,
    JobSeeker,
}

/// Lifecycle of a purchase.
#[derive(Clone, Copy, Debug, PartialEq, Eq, Structural)]
pub enum SubscriptionStatus {
    Pending,
    Active,
    Cancelled,
    Expired,
}

/// A priced entitlement record.
#[derive(Debug)]
pub struct Subscription {
    pub id: u64,
    pub user_id: u64,
    pub subscription_type: SubscriptionType,
    pub plan: SubscriptionPlan,
    /// Price in paise (hundredths of a rupee).
    pub price_paise: u64,
    pub status: SubscriptionStatus,
    pub starts_at: u64,
    pub expires_at: u64,
    pub auto_renew: bool,
    pub payment_id: Option<String>,
    pub created_at: u64,
    pub updated_at: u64,
}

/// What a purchasable plan costs, in paise.
pub open spec fn plan_price_paise_spec(p: SubscriptionPlan) -> u64 {
    match p {
        SubscriptionPlan::Silver => 49900,
        SubscriptionPlan::Gold => 79900,
        SubscriptionPlan::NoPlan => 0,
    }
}

/// Price of a plan, in paise.
pub fn plan_price_paise(p: SubscriptionPlan) -> (r: u64)
    ensures
        r == plan_price_paise_spec(p),
{
    match p {
        SubscriptionPlan::Silver => 49900,
        SubscriptionPlan::Gold => 79900,
        SubscriptionPlan::NoPlan => 0,
    }
}

/// The subscription records, the source of truth for entitlements; the
/// flat copies on users and worker profiles are caches of it.
pub struct SubscriptionStore {
    pub subs: Vec<Subscription>,
    pub next_id: u64,
}

impl SubscriptionStore {
    /// Well-formedness: ids unique and below `next_id`.
    pub open spec fn wf(self) -> bool {
        &&& forall|i: int| 0 <= i < self.subs@.len() ==> #[trigger] self.subs@[i].id < self.next_id
        &&& forall|i: int, j: int|
            0 <= i < j < self.subs@.len() ==> self.subs@[i].id != self.subs@[j].id
    }

    pub fn new() -> (s: SubscriptionStore)
        ensures
            s.wf(),
            s.subs@.len() == 0,
            s.next_id == 1,
    {
        SubscriptionStore { subs: Vec::new(), next_id: 1 }
    }

    /// Initiates a purchase: records a pending subscription priced by the
    /// plan, expiring one year after `now`. Rejects an unknown plan name
    /// with `InvalidInput`, leaving the store unchanged.
    pub fn create_subscription(&mut self, user_id: u64, plan_name: &str, now: u64) -> (r: Result<
        (u64, u64),
        ApiError,
    >)
        requires
            old(self).wf(),
            old(self).next_id < u64::MAX,
            now + SUBSCRIPTION_TTL_SECS <= u64::MAX,
        ensures
            final(self).wf(),
            match r {
                Ok((id, amount)) => {
                    &&& parse_plan_spec(plan_name@) is Some
                    &&& id == old(self).next_id
                    &&& amount == plan_price_paise_spec(parse_plan_spec(plan_name@)->Some_0)
                    &&& final(self).next_id == old(self).next_id + 1
                    &&& final(self).subs@.len() == old(self).subs@.len() + 1
                    &&& (forall|i: int|
                        0 <= i < old(self).subs@.len() ==> final(self).subs@[i] == old(
                            self,
                        ).subs@[i])
                    &&& ({
                        let s = final(self).subs@.last();
                        &&& s.id == id
                        &&& s.user_id == user_id
                        &&& s.subscription_type == SubscriptionType::Worker
                        &&& s.plan == parse_plan_spec(plan_name@)->Some_0
                        &&& s.price_paise == amount
                        &&& s.status == SubscriptionStatus::Pending
                        &&& s.starts_at == now
                        &&& s.expires_at == now + SUBSCRIPTION_TTL_SECS
                        &&& !s.auto_renew
                        &&& s.payment_id is None
                        &&& s.created_at == now
                        &&& s.updated_at == now
                    })
                },
                Err(e) => {
                    &&& *final(self) == *old(self)
                    &&& e.kind == ErrorKind::InvalidInput
                    &&& parse_plan_spec(plan_name@) is None
                },
            },
    {
        let ghost pre = *self;
        let plan = match parse_plan(plan_name) {
            Some(p) => p,
            None => {
                return Err(ApiError::bad_request("Invalid plan"));
            },
        };
        let amount = plan_price_paise(plan);
        let id = self.next_id;
        self.next_id = self.next_id + 1;
        let sub = Subscription {
            id,
            user_id,
            subscription_type: SubscriptionType::Worker,
            plan,
            price_paise: amount,
            status: SubscriptionStatus::Pending,
            starts_at: now,
            expires_at: now + SUBSCRIPTION_TTL_SECS,
            auto_renew: false,
            payment_id: None,
            created_at: now,
            updated_at: now,
        };
        self.subs.push(sub);
        proof {
            let post = self.subs@;
            assert forall|k: int| 0 <= k < post.len() implies #[trigger] post[k].id
                < self.next_id by {
                if k < post.len() - 1 {
                    assert(post[k] == pre.subs@[k]);
                }
            }
            assert forall|k: int, j: int|
                0 <= k < j < post.len() implies post[k].id != post[j].id by {
                assert(post[k] == pre.subs@[k]);
                if j < post.len() - 1 {
                    assert(post[j] == pre.subs@[j]);
                } else {
                    assert(pre.subs@[k].id < pre.next_id);
                }
            }
        }
        Ok((id, amount))
    }

    /// Confirms external payment: moves the pending record to `Active`
    /// and attaches the payment reference. Fails with `NotFound`, leaving
    /// the store unchanged, when no record carries the id.
    pub fn confirm_payment(&mut self, sub_id: u64, payment_id: String, now: u64) -> (r: Result<
        (),
        ApiError,
    >)
        requires
            old(self).wf(),
        ensures
            final(self).wf(),
            match r {
                Ok(()) => exists|i: int|
                    {
                        &&& 0 <= i < old(self).subs@.len()
                        &&& #[trigger] old(self).subs@[i].id == sub_id
                        &&& final(self).subs@ == old(self).subs@.update(
                            i,
                            activated(old(self).subs@[i], payment_id, now),
                        )
                        &&& final(self).next_id == old(self).next_id
                    },
                Err(e) => {
                    &&& e.kind == ErrorKind::NotFound
                    &&& *final(self) == *old(self)
                    &&& forall|i: int|
                        0 <= i < old(self).subs@.len() ==> #[trigger] old(self).subs@[i].id
                            != sub_id
                },
            },
    {
        let ghost pre = *self;
        let n = self.subs.len();
        let mut i: usize = 0;
        while i < n
            invariant
                0 <= i <= n,
                n == self.subs@.len(),
                *self == pre,
                pre == *old(self),
                pre.wf(),
                forall|k: int| 0 <= k < i ==> #[trigger] pre.subs@[k].id != sub_id,
            decreases n - i,
        {
            if self.subs[i].id == sub_id {
                let mut s = self.subs.remove(i);
                s = Subscription {
                    status: SubscriptionStatus::Active,
                    payment_id: Some(payment_id),
                    updated_at: now,
                    ..s
                };
                self.subs.insert(i, s);
                proof {
                    let upd = activated(pre.subs@[i as int], payment_id, now);
                    assert(self.subs@ =~= pre.subs@.update(i as int, upd));
                    let post = self.subs@;
                    assert forall|k: int| 0 <= k < post.len() implies #[trigger] post[k].id
                        < self.next_id by {
                        assert(post[k].id == pre.subs@[k].id);
                    }
                    assert forall|k: int, j: int|
                        0 <= k < j < post.len() implies post[k].id != post[j].id by {
                        assert(post[k].id == pre.subs@[k].id);
                        assert(post[j].id == pre.subs@[j].id);
                    }
                }
                return Ok(());
            }
            i += 1;
        }
        Err(ApiError::not_found("Subscription not found"))
    }
}

/// `s` after payment confirmation.
pub open spec fn activated(s: Subscription, payment_id: String, now: u64) -> Subscription {
    Subscription {
        id: s.id,
        user_id: s.user_id,
        subscription_type: s.subscription_type,
        plan: s.plan,
        price_paise: s.price_paise,
        status: SubscriptionStatus::Active,
        starts_at: s.starts_at,
        expires_at: s.expires_at,
        auto_renew: s.auto_renew,
        payment_id: Some(payment_id),
        created_at: s.created_at,
        updated_at: now,
    }
}

/// The identifiers the payment gateway reports back after a checkout,
/// with its signature over them.
#[derive(Debug)]
pub struct VerifyPaymentDto {
    pub razorpay_order_id: String,
    pub razorpay_payment_id: String,
    pub razorpay_signature: String,
}

/// A webhook body is authentic when the signature equals the lowercase
/// hex HMAC-SHA-256 of the body under the webhook secret.
pub fn verify_signature(body: &str, signature: &str, secret: &[u8]) -> (r: bool)
    ensures
        r == (hex_of(hmac_sha256_of(secret@, body@)) == signature@),
{
    let mac = hmac_sha256(secret, body);
    let expected = bytes_to_hex(mac.as_slice());
    let sig = String::from_str(signature);
    sig == expected
}

/// A checkout callback is authentic when its signature equals the hex
/// HMAC-SHA-256 of `order_id|payment_id` under the key secret.
pub fn verify_payment_signature(dto: &VerifyPaymentDto, secret: &[u8]) -> (r: bool)
    ensures
        r == (hex_of(
            hmac_sha256_of(secret@, dto.razorpay_order_id@ + seq!['|'] + dto.razorpay_payment_id@),
        ) == dto.razorpay_signature@),
{
    let mut payload = dto.razorpay_order_id.clone();
    payload.append("|");
    payload.append(dto.razorpay_payment_id.as_str());
    proof {
        reveal_strlit("|");
        assert("|"@ =~= seq!['|']);
        assert(payload@ =~= dto.razorpay_order_id@ + seq!['|'] + dto.razorpay_payment_id@);
    }
    let mac = hmac_sha256(secret, payload.as_str());
    let expected = bytes_to_hex(mac.as_slice());
    let sig = dto.razorpay_signature.clone();
    sig == expected
}

} // verus!
