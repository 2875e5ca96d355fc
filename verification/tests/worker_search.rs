use mento_core::response::ErrorKind;
use mento_core::search::{find_nearby_workers, get_worker_stats, search_workers,
    NearbyWorkerQuery, SearchWorkersQuery, WorkerStatsQuery};
use mento_core::worker::{CreateWorkerProfileDto, SubscriptionPlan, UpdateSubscriptionDto,
    UpdateWorkerProfileDto, WorkerStore, SUBSCRIPTION_TTL_SECS};

fn dto(cats: &[&str]) -> CreateWorkerProfileDto {
    CreateWorkerProfileDto {
        categories: cats.iter().map(|c| c.to_string()).collect(),
        subcategories: vec![],
        experience_years: 3,
        description: None,
        hourly_rate: 500,
        license_number: None,
        service_areas: vec![],
        latitude_micro: Some(12_970_000),
        longitude_micro: Some(77_590_000),
    }
}

fn query() -> SearchWorkersQuery {
    SearchWorkersQuery {
        category: None,
        subcategory: None,
        city: None,
        min_rating_centi: None,
        page: None,
        limit: None,
    }
}

/// Three verified plumbing workers with distinct plans and ratings.
fn plumbing_store() -> WorkerStore {
    let mut store = WorkerStore::new();
    for (user, plan, rating, reviews) in [
        (1u64, SubscriptionPlan::NoPlan, 500u32, 90u32),
        (2, SubscriptionPlan::Gold, 420, 10),
        (3, SubscriptionPlan::Silver, 480, 50),
    ] {
        store.create_worker_profile(user, dto(&["plumbing"]), 100).unwrap();
        let w = store.workers.last_mut().unwrap();
        w.is_verified = true;
        w.subscription_plan = plan;
        w.rating_centi = rating;
        w.total_reviews = reviews;
    }
    store
}

#[test]
fn search_returns_plan_then_rating_then_reviews_order() {
    let store = plumbing_store();
    let q = SearchWorkersQuery {
        category: Some("plumbing".to_string()),
        min_rating_centi: Some(400),
        page: Some(1),
        limit: Some(20),
        ..query()
    };
    let r = search_workers(&store, &q);
    assert_eq!(r.total, 3);
    assert_eq!(r.pages, 1);
    assert_eq!(r.page, 1);
    assert_eq!(r.limit, 20);
    let users: Vec<u64> = r.workers.iter().map(|w| w.user_id).collect();
    // Gold first despite its lower rating, then silver, then no plan.
    assert_eq!(users, vec![2, 3, 1]);
}

#[test]
fn gold_profile_outranks_silver_despite_lower_rating() {
    let store = plumbing_store();
    let r = search_workers(&store, &query());
    let gold_pos = r.workers.iter().position(|w| w.user_id == 2).unwrap();
    let silver_pos = r.workers.iter().position(|w| w.user_id == 3).unwrap();
    assert!(gold_pos < silver_pos);
}

#[test]
fn rating_breaks_ties_within_a_plan() {
    let mut store = plumbing_store();
    store.create_worker_profile(4, dto(&["plumbing"]), 100).unwrap();
    let w = store.workers.last_mut().unwrap();
    w.is_verified = true;
    w.subscription_plan = SubscriptionPlan::Gold;
    w.rating_centi = 490;
    let r = search_workers(&store, &query());
    let users: Vec<u64> = r.workers.iter().map(|w| w.user_id).collect();
    assert_eq!(users, vec![4, 2, 3, 1]);
}

#[test]
fn search_requires_verified_and_available() {
    let mut store = plumbing_store();
    store.workers[0].is_verified = false;
    store.workers[1].is_available = false;
    let r = search_workers(&store, &query());
    assert_eq!(r.total, 1);
    assert_eq!(r.workers[0].user_id, 3);
}

#[test]
fn category_filter_excludes_other_trades() {
    let mut store = plumbing_store();
    store.create_worker_profile(9, dto(&["electrical"]), 100).unwrap();
    store.workers.last_mut().unwrap().is_verified = true;
    let q = SearchWorkersQuery { category: Some("electrical".to_string()), ..query() };
    let r = search_workers(&store, &q);
    assert_eq!(r.total, 1);
    assert_eq!(r.workers[0].user_id, 9);
}

#[test]
fn min_rating_is_an_inclusive_lower_bound() {
    let store = plumbing_store();
    let q = SearchWorkersQuery { min_rating_centi: Some(480), ..query() };
    let r = search_workers(&store, &q);
    assert_eq!(r.total, 2);
    let users: Vec<u64> = r.workers.iter().map(|w| w.user_id).collect();
    assert_eq!(users, vec![3, 1]);
}

#[test]
fn oversized_limit_is_clamped_to_100() {
    let store = plumbing_store();
    let q = SearchWorkersQuery { limit: Some(1000), ..query() };
    let r = search_workers(&store, &q);
    assert_eq!(r.limit, 100);
}

#[test]
fn nonpositive_page_and_limit_are_clamped_up() {
    let store = plumbing_store();
    let q = SearchWorkersQuery { page: Some(0), limit: Some(-5), ..query() };
    let r = search_workers(&store, &q);
    assert_eq!(r.page, 1);
    assert_eq!(r.limit, 1);
}

#[test]
fn page_sizes_sum_to_total_across_all_pages() {
    let mut store = WorkerStore::new();
    for user in 1..=5u64 {
        store.create_worker_profile(user, dto(&["plumbing"]), 100).unwrap();
        store.workers.last_mut().unwrap().is_verified = true;
    }
    let mut seen = 0;
    let mut pages_reported = 0;
    for page in 1..=4i64 {
        let q = SearchWorkersQuery { page: Some(page), limit: Some(2), ..query() };
        let r = search_workers(&store, &q);
        assert_eq!(r.total, 5);
        pages_reported = r.pages;
        let expected = match page {
            1 | 2 => 2,
            3 => 1,
            _ => 0,
        };
        assert_eq!(r.workers.len(), expected);
        seen += r.workers.len();
    }
    assert_eq!(pages_reported, 3);
    assert_eq!(seen as u64, 5);
}

#[test]
fn duplicate_profile_creation_is_a_conflict() {
    let mut store = WorkerStore::new();
    store.create_worker_profile(1, dto(&["plumbing"]), 100).unwrap();
    let e = store.create_worker_profile(1, dto(&["electrical"]), 200).unwrap_err();
    assert_eq!(e.kind, ErrorKind::Conflict);
    assert_eq!(e.status(), 409);
    assert_eq!(store.workers.len(), 1);
}

#[test]
fn out_of_range_latitude_fails_before_any_write() {
    let mut store = WorkerStore::new();
    store.create_worker_profile(1, dto(&["plumbing"]), 100).unwrap();
    let before = store.workers[0].updated_at;
    let e = store.update_worker_location(1, 95_000_000, 10_000_000, 999).unwrap_err();
    assert_eq!(e.kind, ErrorKind::InvalidInput);
    assert_eq!(e.status(), 400);
    assert_eq!(e.message, "Invalid latitude");
    assert_eq!(store.workers[0].updated_at, before);
    assert_eq!(store.workers[0].location.lat_micro, 12_970_000);
}

#[test]
fn out_of_range_longitude_is_rejected_too() {
    let mut store = WorkerStore::new();
    store.create_worker_profile(1, dto(&["plumbing"]), 100).unwrap();
    let e = store.update_worker_location(1, 10_000_000, 181_000_000, 999).unwrap_err();
    assert_eq!(e.kind, ErrorKind::InvalidInput);
    assert_eq!(e.message, "Invalid longitude");
}

#[test]
fn location_update_moves_the_point() {
    let mut store = WorkerStore::new();
    store.create_worker_profile(1, dto(&["plumbing"]), 100).unwrap();
    store.update_worker_location(1, 13_000_000, 77_000_000, 300).unwrap();
    assert_eq!(store.workers[0].location.lat_micro, 13_000_000);
    assert_eq!(store.workers[0].location.lon_micro, 77_000_000);
    assert_eq!(store.workers[0].updated_at, 300);
    let e = store.update_worker_location(42, 0, 0, 300).unwrap_err();
    assert_eq!(e.kind, ErrorKind::NotFound);
}

#[test]
fn profile_update_merges_only_present_fields() {
    let mut store = WorkerStore::new();
    store.create_worker_profile(1, dto(&["plumbing"]), 100).unwrap();
    let upd = UpdateWorkerProfileDto {
        categories: None,
        subcategories: None,
        experience_years: Some(7),
        description: Some("night shifts".to_string()),
        hourly_rate: None,
        service_areas: None,
        is_available: Some(false),
    };
    store.update_worker_profile(1, upd, 400).unwrap();
    let w = &store.workers[0];
    assert_eq!(w.experience_years, 7);
    assert_eq!(w.description.as_deref(), Some("night shifts"));
    assert_eq!(w.hourly_rate, 500);
    assert_eq!(w.categories, vec!["plumbing".to_string()]);
    assert!(!w.is_available);
    assert_eq!(w.updated_at, 400);
}

#[test]
fn deleting_a_profile_is_a_hard_delete() {
    let mut store = WorkerStore::new();
    store.create_worker_profile(1, dto(&["plumbing"]), 100).unwrap();
    store.delete_worker_profile(1).unwrap();
    assert_eq!(store.workers.len(), 0);
    let e = store.delete_worker_profile(1).unwrap_err();
    assert_eq!(e.kind, ErrorKind::NotFound);
}

#[test]
fn subscription_update_sets_plan_and_one_year_expiry() {
    let mut store = WorkerStore::new();
    store.create_worker_profile(1, dto(&["plumbing"]), 100).unwrap();
    let d = UpdateSubscriptionDto { plan: "silver".to_string() };
    let expires = store.update_subscription(1, &d, 1000).unwrap();
    assert_eq!(expires, 1000 + SUBSCRIPTION_TTL_SECS);
    assert_eq!(expires, 1000 + 365 * 24 * 60 * 60);
    let w = &store.workers[0];
    assert!(matches!(w.subscription_plan, SubscriptionPlan::Silver));
    assert_eq!(w.subscription_expires_at, Some(expires));
}

#[test]
fn unknown_plan_name_is_invalid_input() {
    let mut store = WorkerStore::new();
    store.create_worker_profile(1, dto(&["plumbing"]), 100).unwrap();
    let d = UpdateSubscriptionDto { plan: "platinum".to_string() };
    let e = store.update_subscription(1, &d, 1000).unwrap_err();
    assert_eq!(e.kind, ErrorKind::InvalidInput);
    assert!(matches!(store.workers[0].subscription_plan, SubscriptionPlan::NoPlan));
}

#[test]
fn nearby_returns_only_points_within_ten_km() {
    let mut store = WorkerStore::new();
    // About one kilometre east of the center.
    let mut near = dto(&["plumbing"]);
    near.latitude_micro = Some(12_970_000);
    near.longitude_micro = Some(77_600_000);
    store.create_worker_profile(1, near, 100).unwrap();
    store.workers.last_mut().unwrap().is_verified = true;
    // About 25 kilometres north.
    let mut far = dto(&["plumbing"]);
    far.latitude_micro = Some(13_200_000);
    far.longitude_micro = Some(77_590_000);
    store.create_worker_profile(2, far, 100).unwrap();
    store.workers.last_mut().unwrap().is_verified = true;
    let q = NearbyWorkerQuery {
        latitude_micro: 12_970_000,
        longitude_micro: 77_590_000,
        category: None,
        subcategory: None,
        page: None,
        limit: None,
    };
    let r = find_nearby_workers(&store, &q).unwrap();
    assert_eq!(r.total, 1);
    assert_eq!(r.workers[0].user_id, 1);
}

#[test]
fn nearby_lists_closest_first() {
    let mut store = WorkerStore::new();
    let mut farther = dto(&["plumbing"]);
    farther.latitude_micro = Some(13_020_000);
    store.create_worker_profile(1, farther, 100).unwrap();
    store.workers.last_mut().unwrap().is_verified = true;
    let mut closer = dto(&["plumbing"]);
    closer.latitude_micro = Some(12_980_000);
    store.create_worker_profile(2, closer, 100).unwrap();
    store.workers.last_mut().unwrap().is_verified = true;
    let q = NearbyWorkerQuery {
        latitude_micro: 12_970_000,
        longitude_micro: 77_590_000,
        category: None,
        subcategory: None,
        page: None,
        limit: None,
    };
    let r = find_nearby_workers(&store, &q).unwrap();
    assert_eq!(r.total, 2);
    let users: Vec<u64> = r.workers.iter().map(|w| w.user_id).collect();
    assert_eq!(users, vec![2, 1]);
}

#[test]
fn nearby_limit_is_clamped_to_50() {
    let store = plumbing_store();
    let q = NearbyWorkerQuery {
        latitude_micro: 12_970_000,
        longitude_micro: 77_590_000,
        category: None,
        subcategory: None,
        page: None,
        limit: Some(1000),
    };
    let r = find_nearby_workers(&store, &q).unwrap();
    assert_eq!(r.limit, 50);
}

#[test]
fn nearby_rejects_an_invalid_center() {
    let store = WorkerStore::new();
    let q = NearbyWorkerQuery {
        latitude_micro: 95_000_000,
        longitude_micro: 10_000_000,
        category: None,
        subcategory: None,
        page: None,
        limit: None,
    };
    let e = find_nearby_workers(&store, &q).unwrap_err();
    assert_eq!(e.kind, ErrorKind::InvalidInput);
}

#[test]
fn empty_store_yields_an_empty_page() {
    let store = WorkerStore::new();
    let r = search_workers(&store, &query());
    assert_eq!(r.total, 0);
    assert_eq!(r.pages, 0);
    assert!(r.workers.is_empty());
}

#[test]
fn review_count_breaks_full_ties() {
    let mut store = WorkerStore::new();
    for (user, reviews) in [(1u64, 10u32), (2, 90), (3, 40)] {
        store.create_worker_profile(user, dto(&["plumbing"]), 100).unwrap();
        let w = store.workers.last_mut().unwrap();
        w.is_verified = true;
        w.rating_centi = 450;
        w.total_reviews = reviews;
    }
    let r = search_workers(&store, &query());
    let users: Vec<u64> = r.workers.iter().map(|w| w.user_id).collect();
    assert_eq!(users, vec![2, 3, 1]);
}

#[test]
fn subcategory_filter_composes_with_category() {
    let mut store = WorkerStore::new();
    let mut with_sub = dto(&["plumbing"]);
    with_sub.subcategories = vec!["drainage".to_string()];
    store.create_worker_profile(1, with_sub, 100).unwrap();
    store.workers.last_mut().unwrap().is_verified = true;
    store.create_worker_profile(2, dto(&["plumbing"]), 100).unwrap();
    store.workers.last_mut().unwrap().is_verified = true;
    let q = SearchWorkersQuery {
        category: Some("plumbing".to_string()),
        subcategory: Some("drainage".to_string()),
        ..query()
    };
    let r = search_workers(&store, &q);
    assert_eq!(r.total, 1);
    assert_eq!(r.workers[0].user_id, 1);
}

#[test]
fn lookup_by_owner_and_by_listing_id_agree() {
    let mut store = WorkerStore::new();
    let id = store.create_worker_profile(7, dto(&["plumbing"]), 100).unwrap();
    let by_user = store.find_by_user_id(7).unwrap();
    assert_eq!(by_user.id, id);
    let by_id = store.find_by_id(id).unwrap();
    assert_eq!(by_id.user_id, 7);
    assert!(store.find_by_user_id(8).is_none());
    assert!(store.find_by_id(99).is_none());
}

#[test]
fn stats_count_each_dimension_exactly() {
    let mut store = plumbing_store();
    store.workers[0].is_available = false;
    let q = WorkerStatsQuery { page: None, limit: None };
    let (stats, listing) = get_worker_stats(&store, &q);
    assert_eq!(stats.total_workers, 3);
    assert_eq!(stats.verified_workers, 3);
    assert_eq!(stats.available_workers, 2);
    assert_eq!(stats.silver_subscribers, 1);
    assert_eq!(stats.gold_subscribers, 1);
    assert_eq!(listing.total, 3);
    assert_eq!(listing.workers.len(), 3);
}
