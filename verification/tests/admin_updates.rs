use mento_core::response::ErrorKind;
use mento_core::users::{UpdateUserDto, UserStore};
use mento_core::worker::{CreateWorkerProfileDto, UpdateWorkerVerificationDto, WorkerStore};

fn worker_dto() -> CreateWorkerProfileDto {
    CreateWorkerProfileDto {
        categories: vec!["plumbing".to_string()],
        subcategories: vec![],
        experience_years: 3,
        description: None,
        hourly_rate: 500,
        license_number: None,
        service_areas: vec![],
        latitude_micro: None,
        longitude_micro: None,
    }
}

#[test]
fn admin_grants_and_revokes_worker_verification() {
    let mut store = WorkerStore::new();
    let id = store.create_worker_profile(1, worker_dto(), 100).unwrap();
    assert!(!store.workers[0].is_verified);
    store.verify_worker(id, &UpdateWorkerVerificationDto { is_verified: true }, 200).unwrap();
    assert!(store.workers[0].is_verified);
    assert_eq!(store.workers[0].updated_at, 200);
    store.verify_worker(id, &UpdateWorkerVerificationDto { is_verified: false }, 300).unwrap();
    assert!(!store.workers[0].is_verified);
}

#[test]
fn verifying_an_unknown_worker_is_not_found() {
    let mut store = WorkerStore::new();
    let e = store.verify_worker(7, &UpdateWorkerVerificationDto { is_verified: true }, 200)
        .unwrap_err();
    assert_eq!(e.kind, ErrorKind::NotFound);
}

#[test]
fn admin_update_merges_fields_and_flips_active_flag() {
    let mut store = UserStore::new();
    let (id, _) = store.find_or_create_user("9876543210", 100);
    let dto = UpdateUserDto {
        name: Some("Ravi".to_string()),
        email: Some("ravi@example.com".to_string()),
        city: None,
        pincode: None,
        is_active: Some(false),
    };
    store.update_user(id, dto, 400).unwrap();
    let u = &store.users[0];
    assert_eq!(u.name.as_deref(), Some("Ravi"));
    assert_eq!(u.email.as_deref(), Some("ravi@example.com"));
    assert!(!u.is_active);
    assert_eq!(u.city, None);
    assert_eq!(u.mobile, "9876543210");
    assert_eq!(u.updated_at, 400);
}

#[test]
fn admin_update_of_unknown_user_is_not_found() {
    let mut store = UserStore::new();
    let dto = UpdateUserDto { name: None, email: None, city: None, pincode: None, is_active: None };
    let e = store.update_user(9, dto, 400).unwrap_err();
    assert_eq!(e.kind, ErrorKind::NotFound);
}
