use vinyl_swarm::db::Db;
use vinyl_swarm::error::ApiError;
use vinyl_swarm::notes::{CreateNoteSchema, UpdateNoteSchema};
use vinyl_swarm::paging::FilterOptions;
use vinyl_swarm::records::{CreateRecordSchema, UpdateRecordSchema};
use vinyl_swarm::stores::{
    CreateRecordStoreSchema, PatchRecordStoreSchema, PutRecordStoreSchema, UpdateRecordStoreSchema,
};
use vinyl_swarm::router::{dispatch, match_path, PathMatch};
use vinyl_swarm::users::{
    CreateUserSchema, PatchUserRecord, PutUserRecord, UpdateUserSchema,
};

fn store_body(name: &str, address: &str, city: &str, state: &str, zip: &str) -> CreateRecordStoreSchema {
    CreateRecordStoreSchema {
        store_name: name.to_string(),
        store_address: address.to_string(),
        store_city: city.to_string(),
        store_state: state.to_string(),
        store_zip: zip.to_string(),
        phone_number: None,
        website: None,
    }
}

fn user_body(name: &str, email: &str) -> CreateUserSchema {
    CreateUserSchema {
        user_name: name.to_string(),
        user_first_name: "First".to_string(),
        user_last_name: "Last".to_string(),
        user_email: email.to_string(),
        user_password: "opensesame".to_string(),
    }
}

fn record_body(artist: &str, title: &str) -> CreateRecordSchema {
    CreateRecordSchema {
        artist: artist.to_string(),
        title: title.to_string(),
        released: 11688,
        genre: None,
        format: None,
        price: None,
        label: "Big Hit".to_string(),
        duration_length: 2460,
    }
}

fn empty_record_patch() -> UpdateRecordSchema {
    UpdateRecordSchema {
        artist: None,
        title: None,
        released: None,
        genre: None,
        format: None,
        price: None,
        label: None,
        duration_length: None,
    }
}

fn empty_store_patch() -> UpdateRecordStoreSchema {
    UpdateRecordStoreSchema {
        store_name: None,
        store_address: None,
        store_city: None,
        store_state: None,
        store_zip: None,
        phone_number: None,
        website: None,
    }
}

fn empty_user_patch() -> UpdateUserSchema {
    UpdateUserSchema {
        user_name: None,
        user_first_name: None,
        user_last_name: None,
        user_email: None,
        user_password: None,
    }
}

#[test]
fn created_store_defaults_are_empty_strings() {
    let mut db = Db::new();
    let body = store_body("Vinyl Vault", "1 Main St", "Austin", "TX", "78701");
    let created = vinyl_swarm::stores::create_record_store(&mut db, &body, "s-1").unwrap();
    assert_eq!(created.phone_number, "");
    assert_eq!(created.website, "");
    assert_eq!(created.store_name, "Vinyl Vault");
    assert_eq!(created.store_zip, "78701");
}

#[test]
fn repeated_store_create_conflicts() {
    let mut db = Db::new();
    let body = store_body("Vinyl Vault", "1 Main St", "Austin", "TX", "78701");
    let first = vinyl_swarm::stores::create_record_store(&mut db, &body, "s-1");
    assert!(first.is_ok());
    let again = store_body("Vinyl Vault", "1 Main St", "Austin", "TX", "78701");
    let second = vinyl_swarm::stores::create_record_store(&mut db, &again, "s-2");
    match second {
        Err(ApiError::Conflict { message }) => {
            assert!(message.contains("already exists"));
            assert_eq!(message, "Record store 'Vinyl Vault' already exists.");
        }
        other => panic!("expected a conflict, got {:?}", other.is_ok()),
    }
    assert_eq!(db.record_stores.len(), 1);
}

#[test]
fn stores_differing_in_one_field_both_succeed() {
    let mut db = Db::new();
    let body = store_body("Vinyl Vault", "1 Main St", "Austin", "TX", "78701");
    assert!(vinyl_swarm::stores::create_record_store(&mut db, &body, "s-1").is_ok());
    let other_city = store_body("Vinyl Vault", "1 Main St", "Dallas", "TX", "78701");
    assert!(vinyl_swarm::stores::create_record_store(&mut db, &other_city, "s-2").is_ok());
    let other_name = store_body("Wax Works", "1 Main St", "Austin", "TX", "78701");
    assert!(vinyl_swarm::stores::create_record_store(&mut db, &other_name, "s-3").is_ok());
    assert_eq!(db.record_stores.len(), 3);
}

#[test]
fn conflict_maps_to_409() {
    let e = ApiError::Conflict { message: "x".to_string() };
    assert_eq!(e.status_code(), 409);
    assert_eq!(e.status_label(), "fail");
}

#[test]
fn store_failure_maps_to_500() {
    let e = ApiError::StoreFailure { message: "x".to_string() };
    assert_eq!(e.status_code(), 500);
    assert_eq!(e.status_label(), "error");
}

#[test]
fn validation_failure_maps_to_400() {
    let e = ApiError::ValidationFailure { message: "x".to_string() };
    assert_eq!(e.status_code(), 400);
    assert_eq!(e.status_label(), "fail");
}

#[test]
fn missing_user_yields_404_with_id_in_message() {
    let db = Db::new();
    match vinyl_swarm::users::find_specific_user(&db, "no-such-id") {
        Err(e) => {
            assert_eq!(e.status_code(), 404);
            assert!(e.message().contains("no-such-id"));
            assert_eq!(e.message(), "user_id no-such-id not found");
        }
        Ok(_) => panic!("expected not-found"),
    }
}

#[test]
fn missing_user_update_and_delete_yield_404() {
    let mut db = Db::new();
    match vinyl_swarm::users::edit_user(&mut db, "ghost", &empty_user_patch()) {
        Err(e) => {
            assert_eq!(e.status_code(), 404);
            assert!(e.message().contains("ghost"));
        }
        Ok(_) => panic!("expected not-found"),
    }
    match vinyl_swarm::users::delete_user(&mut db, "ghost") {
        Err(e) => {
            assert_eq!(e.status_code(), 404);
            assert_eq!(e.message(), "user id: ghost not found");
        }
        Ok(_) => panic!("expected not-found"),
    }
}

#[test]
fn missing_record_and_store_yield_404() {
    let db = Db::new();
    match vinyl_swarm::records::find_record(&db, "r-404") {
        Err(e) => {
            assert_eq!(e.status_code(), 404);
            assert!(e.message().contains("r-404"));
        }
        Ok(_) => panic!("expected not-found"),
    }
    match vinyl_swarm::stores::find_record_store(&db, "s-404") {
        Err(e) => {
            assert_eq!(e.status_code(), 404);
            assert!(e.message().contains("s-404"));
        }
        Ok(_) => panic!("expected not-found"),
    }
}

#[test]
fn empty_patch_leaves_store_unchanged() {
    let mut db = Db::new();
    let body = CreateRecordStoreSchema {
        phone_number: Some("512-555-0100".to_string()),
        website: Some("vaults.example".to_string()),
        ..store_body("Vinyl Vault", "1 Main St", "Austin", "TX", "78701")
    };
    let created = vinyl_swarm::stores::create_record_store(&mut db, &body, "s-1").unwrap();
    let updated = vinyl_swarm::stores::edit_record_store(&mut db, "s-1", &empty_store_patch()).unwrap();
    assert_eq!(updated.store_name, created.store_name);
    assert_eq!(updated.store_address, created.store_address);
    assert_eq!(updated.store_city, created.store_city);
    assert_eq!(updated.store_state, created.store_state);
    assert_eq!(updated.store_zip, created.store_zip);
    assert_eq!(updated.phone_number, created.phone_number);
    assert_eq!(updated.website, created.website);
}

#[test]
fn empty_patch_leaves_user_unchanged() {
    let mut db = Db::new();
    let body = user_body("karla", "karla@example.com");
    vinyl_swarm::users::create_user(&mut db, &body, "u-1", 1700000000).unwrap();
    let before_hash = db.users[0].user_password.clone();
    let updated = vinyl_swarm::users::edit_user(&mut db, "u-1", &empty_user_patch()).unwrap();
    assert_eq!(updated.user_name, "karla");
    assert_eq!(updated.user_email, "karla@example.com");
    assert_eq!(db.users[0].user_password, before_hash);
    assert_eq!(db.users[0].created_at, Some(1700000000));
}

#[test]
fn empty_patch_leaves_record_unchanged() {
    let mut db = Db::new();
    let body = CreateRecordSchema {
        genre: Some(vec!["psych".to_string(), "funk".to_string()]),
        format: Some("EP".to_string()),
        price: Some(1999),
        ..record_body("Khruangbin", "Mordechai")
    };
    let created = vinyl_swarm::records::create_new_record(&mut db, &body, "r-1").unwrap();
    let updated = vinyl_swarm::records::edit_record(&mut db, "r-1", &empty_record_patch()).unwrap();
    assert_eq!(updated.artist, created.artist);
    assert_eq!(updated.title, created.title);
    assert_eq!(updated.released, created.released);
    assert_eq!(updated.genre, vec!["psych".to_string(), "funk".to_string()]);
    assert_eq!(updated.format, "EP");
    assert_eq!(updated.price, 1999);
    assert_eq!(updated.label, created.label);
    assert_eq!(updated.duration_length, created.duration_length);
}

#[test]
fn delete_twice_yields_404_second_time() {
    let mut db = Db::new();
    let body = store_body("Vinyl Vault", "1 Main St", "Austin", "TX", "78701");
    vinyl_swarm::stores::create_record_store(&mut db, &body, "s-1").unwrap();
    assert!(vinyl_swarm::stores::delete_record_store(&mut db, "s-1").is_ok());
    match vinyl_swarm::stores::delete_record_store(&mut db, "s-1") {
        Err(e) => assert_eq!(e.status_code(), 404),
        Ok(_) => panic!("expected not-found on second delete"),
    }
}

#[test]
fn delete_record_twice_yields_404_second_time() {
    let mut db = Db::new();
    vinyl_swarm::records::create_new_record(&mut db, &record_body("A", "B"), "r-1").unwrap();
    assert!(vinyl_swarm::records::delete_record_by_id(&mut db, "r-1").is_ok());
    match vinyl_swarm::records::delete_record_by_id(&mut db, "r-1") {
        Err(e) => {
            assert_eq!(e.status_code(), 404);
            assert_eq!(e.message(), "record id: r-1 not found");
        }
        Ok(_) => panic!("expected not-found on second delete"),
    }
}

#[test]
fn list_windows_never_exceed_limit_and_pages_are_disjoint() {
    let mut db = Db::new();
    for i in 0..7 {
        let body = record_body(&format!("Artist {}", i), &format!("Title {}", i));
        let id = format!("r-{}", i);
        vinyl_swarm::records::create_new_record(&mut db, &body, &id).unwrap();
    }
    let page1 = vinyl_swarm::records::list_all_records(
        &db,
        &FilterOptions { page: Some(1), limit: Some(5) },
    );
    let page2 = vinyl_swarm::records::list_all_records(
        &db,
        &FilterOptions { page: Some(2), limit: Some(5) },
    );
    assert_eq!(page1.len(), 5);
    assert_eq!(page2.len(), 2);
    for a in &page1 {
        for b in &page2 {
            assert_ne!(a.record_id, b.record_id);
        }
    }
}

#[test]
fn list_defaults_apply_when_no_query_given() {
    let mut db = Db::new();
    for i in 0..12 {
        let body = record_body(&format!("Artist {}", i), &format!("Title {}", i));
        let id = format!("r-{}", i);
        vinyl_swarm::records::create_new_record(&mut db, &body, &id).unwrap();
    }
    let rows = vinyl_swarm::records::list_all_records(&db, &FilterOptions::default());
    assert_eq!(rows.len(), 10);
    for i in 0..6 {
        let body = user_body(&format!("user{}", i), &format!("user{}@example.com", i));
        let id = format!("u-{}", i);
        vinyl_swarm::users::create_user(&mut db, &body, &id, 0).unwrap();
    }
    let users = vinyl_swarm::users::list_all_users(&db, &FilterOptions::default());
    assert_eq!(users.len(), 5);
}

#[test]
fn page_window_arithmetic_is_exact() {
    let (limit, offset) =
        vinyl_swarm::paging::page_window(&FilterOptions { page: Some(3), limit: Some(7) }, 10);
    assert_eq!(limit, 7);
    assert_eq!(offset, 14);
    let (limit, offset) = vinyl_swarm::paging::page_window(&FilterOptions::default(), 10);
    assert_eq!(limit, 10);
    assert_eq!(offset, 0);
}

#[test]
fn create_and_attach_then_list_returns_the_one_record() {
    let mut db = Db::new();
    vinyl_swarm::users::create_user(&mut db, &user_body("ada", "ada@example.com"), "u-1", 0)
        .unwrap();
    let body = record_body("Khruangbin", "A La Sala");
    let created =
        vinyl_swarm::users::create_user_record(&mut db, "u-1", &body, "r-1", "l-1").unwrap();
    assert_eq!(created.user_id, "u-1");
    assert_eq!(created.user_record_id, "l-1");
    let rows = vinyl_swarm::users::get_user_records(&db, "u-1").unwrap().unwrap();
    assert_eq!(rows.len(), 1);
    assert_eq!(rows[0].artist, "Khruangbin");
    assert_eq!(rows[0].title, "A La Sala");
}

#[test]
fn get_user_records_is_empty_success_without_links() {
    let mut db = Db::new();
    vinyl_swarm::users::create_user(&mut db, &user_body("ada", "ada@example.com"), "u-1", 0)
        .unwrap();
    assert!(vinyl_swarm::users::get_user_records(&db, "u-1").unwrap().is_none());
}

#[test]
fn post_stores_scenario_matches_documented_exchange() {
    let mut db = Db::new();
    let body = store_body("Vinyl Vault", "1 Main St", "Austin", "TX", "78701");
    let created = vinyl_swarm::stores::create_record_store(&mut db, &body, "s-1").unwrap();
    assert_eq!(created.phone_number, "");
    assert_eq!(created.website, "");
    let body = store_body("Vinyl Vault", "1 Main St", "Austin", "TX", "78701");
    match vinyl_swarm::stores::create_record_store(&mut db, &body, "s-2") {
        Err(e) => {
            assert_eq!(e.status_code(), 409);
            assert!(e.message().contains("already exists"));
        }
        Ok(_) => panic!("expected a conflict"),
    }
}

#[test]
fn delete_users_scenario_matches_documented_message() {
    let mut db = Db::new();
    let id = "42f06866-ecc1-4530-9f0c-e2e1229cdafe";
    match vinyl_swarm::users::delete_user(&mut db, id) {
        Err(e) => {
            assert_eq!(e.status_code(), 404);
            assert_eq!(e.message(), &format!("user id: {} not found", id));
        }
        Ok(_) => panic!("expected not-found"),
    }
}

#[test]
fn record_defaults_fill_absent_fields() {
    let mut db = Db::new();
    let created =
        vinyl_swarm::records::create_new_record(&mut db, &record_body("A", "B"), "r-1").unwrap();
    assert_eq!(created.format, "LP");
    assert_eq!(created.price, 0);
    assert!(created.genre.is_empty());
}

#[test]
fn created_user_is_returned_without_password_and_hash_is_stored() {
    let mut db = Db::new();
    let body = user_body("karla", "karla@example.com");
    let resp = vinyl_swarm::users::create_user(&mut db, &body, "u-1", 42).unwrap();
    assert_eq!(resp.user_id, "u-1");
    assert_eq!(resp.user_name, "karla");
    assert_eq!(resp.created_at, Some(42));
    let stored = &db.users[0].user_password;
    assert_ne!(stored, "opensesame");
    assert_eq!(stored.len(), 60);
    assert!(stored.starts_with("$2"));
}

#[test]
fn duplicate_user_name_conflicts() {
    let mut db = Db::new();
    vinyl_swarm::users::create_user(&mut db, &user_body("karla", "a@example.com"), "u-1", 0)
        .unwrap();
    match vinyl_swarm::users::create_user(
        &mut db,
        &user_body("karla", "b@example.com"),
        "u-2",
        0,
    ) {
        Err(e) => {
            assert_eq!(e.status_code(), 409);
            assert_eq!(e.message(), "user_name karla already exists");
        }
        Ok(_) => panic!("expected a conflict"),
    }
}

#[test]
fn user_rename_onto_taken_email_is_store_failure() {
    let mut db = Db::new();
    vinyl_swarm::users::create_user(&mut db, &user_body("ada", "ada@example.com"), "u-1", 0)
        .unwrap();
    vinyl_swarm::users::create_user(&mut db, &user_body("bea", "bea@example.com"), "u-2", 0)
        .unwrap();
    let patch = UpdateUserSchema {
        user_email: Some("ada@example.com".to_string()),
        ..empty_user_patch()
    };
    match vinyl_swarm::users::edit_user(&mut db, "u-2", &patch) {
        Err(e) => assert_eq!(e.status_code(), 500),
        Ok(_) => panic!("expected a store failure"),
    }
}

#[test]
fn duplicate_generated_record_id_is_store_failure() {
    let mut db = Db::new();
    vinyl_swarm::records::create_new_record(&mut db, &record_body("A", "B"), "r-1").unwrap();
    match vinyl_swarm::records::create_new_record(&mut db, &record_body("C", "D"), "r-1") {
        Err(e) => {
            assert_eq!(e.status_code(), 500);
            assert!(e.message().contains("duplicate key"));
        }
        Ok(_) => panic!("expected a store failure"),
    }
}

#[test]
fn patch_merges_supplied_fields_over_stored_record() {
    let mut db = Db::new();
    vinyl_swarm::records::create_new_record(&mut db, &record_body("A", "B"), "r-1").unwrap();
    let patch = UpdateRecordSchema {
        title: Some("B-side".to_string()),
        price: Some(2599),
        ..empty_record_patch()
    };
    let updated = vinyl_swarm::records::edit_record(&mut db, "r-1", &patch).unwrap();
    assert_eq!(updated.artist, "A");
    assert_eq!(updated.title, "B-side");
    assert_eq!(updated.price, 2599);
    assert_eq!(updated.format, "LP");
}

#[test]
fn deleting_user_cascades_to_associations() {
    let mut db = Db::new();
    vinyl_swarm::users::create_user(&mut db, &user_body("ada", "ada@example.com"), "u-1", 0)
        .unwrap();
    vinyl_swarm::users::create_user_record(&mut db, "u-1", &record_body("A", "B"), "r-1", "l-1")
        .unwrap();
    vinyl_swarm::records::add_to_user_wishlist(
        &mut db,
        "u-1",
        &record_body("C", "D"),
        "r-2",
        "w-1",
        7,
    )
    .unwrap();
    assert!(vinyl_swarm::users::delete_user(&mut db, "u-1").is_ok());
    assert!(db.users.is_empty());
    assert!(db.user_records.is_empty());
    assert!(db.user_wishlist.is_empty());
    assert_eq!(db.records.len(), 2);
}

#[test]
fn put_user_record_rejects_duplicate_attachment() {
    let mut db = Db::new();
    vinyl_swarm::users::create_user(&mut db, &user_body("ada", "ada@example.com"), "u-1", 0)
        .unwrap();
    vinyl_swarm::records::create_new_record(&mut db, &record_body("A", "B"), "r-1").unwrap();
    let body = PutUserRecord { record_id: "r-1".to_string() };
    assert!(vinyl_swarm::users::put_user_record(&mut db, "u-1", &body, "l-1").is_ok());
    let body = PutUserRecord { record_id: "r-1".to_string() };
    match vinyl_swarm::users::put_user_record(&mut db, "u-1", &body, "l-2") {
        Err(e) => {
            assert_eq!(e.status_code(), 409);
            assert_eq!(e.message(), "record_id: r-1 already in collection");
        }
        Ok(_) => panic!("expected a conflict"),
    }
}

#[test]
fn remove_user_record_detaches_exactly_one_pair() {
    let mut db = Db::new();
    vinyl_swarm::users::create_user(&mut db, &user_body("ada", "ada@example.com"), "u-1", 0)
        .unwrap();
    vinyl_swarm::users::create_user_record(&mut db, "u-1", &record_body("A", "B"), "r-1", "l-1")
        .unwrap();
    let body = PatchUserRecord { record_id: "r-1".to_string() };
    assert!(vinyl_swarm::users::remove_user_record(&mut db, "u-1", &body).is_ok());
    assert!(db.user_records.is_empty());
    assert_eq!(db.records.len(), 1);
    let body = PatchUserRecord { record_id: "r-1".to_string() };
    match vinyl_swarm::users::remove_user_record(&mut db, "u-1", &body) {
        Err(e) => {
            assert_eq!(e.status_code(), 404);
            assert_eq!(
                e.message(),
                "No user_records found for user_id: u-1 and record_id: r-1"
            );
        }
        Ok(_) => panic!("expected not-found"),
    }
}

#[test]
fn remove_all_user_records_reports_when_nothing_was_there() {
    let mut db = Db::new();
    match vinyl_swarm::users::remove_all_user_records(&mut db, "u-9") {
        Err(e) => {
            assert_eq!(e.status_code(), 404);
            assert_eq!(e.message(), "no records found for user id: u-9");
        }
        Ok(_) => panic!("expected not-found"),
    }
}

#[test]
fn wishlist_round_trip() {
    let mut db = Db::new();
    vinyl_swarm::users::create_user(&mut db, &user_body("ada", "ada@example.com"), "u-1", 0)
        .unwrap();
    assert!(vinyl_swarm::records::get_users_wishlist(&db, "u-1").unwrap().is_none());
    let added = vinyl_swarm::records::add_to_user_wishlist(
        &mut db,
        "u-1",
        &record_body("A", "B"),
        "r-1",
        "w-1",
        7,
    )
    .unwrap();
    assert_eq!(added.record_id, "r-1");
    let rows = vinyl_swarm::records::get_users_wishlist(&db, "u-1").unwrap().unwrap();
    assert_eq!(rows.len(), 1);
    assert_eq!(rows[0].artist, "A");
    let body = PatchUserRecord { record_id: "r-1".to_string() };
    assert!(vinyl_swarm::records::remove_wishlist_record(&mut db, "u-1", &body).is_ok());
    assert!(vinyl_swarm::records::get_users_wishlist(&db, "u-1").unwrap().is_none());
}

#[test]
fn remove_user_wishlist_clears_every_row() {
    let mut db = Db::new();
    vinyl_swarm::users::create_user(&mut db, &user_body("ada", "ada@example.com"), "u-1", 0)
        .unwrap();
    vinyl_swarm::records::create_new_record(&mut db, &record_body("A", "B"), "r-1").unwrap();
    vinyl_swarm::records::create_new_record(&mut db, &record_body("C", "D"), "r-2").unwrap();
    let body = PutUserRecord { record_id: "r-1".to_string() };
    vinyl_swarm::records::put_wishlist_record(&mut db, "u-1", &body, "w-1", 7).unwrap();
    let body = PutUserRecord { record_id: "r-2".to_string() };
    vinyl_swarm::records::put_wishlist_record(&mut db, "u-1", &body, "w-2", 8).unwrap();
    assert!(vinyl_swarm::records::remove_user_wishlist(&mut db, "u-1").is_ok());
    assert!(db.user_wishlist.is_empty());
    match vinyl_swarm::records::remove_user_wishlist(&mut db, "u-1") {
        Err(e) => assert_eq!(e.status_code(), 404),
        Ok(_) => panic!("expected not-found"),
    }
}

#[test]
fn favourite_store_round_trip() {
    let mut db = Db::new();
    vinyl_swarm::users::create_user(&mut db, &user_body("ada", "ada@example.com"), "u-1", 0)
        .unwrap();
    let body = store_body("Vinyl Vault", "1 Main St", "Austin", "TX", "78701");
    vinyl_swarm::stores::create_record_store(&mut db, &body, "s-1").unwrap();
    let put = PutRecordStoreSchema { record_store_id: "s-1".to_string() };
    let attached =
        vinyl_swarm::stores::add_existing_record_store(&mut db, "u-1", &put, "f-1").unwrap();
    assert_eq!(attached.user_favorite_stores_id, "f-1");
    assert_eq!(attached.record_store.store_name, "Vinyl Vault");
    let rows = vinyl_swarm::stores::get_user_record_stores(&db, "u-1").unwrap().unwrap();
    assert_eq!(rows.len(), 1);
    let patch = PatchRecordStoreSchema { record_store_id: "s-1".to_string() };
    assert!(vinyl_swarm::stores::delete_user_record_store(&mut db, "u-1", &patch).is_ok());
    assert!(vinyl_swarm::stores::get_user_record_stores(&db, "u-1").unwrap().is_none());
}

#[test]
fn get_user_record_stores_requires_the_user() {
    let db = Db::new();
    match vinyl_swarm::stores::get_user_record_stores(&db, "u-9") {
        Err(e) => {
            assert_eq!(e.status_code(), 404);
            assert_eq!(e.message(), "user_id u-9 not found");
        }
        Ok(_) => panic!("expected not-found"),
    }
}

#[test]
fn add_user_record_store_creates_and_attaches() {
    let mut db = Db::new();
    vinyl_swarm::users::create_user(&mut db, &user_body("ada", "ada@example.com"), "u-1", 0)
        .unwrap();
    let body = store_body("Wax Works", "2 Side St", "Austin", "TX", "78702");
    let made =
        vinyl_swarm::stores::add_user_record_store(&mut db, "u-1", &body, "s-1", "f-1").unwrap();
    assert_eq!(made.user_record_store_id, "s-1");
    assert_eq!(made.record_store.phone_number, "");
    assert_eq!(db.record_stores.len(), 1);
    assert_eq!(db.user_record_stores.len(), 1);
}

#[test]
fn note_crud_round_trip() {
    let mut db = Db::new();
    let body = CreateNoteSchema {
        title: "groceries".to_string(),
        content: "eggs".to_string(),
        category: None,
    };
    let created = vinyl_swarm::notes::create_note_handler(&mut db, &body, "n-1", 5).unwrap();
    assert_eq!(created.category, "");
    assert!(!created.published);
    assert_eq!(created.created_at, 5);
    let body = CreateNoteSchema {
        title: "groceries".to_string(),
        content: "milk".to_string(),
        category: None,
    };
    match vinyl_swarm::notes::create_note_handler(&mut db, &body, "n-2", 6) {
        Err(e) => {
            assert_eq!(e.status_code(), 409);
            assert_eq!(e.message(), "Note with that title already exists");
        }
        Ok(_) => panic!("expected a conflict"),
    }
    let patch = UpdateNoteSchema {
        title: None,
        content: Some("eggs and milk".to_string()),
        category: None,
        published: Some(true),
    };
    let updated = vinyl_swarm::notes::edit_note_handler(&mut db, "n-1", &patch, 9).unwrap();
    assert_eq!(updated.content, "eggs and milk");
    assert!(updated.published);
    assert_eq!(updated.updated_at, 9);
    assert_eq!(updated.created_at, 5);
    let read = vinyl_swarm::notes::read_note_handler(&db, "n-1").unwrap();
    assert_eq!(read.content, "eggs and milk");
    assert!(vinyl_swarm::notes::delete_note_handler(&mut db, "n-1").is_ok());
    match vinyl_swarm::notes::read_note_handler(&db, "n-1") {
        Err(e) => {
            assert_eq!(e.status_code(), 404);
            assert_eq!(e.message(), "Note with ID: n-1 not found");
        }
        Ok(_) => panic!("expected not-found"),
    }
}

#[test]
fn note_list_windows_apply() {
    let mut db = Db::new();
    for i in 0..11 {
        let body = CreateNoteSchema {
            title: format!("note {}", i),
            content: "c".to_string(),
            category: None,
        };
        let id = format!("n-{}", i);
        vinyl_swarm::notes::create_note_handler(&mut db, &body, &id, 0).unwrap();
    }
    let rows = vinyl_swarm::notes::note_list_handler(&db, &FilterOptions::default());
    assert_eq!(rows.len(), 10);
}

#[test]
fn combine_supplied_genres_unwraps_or_defaults() {
    let supplied = Some(vec!["jazz".to_string()]);
    assert_eq!(vinyl_swarm::records::combine_supplied_genres(supplied), vec!["jazz".to_string()]);
    let empty = vinyl_swarm::records::combine_supplied_genres(None);
    assert!(empty.is_empty());
}

#[test]
fn status_handlers_report_fixed_bodies() {
    let s = vinyl_swarm::status::status_handler();
    assert_eq!(s.status, "ok");
    assert_eq!(s.message, "vinyl swarm running: \u{1F47D} ");
    let s = vinyl_swarm::status::status_check_handler();
    assert_eq!(s.status, "Success");
    assert_eq!(s.message, "Simple CRUD API with Rust, SQLX, Postgres, and Axum");
}

#[test]
fn basic_auth_header_encodes_the_credentials() {
    let header = vinyl_swarm::auth::basic_auth_header("abc", "xyz");
    assert_eq!(header, "Basic  YWJjOnh5eg==");
    assert_ne!(header, "Basic  abc:xyz");
}

#[test]
fn list_all_stores_orders_by_name() {
    let mut db = Db::new();
    for (i, name) in ["Waterloo", "Antone's", "End of an Ear"].iter().enumerate() {
        let body = store_body(name, "1 Main St", "Austin", "TX", "78701");
        let id = format!("s-{}", i);
        vinyl_swarm::stores::create_record_store(&mut db, &body, &id).unwrap();
    }
    let rows = vinyl_swarm::stores::list_all_stores(&db, &FilterOptions::default());
    assert_eq!(rows.len(), 3);
    assert_eq!(rows[0].store_name, "Antone's");
    assert_eq!(rows[1].store_name, "End of an Ear");
    assert_eq!(rows[2].store_name, "Waterloo");
}

#[test]
fn list_all_records_orders_by_artist_and_keeps_ties_stable() {
    let mut db = Db::new();
    vinyl_swarm::records::create_new_record(&mut db, &record_body("Zappa", "One"), "r-1").unwrap();
    vinyl_swarm::records::create_new_record(&mut db, &record_body("Abba", "Two"), "r-2").unwrap();
    vinyl_swarm::records::create_new_record(&mut db, &record_body("Abba", "Three"), "r-3")
        .unwrap();
    let rows = vinyl_swarm::records::list_all_records(&db, &FilterOptions::default());
    assert_eq!(rows.len(), 3);
    assert_eq!(rows[0].title, "Two");
    assert_eq!(rows[1].title, "Three");
    assert_eq!(rows[2].artist, "Zappa");
}

#[test]
fn list_all_users_orders_by_user_name() {
    let mut db = Db::new();
    vinyl_swarm::users::create_user(&mut db, &user_body("zoe", "z@example.com"), "u-1", 0)
        .unwrap();
    vinyl_swarm::users::create_user(&mut db, &user_body("ada", "a@example.com"), "u-2", 0)
        .unwrap();
    let rows = vinyl_swarm::users::list_all_users(&db, &FilterOptions::default());
    assert_eq!(rows[0].user_name, "ada");
    assert_eq!(rows[1].user_name, "zoe");
}

#[test]
fn user_model_converts_to_response_without_password() {
    let model = vinyl_swarm::users::UserModel {
        user_id: "u-1".to_string(),
        user_name: "ada".to_string(),
        user_first_name: "Ada".to_string(),
        user_last_name: "L".to_string(),
        user_email: "ada@example.com".to_string(),
        user_password: "$2b$12$secret".to_string(),
        created_at: Some(3),
    };
    let resp = vinyl_swarm::users::UserResponseSchema::from(model);
    assert_eq!(resp.user_id, "u-1");
    assert_eq!(resp.user_name, "ada");
    assert_eq!(resp.created_at, Some(3));
}

#[test]
fn window_past_the_end_is_empty() {
    let mut db = Db::new();
    vinyl_swarm::records::create_new_record(&mut db, &record_body("A", "B"), "r-1").unwrap();
    let rows = vinyl_swarm::records::list_all_records(
        &db,
        &FilterOptions { page: Some(5), limit: Some(10) },
    );
    assert!(rows.is_empty());
}

#[test]
fn user_list_is_windowed_and_public() {
    let mut db = Db::new();
    for i in 0..3 {
        let body = user_body(&format!("user{}", i), &format!("user{}@example.com", i));
        let id = format!("u-{}", i);
        vinyl_swarm::users::create_user(&mut db, &body, &id, 0).unwrap();
    }
    let users = vinyl_swarm::users::list_all_users(
        &db,
        &FilterOptions { page: Some(2), limit: Some(2) },
    );
    assert_eq!(users.len(), 1);
    assert_eq!(users[0].user_name, "user2");
}

#[test]
fn router_resolves_fixed_paths() {
    assert!(matches!(match_path("/api/status"), Some(PathMatch::Status)));
    assert!(matches!(match_path("/api/records"), Some(PathMatch::Records)));
    assert!(matches!(match_path("/api/users"), Some(PathMatch::Users)));
    assert!(match_path("/api/nowhere").is_none());
    assert!(match_path("/records").is_none());
    assert!(match_path("/api/records/").is_none());
}

#[test]
fn router_captures_identifier_segments() {
    match match_path("/api/records/abc-123") {
        Some(PathMatch::Record { id }) => assert_eq!(id, "abc-123"),
        _ => panic!("expected a record path"),
    }
    match match_path("/api/users/records/u-9") {
        Some(PathMatch::UserRecords { user_id }) => assert_eq!(user_id, "u-9"),
        _ => panic!("expected a user-records path"),
    }
    match match_path("/api/records/wishlist/u-9") {
        Some(PathMatch::Wishlist { user_id }) => assert_eq!(user_id, "u-9"),
        _ => panic!("expected a wishlist path"),
    }
    match match_path("/api/records/wishlist") {
        Some(PathMatch::Record { id }) => assert_eq!(id, "wishlist"),
        _ => panic!("a single trailing segment matches the one-row template"),
    }
    assert!(match_path("/api/records/a/b").is_none());
}

#[test]
fn router_checks_the_method_table() {
    assert!(matches!(dispatch("GET", "/api/status"), Some(PathMatch::Status)));
    assert!(dispatch("POST", "/api/status").is_none());
    assert!(matches!(dispatch("POST", "/api/stores"), Some(PathMatch::Stores)));
    assert!(dispatch("DELETE", "/api/stores").is_none());
    assert!(matches!(
        dispatch("PATCH", "/api/users/records/u-1"),
        Some(PathMatch::UserRecords { .. })
    ));
    assert!(dispatch("PATCH", "/api/record_stores/u-1").is_none());
    assert!(dispatch("OPTIONS", "/api/status").is_none());
}

#[test]
fn by_owner_reads_require_the_owner() {
    let db = Db::new();
    match vinyl_swarm::users::get_user_records(&db, "u-9") {
        Err(e) => {
            assert_eq!(e.status_code(), 404);
            assert_eq!(e.message(), "user_id u-9 not found");
        }
        Ok(_) => panic!("expected not-found"),
    }
    match vinyl_swarm::records::get_users_wishlist(&db, "u-9") {
        Err(e) => {
            assert_eq!(e.status_code(), 404);
            assert_eq!(e.message(), "user_id u-9 not found");
        }
        Ok(_) => panic!("expected not-found"),
    }
}

#[test]
fn two_users_can_collect_the_same_record() {
    let mut db = Db::new();
    vinyl_swarm::users::create_user(&mut db, &user_body("ada", "ada@example.com"), "u-1", 0)
        .unwrap();
    vinyl_swarm::users::create_user(&mut db, &user_body("bea", "bea@example.com"), "u-2", 0)
        .unwrap();
    vinyl_swarm::records::create_new_record(&mut db, &record_body("A", "B"), "r-1").unwrap();
    let body = PutUserRecord { record_id: "r-1".to_string() };
    assert!(vinyl_swarm::users::put_user_record(&mut db, "u-1", &body, "l-1").is_ok());
    let body = PutUserRecord { record_id: "r-1".to_string() };
    assert!(vinyl_swarm::users::put_user_record(&mut db, "u-2", &body, "l-2").is_ok());
    assert_eq!(db.user_records.len(), 2);
}

#[test]
fn create_and_attach_maps_refused_record_insert_to_500() {
    let mut db = Db::new();
    vinyl_swarm::users::create_user(&mut db, &user_body("ada", "ada@example.com"), "u-1", 0)
        .unwrap();
    vinyl_swarm::records::create_new_record(&mut db, &record_body("A", "B"), "r-1").unwrap();
    match vinyl_swarm::users::create_user_record(&mut db, "u-1", &record_body("C", "D"), "r-1", "l-1")
    {
        Err(e) => {
            assert_eq!(e.status_code(), 500);
            assert!(e.message().contains("duplicate key"));
        }
        Ok(_) => panic!("expected a store failure"),
    }
    assert_eq!(db.records.len(), 1);
    assert!(db.user_records.is_empty());
}
