use garment_inventory::boss::{BossService, CreateBossParams, UpdateBossParams};
use garment_inventory::clothing::{ClothingService, CreateClothingParams};
use garment_inventory::database::Database;
use garment_inventory::entity::{Boss, Patch};
use garment_inventory::error::StoreError;
use garment_inventory::query::ListQueryParams;
use garment_inventory::user::{CreateUserParams, UserService};

fn boss_user(db: &mut Database, phone: &str) -> i32 {
    UserService::create(
        db,
        CreateUserParams {
            username: format!("user {phone}"),
            password: "hash".to_string(),
            phone_number: phone.to_string(),
        },
    )
    .unwrap()
    .id
}

fn boss_params(name: &str, description: Option<&str>) -> CreateBossParams {
    CreateBossParams {
        name: name.to_string(),
        phone_number: "222".to_string(),
        description: description.map(|d| d.to_string()),
        address: Some("Main street".to_string()),
    }
}

fn boss_keep_all() -> UpdateBossParams {
    UpdateBossParams {
        name: None,
        phone_number: None,
        description: Patch::Absent,
        address: Patch::Absent,
    }
}

fn boss_page(page: u64, size: u64) -> ListQueryParams {
    ListQueryParams { page: Some(page), page_size: Some(size), ..ListQueryParams::new() }
}

#[test]
fn a_boss_is_created_with_the_next_id_and_the_clock() {
    let mut db = Database::new();
    let user = boss_user(&mut db, "1");
    db.advance_clock(500);
    let boss = BossService::create(&mut db, user, boss_params("Shop A", Some("first"))).unwrap();
    assert_eq!(
        boss,
        Boss {
            id: 1,
            name: "Shop A".to_string(),
            phone_number: "222".to_string(),
            description: Some("first".to_string()),
            address: Some("Main street".to_string()),
            create_at: 500,
            user_id: user,
        }
    );
    let second = BossService::create(&mut db, user, boss_params("Shop B", None)).unwrap();
    assert_eq!((second.id, second.create_at), (2, 500));
    assert_eq!(BossService::find_by_id(&db, user, 1), Ok(boss));
    assert_eq!(BossService::find_by_id(&db, user, 2), Ok(second));
}

#[test]
fn a_boss_needs_an_existing_user() {
    let mut db = Database::new();
    assert_eq!(
        BossService::create(&mut db, 1, boss_params("Shop", None)),
        Err(StoreError::ForeignKey)
    );
    let user = boss_user(&mut db, "1");
    assert_eq!(
        BossService::create(&mut db, user + 1, boss_params("Shop", None)),
        Err(StoreError::ForeignKey)
    );
    let list = BossService::find_by_user_id(&db, user, ListQueryParams::new()).unwrap();
    assert_eq!(list.total, 0);
}

#[test]
fn the_clock_never_runs_backwards() {
    let mut db = Database::new();
    assert_eq!(db.clock(), 0);
    db.advance_clock(100);
    assert_eq!(db.clock(), 100);
    db.advance_clock(50);
    assert_eq!(db.clock(), 100);
    db.advance_clock(-7);
    assert_eq!(db.clock(), 100);
    db.advance_clock(101);
    assert_eq!(db.clock(), 101);
}

#[test]
fn another_users_boss_is_not_found() {
    let mut db = Database::new();
    let ann = boss_user(&mut db, "1");
    let bob = boss_user(&mut db, "2");
    let boss = BossService::create(&mut db, ann, boss_params("Shop A", None)).unwrap();
    assert_eq!(BossService::find_by_id(&db, bob, boss.id), Err(StoreError::NotFound));
    assert_eq!(
        BossService::update(&mut db, bob, boss.id, boss_keep_all()),
        Err(StoreError::NotFound)
    );
    assert_eq!(BossService::delete(&mut db, bob, boss.id), Err(StoreError::NotFound));
    assert_eq!(BossService::find_by_id(&db, ann, boss.id), Ok(boss));
    assert_eq!(BossService::find_by_user_id(&db, bob, ListQueryParams::new()).unwrap().total, 0);
}

#[test]
fn a_missing_boss_is_not_found() {
    let mut db = Database::new();
    let ann = boss_user(&mut db, "1");
    assert_eq!(BossService::find_by_id(&db, ann, 1), Err(StoreError::NotFound));
    assert_eq!(BossService::find_by_id(&db, ann, 0), Err(StoreError::NotFound));
    assert_eq!(BossService::find_by_id(&db, ann, -1), Err(StoreError::NotFound));
    assert_eq!(BossService::delete(&mut db, ann, 1), Err(StoreError::NotFound));
    assert_eq!(BossService::update(&mut db, ann, 1, boss_keep_all()), Err(StoreError::NotFound));
}

#[test]
fn reading_twice_returns_the_same() {
    let mut db = Database::new();
    let ann = boss_user(&mut db, "1");
    let boss = BossService::create(&mut db, ann, boss_params("Shop A", None)).unwrap();
    let first = BossService::find_by_id(&db, ann, boss.id);
    let second = BossService::find_by_id(&db, ann, boss.id);
    assert_eq!(first, second);
    assert_eq!(first, Ok(boss));
}

#[test]
fn updating_one_column_leaves_the_others() {
    let mut db = Database::new();
    let ann = boss_user(&mut db, "1");
    db.advance_clock(10);
    let boss = BossService::create(&mut db, ann, boss_params("Shop A", Some("old"))).unwrap();
    db.advance_clock(20);
    let updated = BossService::update(
        &mut db,
        ann,
        boss.id,
        UpdateBossParams { name: Some("Shop B".to_string()), ..boss_keep_all() },
    )
    .unwrap();
    assert_eq!(updated, Boss { name: "Shop B".to_string(), ..boss.clone() });
    assert_eq!(BossService::find_by_id(&db, ann, boss.id), Ok(updated.clone()));

    let updated = BossService::update(
        &mut db,
        ann,
        boss.id,
        UpdateBossParams { phone_number: Some("999".to_string()), ..boss_keep_all() },
    )
    .unwrap();
    assert_eq!(updated.phone_number, "999");
    assert_eq!(updated.name, "Shop B");
    assert_eq!(updated.description, Some("old".to_string()));
    assert_eq!(updated.address, Some("Main street".to_string()));
    assert_eq!((updated.id, updated.user_id, updated.create_at), (boss.id, ann, 10));
}

#[test]
fn null_clears_a_column_and_a_value_sets_it() {
    let mut db = Database::new();
    let ann = boss_user(&mut db, "1");
    let boss = BossService::create(&mut db, ann, boss_params("Shop A", Some("old"))).unwrap();
    let updated = BossService::update(
        &mut db,
        ann,
        boss.id,
        UpdateBossParams { description: Patch::Null, ..boss_keep_all() },
    )
    .unwrap();
    assert_eq!(updated, Boss { description: None, ..boss.clone() });
    let updated = BossService::update(
        &mut db,
        ann,
        boss.id,
        UpdateBossParams {
            description: Patch::Value("new".to_string()),
            address: Patch::Null,
            ..boss_keep_all()
        },
    )
    .unwrap();
    assert_eq!(updated, Boss { description: Some("new".to_string()), address: None, ..boss });
}

#[test]
fn an_empty_update_changes_nothing() {
    let mut db = Database::new();
    let ann = boss_user(&mut db, "1");
    let boss = BossService::create(&mut db, ann, boss_params("Shop A", Some("old"))).unwrap();
    assert_eq!(BossService::update(&mut db, ann, boss.id, boss_keep_all()), Ok(boss.clone()));
    assert_eq!(boss_keep_all().apply(boss.clone()), boss);
}

#[test]
fn an_update_touches_one_boss_only() {
    let mut db = Database::new();
    let ann = boss_user(&mut db, "1");
    let first = BossService::create(&mut db, ann, boss_params("A", None)).unwrap();
    let second = BossService::create(&mut db, ann, boss_params("B", None)).unwrap();
    let third = BossService::create(&mut db, ann, boss_params("C", None)).unwrap();
    BossService::update(
        &mut db,
        ann,
        second.id,
        UpdateBossParams { name: Some("B2".to_string()), ..boss_keep_all() },
    )
    .unwrap();
    assert_eq!(BossService::find_by_id(&db, ann, first.id), Ok(first));
    assert_eq!(BossService::find_by_id(&db, ann, third.id), Ok(third));
    assert_eq!(BossService::find_by_id(&db, ann, second.id).unwrap().name, "B2");
}

#[test]
fn deleting_a_boss_returns_it_and_removes_its_clothing() {
    let mut db = Database::new();
    let ann = boss_user(&mut db, "1");
    let keep = BossService::create(&mut db, ann, boss_params("Keep", None)).unwrap();
    let gone = BossService::create(&mut db, ann, boss_params("Gone", None)).unwrap();
    let article = |boss_id: i32, name: &str| CreateClothingParams {
        boss_id,
        name: name.to_string(),
        price: 5,
        description: None,
        image: None,
    };
    let kept = ClothingService::create(&mut db, ann, article(keep.id, "kept")).unwrap();
    let lost = ClothingService::create(&mut db, ann, article(gone.id, "lost")).unwrap();
    let lost_too = ClothingService::create(&mut db, ann, article(gone.id, "lost too")).unwrap();

    assert_eq!(BossService::delete(&mut db, ann, gone.id), Ok(gone.clone()));
    assert_eq!(BossService::find_by_id(&db, ann, gone.id), Err(StoreError::NotFound));
    assert_eq!(BossService::delete(&mut db, ann, gone.id), Err(StoreError::NotFound));
    assert_eq!(ClothingService::find_by_id(&db, ann, lost.id), Err(StoreError::NotFound));
    assert_eq!(ClothingService::find_by_id(&db, ann, lost_too.id), Err(StoreError::NotFound));
    assert_eq!(ClothingService::find_by_id(&db, ann, kept.id), Ok(kept.clone()));
    assert_eq!(BossService::find_by_id(&db, ann, keep.id), Ok(keep));
    let list = ClothingService::find_by_user_id(&db, ann, ListQueryParams::new(), None).unwrap();
    assert_eq!(list.total, 1);
    assert_eq!(list.data, vec![kept]);
}

#[test]
fn ids_are_not_reused_after_a_delete() {
    let mut db = Database::new();
    let ann = boss_user(&mut db, "1");
    let first = BossService::create(&mut db, ann, boss_params("A", None)).unwrap();
    BossService::delete(&mut db, ann, first.id).unwrap();
    let second = BossService::create(&mut db, ann, boss_params("B", None)).unwrap();
    assert_eq!(second.id, first.id + 1);
}

#[test]
fn a_listing_counts_all_and_shows_a_page() {
    let mut db = Database::new();
    let ann = boss_user(&mut db, "1");
    let bob = boss_user(&mut db, "2");
    for k in 0..25 {
        db.advance_clock(1_000 + k);
        BossService::create(&mut db, ann, boss_params(&format!("Shop {k}"), None)).unwrap();
        BossService::create(&mut db, bob, boss_params(&format!("Other {k}"), None)).unwrap();
    }
    for (page, size, expected) in
        [(0, 10, 10), (1, 10, 10), (2, 10, 5), (3, 10, 0), (0, 25, 25), (0, 100, 25), (4, 6, 1), (0, 0, 0), (7, 3, 3), (8, 3, 1), (9, 3, 0)]
    {
        let list = BossService::find_by_user_id(&db, ann, boss_page(page, size)).unwrap();
        assert_eq!(list.total, 25, "page {page} size {size}");
        assert_eq!(list.data.len(), expected, "page {page} size {size}");
        assert!(list.data.iter().all(|b| b.user_id == ann));
    }
    let list = BossService::find_by_user_id(&db, ann, boss_page(2, 10)).unwrap();
    let names: Vec<&str> = list.data.iter().map(|b| b.name.as_str()).collect();
    assert_eq!(names, vec!["Shop 4", "Shop 3", "Shop 2", "Shop 1", "Shop 0"]);
}

#[test]
fn a_listing_without_page_parameters_is_the_first_ten() {
    let mut db = Database::new();
    let ann = boss_user(&mut db, "1");
    for k in 0..12 {
        BossService::create(&mut db, ann, boss_params(&format!("Shop {k}"), None)).unwrap();
    }
    let q = ListQueryParams { page: None, page_size: None, ..ListQueryParams::new() };
    let list = BossService::find_by_user_id(&db, ann, q).unwrap();
    assert_eq!(list.total, 12);
    assert_eq!(list.data.len(), 10);
    assert_eq!(list.data[0].name, "Shop 11");
    assert_eq!(list.data[9].name, "Shop 2");
}

#[test]
fn a_listing_is_newest_first_and_breaks_ties_by_id() {
    let mut db = Database::new();
    let ann = boss_user(&mut db, "1");
    db.advance_clock(100);
    let a = BossService::create(&mut db, ann, boss_params("a", None)).unwrap();
    let b = BossService::create(&mut db, ann, boss_params("b", None)).unwrap();
    db.advance_clock(200);
    let c = BossService::create(&mut db, ann, boss_params("c", None)).unwrap();
    db.advance_clock(150);
    let d = BossService::create(&mut db, ann, boss_params("d", None)).unwrap();
    assert_eq!((a.create_at, b.create_at, c.create_at, d.create_at), (100, 100, 200, 200));
    let list = BossService::find_by_user_id(&db, ann, ListQueryParams::new()).unwrap();
    assert_eq!(list.data, vec![d, c, b, a]);
    for pair in list.data.windows(2) {
        assert!(
            pair[0].create_at > pair[1].create_at
                || (pair[0].create_at == pair[1].create_at && pair[0].id > pair[1].id)
        );
    }
}

#[test]
fn a_search_matches_name_or_description() {
    let mut db = Database::new();
    let ann = boss_user(&mut db, "1");
    let a = BossService::create(&mut db, ann, boss_params("Silk house", None)).unwrap();
    let b = BossService::create(&mut db, ann, boss_params("Depot", Some("sells Silk"))).unwrap();
    BossService::create(&mut db, ann, boss_params("Depot", Some("sells silk"))).unwrap();
    BossService::create(&mut db, ann, boss_params("Wool", None)).unwrap();
    let q = ListQueryParams { search: Some("Silk".to_string()), ..ListQueryParams::new() };
    let list = BossService::find_by_user_id(&db, ann, q).unwrap();
    assert_eq!(list.total, 2);
    assert_eq!(list.data, vec![b, a]);
    let q = ListQueryParams { search: Some("silk".to_string()), ..ListQueryParams::new() };
    assert_eq!(BossService::find_by_user_id(&db, ann, q).unwrap().total, 1);
    let q = ListQueryParams { search: Some("Cotton".to_string()), ..ListQueryParams::new() };
    assert_eq!(BossService::find_by_user_id(&db, ann, q).unwrap().total, 0);
}

#[test]
fn an_empty_search_matches_every_name() {
    let mut db = Database::new();
    let ann = boss_user(&mut db, "1");
    BossService::create(&mut db, ann, boss_params("A", None)).unwrap();
    BossService::create(&mut db, ann, boss_params("", None)).unwrap();
    let q = ListQueryParams { search: Some("".to_string()), ..ListQueryParams::new() };
    assert_eq!(BossService::find_by_user_id(&db, ann, q).unwrap().total, 2);
}

#[test]
fn a_time_range_excludes_its_bounds() {
    let mut db = Database::new();
    let ann = boss_user(&mut db, "1");
    for t in [100, 200, 300, 400] {
        db.advance_clock(t);
        BossService::create(&mut db, ann, boss_params(&format!("at {t}"), None)).unwrap();
    }
    let range = |start: Option<i64>, end: Option<i64>| ListQueryParams {
        start_time: start,
        end_time: end,
        ..ListQueryParams::new()
    };
    let names = |q: ListQueryParams| -> Vec<String> {
        BossService::find_by_user_id(&db, ann, q).unwrap().data.into_iter().map(|b| b.name).collect()
    };
    assert_eq!(names(range(Some(100), None)), vec!["at 400", "at 300", "at 200"]);
    assert_eq!(names(range(None, Some(400))), vec!["at 300", "at 200", "at 100"]);
    assert_eq!(names(range(Some(100), Some(400))), vec!["at 300", "at 200"]);
    assert_eq!(names(range(Some(99), Some(401))).len(), 4);
    assert_eq!(names(range(Some(400), None)), Vec::<String>::new());
    assert_eq!(names(range(Some(300), Some(200))), Vec::<String>::new());
    let q = ListQueryParams { page_size: Some(1), ..range(Some(100), Some(400)) };
    let list = BossService::find_by_user_id(&db, ann, q).unwrap();
    assert_eq!((list.total, list.data.len()), (2, 1));
}
