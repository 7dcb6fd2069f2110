use garment_inventory::boss::{BossService, CreateBossParams};
use garment_inventory::clothing::{ClothingService, CreateClothingParams, UpdateClothingParams};
use garment_inventory::database::Database;
use garment_inventory::entity::{Clothing, Patch};
use garment_inventory::error::StoreError;
use garment_inventory::query::ListQueryParams;
use garment_inventory::user::{CreateUserParams, UserService};

fn clothing_user(db: &mut Database, phone: &str) -> i32 {
    UserService::create(
        db,
        CreateUserParams {
            username: "u".to_string(),
            password: "hash".to_string(),
            phone_number: phone.to_string(),
        },
    )
    .unwrap()
    .id
}

fn clothing_boss(db: &mut Database, user: i32, name: &str) -> i32 {
    BossService::create(
        db,
        user,
        CreateBossParams {
            name: name.to_string(),
            phone_number: "222".to_string(),
            description: None,
            address: None,
        },
    )
    .unwrap()
    .id
}

fn shirt(boss_id: i32, name: &str, price: u32) -> CreateClothingParams {
    CreateClothingParams {
        boss_id,
        name: name.to_string(),
        price,
        description: None,
        image: Some("shirt.png".to_string()),
    }
}

#[test]
fn one_article_is_listed_with_its_price() {
    let mut db = Database::new();
    let user = clothing_user(&mut db, "1");
    let shop = BossService::create(
        &mut db,
        user,
        CreateBossParams {
            name: "Shop A".to_string(),
            phone_number: "222".to_string(),
            description: None,
            address: None,
        },
    )
    .unwrap();
    let created = ClothingService::create(
        &mut db,
        user,
        CreateClothingParams {
            boss_id: shop.id,
            name: "Shirt".to_string(),
            price: 50,
            description: None,
            image: None,
        },
    )
    .unwrap();
    let list = ClothingService::find_by_user_id(&db, user, ListQueryParams::new(), None).unwrap();
    assert_eq!(list.total, 1);
    assert_eq!(list.data.len(), 1);
    assert_eq!(list.data[0], created);
    assert_eq!(list.data[0].price, 50);
    assert_eq!(list.data[0].name, "Shirt");
    assert_eq!(list.data[0].boss_id, shop.id);
}

#[test]
fn an_article_needs_a_boss_of_the_user() {
    let mut db = Database::new();
    let ann = clothing_user(&mut db, "1");
    let bob = clothing_user(&mut db, "2");
    let shop = clothing_boss(&mut db, ann, "Shop");
    assert_eq!(
        ClothingService::create(&mut db, bob, shirt(shop, "Shirt", 1)),
        Err(StoreError::NotFound)
    );
    assert_eq!(
        ClothingService::create(&mut db, ann, shirt(shop + 1, "Shirt", 1)),
        Err(StoreError::NotFound)
    );
    assert_eq!(
        ClothingService::find_by_user_id(&db, ann, ListQueryParams::new(), None).unwrap().total,
        0
    );
    let created = ClothingService::create(&mut db, ann, shirt(shop, "Shirt", 1)).unwrap();
    assert_eq!(created.id, 1);
}

#[test]
fn another_users_article_is_not_found() {
    let mut db = Database::new();
    let ann = clothing_user(&mut db, "1");
    let bob = clothing_user(&mut db, "2");
    let shop = clothing_boss(&mut db, ann, "Shop");
    clothing_boss(&mut db, bob, "Other");
    let article = ClothingService::create(&mut db, ann, shirt(shop, "Shirt", 9)).unwrap();
    let nothing =
        UpdateClothingParams { name: None, description: Patch::Absent, image: Patch::Absent };
    assert_eq!(ClothingService::find_by_id(&db, bob, article.id), Err(StoreError::NotFound));
    assert_eq!(
        ClothingService::update(&mut db, bob, article.id, nothing),
        Err(StoreError::NotFound)
    );
    assert_eq!(ClothingService::delete(&mut db, bob, article.id), Err(StoreError::NotFound));
    assert_eq!(ClothingService::find_by_id(&db, ann, article.id), Ok(article));
    assert_eq!(
        ClothingService::find_by_user_id(&db, bob, ListQueryParams::new(), None).unwrap().total,
        0
    );
}

#[test]
fn an_update_cannot_change_the_price() {
    let mut db = Database::new();
    let ann = clothing_user(&mut db, "1");
    let shop = clothing_boss(&mut db, ann, "Shop");
    db.advance_clock(9);
    let article = ClothingService::create(&mut db, ann, shirt(shop, "Shirt", 50)).unwrap();
    let updated = ClothingService::update(
        &mut db,
        ann,
        article.id,
        UpdateClothingParams {
            name: Some("Blouse".to_string()),
            description: Patch::Value("silk".to_string()),
            image: Patch::Null,
        },
    )
    .unwrap();
    assert_eq!(
        updated,
        Clothing {
            id: article.id,
            name: "Blouse".to_string(),
            description: Some("silk".to_string()),
            price: 50,
            image: None,
            create_at: 9,
            boss_id: shop,
        }
    );
    let kept = ClothingService::update(
        &mut db,
        ann,
        article.id,
        UpdateClothingParams { name: None, description: Patch::Absent, image: Patch::Absent },
    )
    .unwrap();
    assert_eq!(kept, updated);
}

#[test]
fn deleting_an_article_returns_it() {
    let mut db = Database::new();
    let ann = clothing_user(&mut db, "1");
    let shop = clothing_boss(&mut db, ann, "Shop");
    let a = ClothingService::create(&mut db, ann, shirt(shop, "a", 1)).unwrap();
    let b = ClothingService::create(&mut db, ann, shirt(shop, "b", 2)).unwrap();
    assert_eq!(ClothingService::delete(&mut db, ann, a.id), Ok(a.clone()));
    assert_eq!(ClothingService::delete(&mut db, ann, a.id), Err(StoreError::NotFound));
    assert_eq!(ClothingService::find_by_id(&db, ann, b.id), Ok(b));
}

#[test]
fn a_listing_can_be_narrowed_to_some_bosses() {
    let mut db = Database::new();
    let ann = clothing_user(&mut db, "1");
    let bob = clothing_user(&mut db, "2");
    let north = clothing_boss(&mut db, ann, "North");
    let south = clothing_boss(&mut db, ann, "South");
    let foreign = clothing_boss(&mut db, bob, "Foreign");
    let a = ClothingService::create(&mut db, ann, shirt(north, "a", 1)).unwrap();
    let b = ClothingService::create(&mut db, ann, shirt(south, "b", 2)).unwrap();
    let c = ClothingService::create(&mut db, ann, shirt(north, "c", 3)).unwrap();
    let x = ClothingService::create(&mut db, bob, shirt(foreign, "x", 4)).unwrap();
    let list = |user: i32, ids: Option<Vec<i32>>| {
        ClothingService::find_by_user_id(&db, user, ListQueryParams::new(), ids).unwrap()
    };
    assert_eq!(list(ann, None).data, vec![c.clone(), b.clone(), a.clone()]);
    assert_eq!(list(ann, Some(vec![north])).data, vec![c.clone(), a.clone()]);
    assert_eq!(list(ann, Some(vec![south])).data, vec![b.clone()]);
    assert_eq!(list(ann, Some(vec![south, north, south])).total, 3);
    assert_eq!(list(ann, Some(vec![])).total, 0);
    assert_eq!(list(ann, Some(vec![foreign])).total, 0);
    assert_eq!(list(ann, Some(vec![foreign, north])).data, vec![c, a]);
    assert_eq!(list(bob, Some(vec![north, south])).total, 0);
    assert_eq!(list(bob, None).data, vec![x]);
}

#[test]
fn clothing_is_paged_and_searched() {
    let mut db = Database::new();
    let ann = clothing_user(&mut db, "1");
    let shop = clothing_boss(&mut db, ann, "Shop");
    for k in 0..7u32 {
        db.advance_clock(k as i64);
        let name = if k % 2 == 0 { format!("Shirt {k}") } else { format!("Skirt {k}") };
        ClothingService::create(&mut db, ann, shirt(shop, &name, k)).unwrap();
    }
    let q = ListQueryParams {
        page: Some(1),
        page_size: Some(3),
        search: Some("Shirt".to_string()),
        ..ListQueryParams::new()
    };
    let list = ClothingService::find_by_user_id(&db, ann, q, None).unwrap();
    assert_eq!(list.total, 4);
    let names: Vec<&str> = list.data.iter().map(|c| c.name.as_str()).collect();
    assert_eq!(names, vec!["Shirt 0"]);
    let q = ListQueryParams { page_size: Some(3), ..ListQueryParams::new() };
    let list = ClothingService::find_by_user_id(&db, ann, q, Some(vec![shop])).unwrap();
    assert_eq!(list.total, 7);
    let prices: Vec<u32> = list.data.iter().map(|c| c.price).collect();
    assert_eq!(prices, vec![6, 5, 4]);
}
