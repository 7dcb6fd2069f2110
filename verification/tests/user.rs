use garment_inventory::boss::{BossService, CreateBossParams};
use garment_inventory::clothing::{ClothingService, CreateClothingParams};
use garment_inventory::database::Database;
use garment_inventory::entity::User;
use garment_inventory::error::StoreError;
use garment_inventory::procurement::{
    CreateProcurementItem, CreateProcurementParams, ProcurementService,
};
use garment_inventory::production::{
    CreateProductionItem, CreateProductionParams, ProductionService,
};
use garment_inventory::query::ListQueryParams;
use garment_inventory::shipment::{CreateShipmentItem, CreateShipmentParams, ShipmentService};
use garment_inventory::staff::{CreateStaffParams, StaffService};
use garment_inventory::user::{CreateUserParams, UpdateUserParams, UserService};

fn user_params(name: &str, phone: &str) -> CreateUserParams {
    CreateUserParams {
        username: name.to_string(),
        password: "hash".to_string(),
        phone_number: phone.to_string(),
    }
}

fn user_keep_all() -> UpdateUserParams {
    UpdateUserParams { username: None, password: None, phone_number: None }
}

#[test]
fn a_user_is_created_with_the_next_id() {
    let mut db = Database::new();
    db.advance_clock(5);
    let ann = UserService::create(&mut db, user_params("ann", "111")).unwrap();
    assert_eq!(
        ann,
        User {
            id: 1,
            username: "ann".to_string(),
            password: "hash".to_string(),
            phone_number: "111".to_string(),
            create_at: 5,
        }
    );
    let bob = UserService::create(&mut db, user_params("bob", "222")).unwrap();
    assert_eq!(bob.id, 2);
    assert_eq!(UserService::find_by_phone_number(&db, "111".to_string()), Ok(ann));
    assert_eq!(UserService::find_by_phone_number(&db, "222".to_string()), Ok(bob));
    assert_eq!(
        UserService::find_by_phone_number(&db, "333".to_string()),
        Err(StoreError::NotFound)
    );
}

#[test]
fn a_phone_number_belongs_to_one_user() {
    let mut db = Database::new();
    UserService::create(&mut db, user_params("ann", "111")).unwrap();
    assert_eq!(UserService::create(&mut db, user_params("bob", "111")), Err(StoreError::Conflict));
    let bob = UserService::create(&mut db, user_params("bob", "222")).unwrap();
    assert_eq!(bob.id, 2);
    assert_eq!(
        UserService::update(
            &mut db,
            bob.id,
            UpdateUserParams { phone_number: Some("111".to_string()), ..user_keep_all() }
        ),
        Err(StoreError::Conflict)
    );
    assert_eq!(UserService::find_by_phone_number(&db, "222".to_string()), Ok(bob.clone()));
    let same = UserService::update(
        &mut db,
        bob.id,
        UpdateUserParams { phone_number: Some("222".to_string()), ..user_keep_all() },
    );
    assert_eq!(same, Ok(bob));
}

#[test]
fn updating_a_user_changes_the_named_columns() {
    let mut db = Database::new();
    let ann = UserService::create(&mut db, user_params("ann", "111")).unwrap();
    let renamed = UserService::update(
        &mut db,
        ann.id,
        UpdateUserParams { username: Some("anna".to_string()), ..user_keep_all() },
    )
    .unwrap();
    assert_eq!(renamed, User { username: "anna".to_string(), ..ann.clone() });
    let moved = UserService::update(
        &mut db,
        ann.id,
        UpdateUserParams {
            password: Some("other".to_string()),
            phone_number: Some("999".to_string()),
            ..user_keep_all()
        },
    )
    .unwrap();
    assert_eq!(
        moved,
        User { password: "other".to_string(), phone_number: "999".to_string(), ..renamed }
    );
    assert_eq!(UserService::find_by_phone_number(&db, "999".to_string()), Ok(moved.clone()));
    assert_eq!(
        UserService::find_by_phone_number(&db, "111".to_string()),
        Err(StoreError::NotFound)
    );
    assert_eq!(UserService::update(&mut db, ann.id, user_keep_all()), Ok(moved));
    assert_eq!(UserService::update(&mut db, 77, user_keep_all()), Err(StoreError::NotFound));
}

#[test]
fn deleting_a_missing_user_is_not_found() {
    let mut db = Database::new();
    assert_eq!(UserService::delete(&mut db, 1), Err(StoreError::NotFound));
    let ann = UserService::create(&mut db, user_params("ann", "111")).unwrap();
    assert_eq!(UserService::delete(&mut db, ann.id), Ok(ann.clone()));
    assert_eq!(UserService::delete(&mut db, ann.id), Err(StoreError::NotFound));
    let again = UserService::create(&mut db, user_params("ann", "111")).unwrap();
    assert_eq!(again.id, 2);
}

#[test]
fn deleting_a_user_removes_everything_it_owns() {
    let mut db = Database::new();
    let ann = UserService::create(&mut db, user_params("ann", "111")).unwrap().id;
    let bob = UserService::create(&mut db, user_params("bob", "222")).unwrap().id;
    let mut owned = Vec::new();
    for user in [ann, bob] {
        let boss = BossService::create(
            &mut db,
            user,
            CreateBossParams {
                name: "Shop".to_string(),
                phone_number: "1".to_string(),
                description: None,
                address: None,
            },
        )
        .unwrap();
        let clothing = ClothingService::create(
            &mut db,
            user,
            CreateClothingParams {
                boss_id: boss.id,
                name: "Shirt".to_string(),
                price: 1,
                description: None,
                image: None,
            },
        )
        .unwrap();
        let staff = StaffService::create(
            &mut db,
            user,
            CreateStaffParams {
                name: "Sam".to_string(),
                phone_number: "3".to_string(),
                description: None,
            },
        )
        .unwrap();
        let production = ProductionService::create(
            &mut db,
            user,
            CreateProductionParams {
                description: None,
                staff_id: staff.id,
                items: vec![CreateProductionItem {
                    unit_price: 1,
                    count: 1,
                    clothing_id: clothing.id,
                }],
            },
        )
        .unwrap();
        let procurement = ProcurementService::create(
            &mut db,
            user,
            CreateProcurementParams {
                description: None,
                items: vec![CreateProcurementItem { amount: 1, clothing_id: clothing.id }],
            },
        )
        .unwrap();
        let shipment = ShipmentService::create(
            &mut db,
            user,
            CreateShipmentParams {
                description: None,
                items: vec![CreateShipmentItem { amount: 1, clothing_id: clothing.id }],
            },
        )
        .unwrap();
        owned.push((boss, clothing, staff, production, procurement, shipment));
    }
    UserService::delete(&mut db, ann).unwrap();

    let (boss, clothing, staff, production, procurement, shipment) = &owned[0];
    assert_eq!(BossService::find_by_id(&db, ann, boss.id), Err(StoreError::NotFound));
    assert_eq!(ClothingService::find_by_id(&db, ann, clothing.id), Err(StoreError::NotFound));
    assert_eq!(StaffService::find_by_id(&db, ann, staff.id), Err(StoreError::NotFound));
    assert_eq!(
        ProductionService::find_by_id(&db, ann, production.production.id),
        Err(StoreError::NotFound)
    );
    assert_eq!(
        ProcurementService::find_by_id(&db, ann, procurement.procurement.id),
        Err(StoreError::NotFound)
    );
    assert_eq!(
        ShipmentService::find_by_id(&db, ann, shipment.shipment.id),
        Err(StoreError::NotFound)
    );
    assert_eq!(BossService::find_by_user_id(&db, ann, ListQueryParams::new()).unwrap().total, 0);
    assert_eq!(
        ClothingService::find_by_user_id(&db, ann, ListQueryParams::new(), None).unwrap().total,
        0
    );

    let (boss, clothing, staff, production, procurement, shipment) = &owned[1];
    assert_eq!(BossService::find_by_id(&db, bob, boss.id), Ok(boss.clone()));
    assert_eq!(ClothingService::find_by_id(&db, bob, clothing.id), Ok(clothing.clone()));
    assert_eq!(StaffService::find_by_id(&db, bob, staff.id), Ok(staff.clone()));
    assert_eq!(
        ProductionService::find_by_id(&db, bob, production.production.id),
        Ok(production.clone())
    );
    assert_eq!(
        ProcurementService::find_by_id(&db, bob, procurement.procurement.id),
        Ok(procurement.clone())
    );
    assert_eq!(
        ShipmentService::find_by_id(&db, bob, shipment.shipment.id),
        Ok(shipment.clone())
    );
    assert_eq!(
        BossService::create(
            &mut db,
            ann,
            CreateBossParams {
                name: "Late".to_string(),
                phone_number: "1".to_string(),
                description: None,
                address: None,
            },
        ),
        Err(StoreError::ForeignKey)
    );
}
