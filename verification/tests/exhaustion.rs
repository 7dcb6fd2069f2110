use garment_inventory::boss::{BossService, CreateBossParams};
use garment_inventory::clothing::{ClothingService, CreateClothingParams};
use garment_inventory::database::Database;
use garment_inventory::error::{AppError, StoreError};
use garment_inventory::procurement::{
    CreateProcurementItem, CreateProcurementParams, ProcurementService,
};
use garment_inventory::production::{
    CreateProductionItem, CreateProductionParams, ProductionService,
};
use garment_inventory::query::ListQueryParams;
use garment_inventory::shipment::{CreateShipmentItem, CreateShipmentParams, ShipmentService};
use garment_inventory::staff::{CreateStaffParams, StaffService};
use garment_inventory::user::{CreateUserParams, UserService};

fn last_user(name: &str, phone: &str) -> CreateUserParams {
    CreateUserParams {
        username: name.to_string(),
        password: "hash".to_string(),
        phone_number: phone.to_string(),
    }
}

fn last_boss() -> CreateBossParams {
    CreateBossParams {
        name: "Shop".to_string(),
        phone_number: "1".to_string(),
        description: None,
        address: None,
    }
}

fn last_staff() -> CreateStaffParams {
    CreateStaffParams { name: "Sam".to_string(), phone_number: "3".to_string(), description: None }
}

#[test]
fn a_store_resumes_after_the_ids_it_has_handed_out() {
    let mut db = Database::resuming_after(41);
    let user = UserService::create(&mut db, last_user("ann", "1")).unwrap();
    assert_eq!(user.id, 42);
    let boss = BossService::create(&mut db, user.id, last_boss()).unwrap();
    assert_eq!(boss.id, 42);
    let mut db = Database::resuming_after(-5);
    assert_eq!(UserService::create(&mut db, last_user("ann", "1")).unwrap().id, 1);
    assert_eq!(db.clock(), 0);
}

#[test]
fn the_last_id_is_handed_out_once() {
    let mut db = Database::resuming_after(i32::MAX - 2);
    let ann = UserService::create(&mut db, last_user("ann", "1")).unwrap();
    let bob = UserService::create(&mut db, last_user("bob", "2")).unwrap();
    assert_eq!((ann.id, bob.id), (i32::MAX - 1, i32::MAX));
    assert_eq!(UserService::create(&mut db, last_user("cy", "3")), Err(StoreError::Exhausted));
    assert_eq!(UserService::find_by_phone_number(&db, "3".to_string()), Err(StoreError::NotFound));
    assert_eq!(UserService::find_by_phone_number(&db, "2".to_string()), Ok(bob));
    assert_eq!(AppError::from_store(StoreError::Exhausted).status_code(), 500);
}

#[test]
fn every_table_runs_out_of_ids_without_a_change() {
    let mut db = Database::resuming_after(i32::MAX - 1);
    let user = UserService::create(&mut db, last_user("ann", "1")).unwrap().id;
    let boss = BossService::create(&mut db, user, last_boss()).unwrap();
    assert_eq!(boss.id, i32::MAX);
    assert_eq!(BossService::create(&mut db, user, last_boss()), Err(StoreError::Exhausted));
    let staff = StaffService::create(&mut db, user, last_staff()).unwrap();
    assert_eq!(StaffService::create(&mut db, user, last_staff()), Err(StoreError::Exhausted));
    let shirt = || CreateClothingParams {
        boss_id: boss.id,
        name: "Shirt".to_string(),
        price: 1,
        description: None,
        image: None,
    };
    ClothingService::create(&mut db, user, shirt()).unwrap();
    assert_eq!(ClothingService::create(&mut db, user, shirt()), Err(StoreError::Exhausted));
    assert_eq!(BossService::find_by_user_id(&db, user, ListQueryParams::new()).unwrap().total, 1);
    assert_eq!(StaffService::find_by_user_id(&db, user, ListQueryParams::new()).unwrap().total, 1);
    assert_eq!(
        ClothingService::find_by_user_id(&db, user, ListQueryParams::new(), None).unwrap().total,
        1
    );
    assert_eq!(StaffService::find_by_id(&db, user, staff.id), Ok(staff));
}

#[test]
fn a_record_and_its_items_are_created_together_or_not_at_all() {
    let mut db = Database::resuming_after(i32::MAX - 3);
    let user = UserService::create(&mut db, last_user("ann", "1")).unwrap().id;
    let staff = StaffService::create(&mut db, user, last_staff()).unwrap().id;
    let lines = |n: usize| -> Vec<CreateProcurementItem> {
        (0..n).map(|k| CreateProcurementItem { amount: k as u32, clothing_id: 1 }).collect()
    };
    assert_eq!(
        ProcurementService::create(
            &mut db,
            user,
            CreateProcurementParams { description: None, items: lines(4) }
        ),
        Err(StoreError::Exhausted)
    );
    assert_eq!(
        ProcurementService::find_by_user_id(&db, user, ListQueryParams::new()).unwrap().total,
        0
    );
    let created = ProcurementService::create(
        &mut db,
        user,
        CreateProcurementParams { description: None, items: lines(3) },
    )
    .unwrap();
    assert_eq!(created.procurement.id, i32::MAX - 2);
    let ids: Vec<i32> = created.items.iter().map(|item| item.id).collect();
    assert_eq!(ids, vec![i32::MAX - 2, i32::MAX - 1, i32::MAX]);
    assert_eq!(
        ProcurementService::create(
            &mut db,
            user,
            CreateProcurementParams { description: None, items: lines(1) }
        ),
        Err(StoreError::Exhausted)
    );
    let empty = ProcurementService::create(
        &mut db,
        user,
        CreateProcurementParams { description: None, items: lines(0) },
    )
    .unwrap();
    assert_eq!(empty.procurement.id, i32::MAX - 1);

    assert_eq!(
        ShipmentService::create(
            &mut db,
            user,
            CreateShipmentParams {
                description: None,
                items: (0..4).map(|_| CreateShipmentItem { amount: 1, clothing_id: 1 }).collect()
            }
        ),
        Err(StoreError::Exhausted)
    );
    assert_eq!(
        ShipmentService::find_by_user_id(&db, user, ListQueryParams::new()).unwrap().total,
        0
    );
    assert_eq!(
        ProductionService::create(
            &mut db,
            user,
            CreateProductionParams {
                description: None,
                staff_id: staff,
                items: (0..4)
                    .map(|_| CreateProductionItem { unit_price: 1, count: 1, clothing_id: 1 })
                    .collect()
            }
        ),
        Err(StoreError::Exhausted)
    );
    assert_eq!(
        ProductionService::find_by_user_id(&db, user, ListQueryParams::new(), None)
            .unwrap()
            .total,
        0
    );
}
