use garment_inventory::database::Database;
use garment_inventory::entity::{Patch, ShipmentItem, ShipmentRecord};
use garment_inventory::error::StoreError;
use garment_inventory::shipment::{
    CreateShipmentItem, CreateShipmentParams, Shipment, ShipmentService,
    UpdateShipmentParams,
};
use garment_inventory::query::ListQueryParams;
use garment_inventory::user::{CreateUserParams, UserService};

fn shipment_user(db: &mut Database, phone: &str) -> i32 {
    UserService::create(
        db,
        CreateUserParams {
            username: "u".to_string(),
            password: "hash".to_string(),
            phone_number: phone.to_string(),
        },
    )
    .unwrap()
    .id
}

fn outgoing(description: Option<&str>, lines: &[(u32, i32)]) -> CreateShipmentParams {
    CreateShipmentParams {
        description: description.map(|d| d.to_string()),
        items: lines
            .iter()
            .map(|(amount, clothing_id)| CreateShipmentItem {
                amount: *amount,
                clothing_id: *clothing_id,
            })
            .collect(),
    }
}

#[test]
fn a_shipment_is_created_with_its_items() {
    let mut db = Database::new();
    let ann = shipment_user(&mut db, "1");
    db.advance_clock(70);
    let created =
        ShipmentService::create(&mut db, ann, outgoing(Some("spring"), &[(10, 4), (20, 5)]))
            .unwrap();
    assert_eq!(
        created,
        Shipment {
            shipment: ShipmentRecord {
                id: 1,
                description: Some("spring".to_string()),
                create_at: 70,
                user_id: ann,
            },
            items: vec![
                ShipmentItem { id: 1, amount: 10, shipment_id: 1, clothing_id: 4 },
                ShipmentItem { id: 2, amount: 20, shipment_id: 1, clothing_id: 5 },
            ],
        }
    );
    assert_eq!(ShipmentService::find_by_id(&db, ann, 1), Ok(created));
    let second = ShipmentService::create(&mut db, ann, outgoing(None, &[(1, 1)])).unwrap();
    assert_eq!(second.shipment.id, 2);
    assert_eq!(
        second.items,
        vec![ShipmentItem { id: 3, amount: 1, shipment_id: 2, clothing_id: 1 }]
    );
}

#[test]
fn a_shipment_may_have_no_items() {
    let mut db = Database::new();
    let ann = shipment_user(&mut db, "1");
    let created = ShipmentService::create(&mut db, ann, outgoing(None, &[])).unwrap();
    assert_eq!(created.items, vec![]);
    assert_eq!(ShipmentService::find_by_id(&db, ann, created.shipment.id), Ok(created));
}

#[test]
fn a_shipment_needs_an_existing_user() {
    let mut db = Database::new();
    assert_eq!(
        ShipmentService::create(&mut db, 9, outgoing(None, &[(1, 1)])),
        Err(StoreError::ForeignKey)
    );
    let ann = shipment_user(&mut db, "1");
    let created = ShipmentService::create(&mut db, ann, outgoing(None, &[(1, 1)])).unwrap();
    assert_eq!((created.shipment.id, created.items[0].id), (1, 1));
}

#[test]
fn another_users_shipment_is_not_found() {
    let mut db = Database::new();
    let ann = shipment_user(&mut db, "1");
    let bob = shipment_user(&mut db, "2");
    let created = ShipmentService::create(&mut db, ann, outgoing(None, &[(1, 1)])).unwrap();
    let id = created.shipment.id;
    assert_eq!(ShipmentService::find_by_id(&db, bob, id), Err(StoreError::NotFound));
    assert_eq!(
        ShipmentService::update(
            &mut db,
            bob,
            id,
            UpdateShipmentParams { description: Patch::Null }
        ),
        Err(StoreError::NotFound)
    );
    assert_eq!(ShipmentService::delete(&mut db, bob, id), Err(StoreError::NotFound));
    assert_eq!(ShipmentService::find_by_id(&db, ann, id), Ok(created));
    assert_eq!(
        ShipmentService::find_by_user_id(&db, bob, ListQueryParams::new()).unwrap().total,
        0
    );
}

#[test]
fn updating_a_shipment_keeps_its_items() {
    let mut db = Database::new();
    let ann = shipment_user(&mut db, "1");
    let created =
        ShipmentService::create(&mut db, ann, outgoing(Some("old"), &[(3, 7)])).unwrap();
    let id = created.shipment.id;
    let kept = ShipmentService::update(
        &mut db,
        ann,
        id,
        UpdateShipmentParams { description: Patch::Absent },
    )
    .unwrap();
    assert_eq!(kept, created);
    let set = ShipmentService::update(
        &mut db,
        ann,
        id,
        UpdateShipmentParams { description: Patch::Value("new".to_string()) },
    )
    .unwrap();
    assert_eq!(set.shipment.description, Some("new".to_string()));
    assert_eq!(set.items, created.items);
    let cleared = ShipmentService::update(
        &mut db,
        ann,
        id,
        UpdateShipmentParams { description: Patch::Null },
    )
    .unwrap();
    assert_eq!(cleared.shipment.description, None);
    assert_eq!(cleared.shipment.create_at, created.shipment.create_at);
    assert_eq!(ShipmentService::find_by_id(&db, ann, id), Ok(cleared));
}

#[test]
fn deleting_a_shipment_removes_its_items_only() {
    let mut db = Database::new();
    let ann = shipment_user(&mut db, "1");
    let first = ShipmentService::create(&mut db, ann, outgoing(None, &[(1, 1), (2, 2)])).unwrap();
    let second = ShipmentService::create(&mut db, ann, outgoing(None, &[(3, 3)])).unwrap();
    assert_eq!(ShipmentService::delete(&mut db, ann, 1), Ok(first));
    assert_eq!(ShipmentService::find_by_id(&db, ann, 1), Err(StoreError::NotFound));
    assert_eq!(ShipmentService::delete(&mut db, ann, 1), Err(StoreError::NotFound));
    assert_eq!(ShipmentService::find_by_id(&db, ann, 2), Ok(second));
    let third = ShipmentService::create(&mut db, ann, outgoing(None, &[(4, 4)])).unwrap();
    assert_eq!((third.shipment.id, third.items[0].id), (3, 4));
}

#[test]
fn shipments_are_listed_with_their_items() {
    let mut db = Database::new();
    let ann = shipment_user(&mut db, "1");
    let bob = shipment_user(&mut db, "2");
    db.advance_clock(1);
    let a = ShipmentService::create(&mut db, ann, outgoing(Some("wool"), &[(1, 1)])).unwrap();
    ShipmentService::create(&mut db, bob, outgoing(Some("wool"), &[(9, 9)])).unwrap();
    db.advance_clock(2);
    let b = ShipmentService::create(&mut db, ann, outgoing(None, &[(2, 2), (3, 3)])).unwrap();
    db.advance_clock(3);
    let c = ShipmentService::create(&mut db, ann, outgoing(Some("silk"), &[])).unwrap();
    let list = ShipmentService::find_by_user_id(&db, ann, ListQueryParams::new()).unwrap();
    assert_eq!(list.total, 3);
    assert_eq!(list.data, vec![c.clone(), b.clone(), a.clone()]);
    let q = ListQueryParams { page: Some(1), page_size: Some(2), ..ListQueryParams::new() };
    let list = ShipmentService::find_by_user_id(&db, ann, q).unwrap();
    assert_eq!((list.total, list.data), (3, vec![a.clone()]));
    let q = ListQueryParams { search: Some("l".to_string()), ..ListQueryParams::new() };
    let list = ShipmentService::find_by_user_id(&db, ann, q).unwrap();
    assert_eq!(list.data, vec![c, a]);
    let q = ListQueryParams { start_time: Some(1), end_time: Some(3), ..ListQueryParams::new() };
    let list = ShipmentService::find_by_user_id(&db, ann, q).unwrap();
    assert_eq!(list.data, vec![b]);
}
