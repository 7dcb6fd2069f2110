use garment_inventory::database::Database;
use garment_inventory::entity::{Patch, ProcurementItem, ProcurementRecord};
use garment_inventory::error::StoreError;
use garment_inventory::procurement::{
    CreateProcurementItem, CreateProcurementParams, Procurement, ProcurementService,
    UpdateProcurementParams,
};
use garment_inventory::query::ListQueryParams;
use garment_inventory::user::{CreateUserParams, UserService};

fn procurement_user(db: &mut Database, phone: &str) -> i32 {
    UserService::create(
        db,
        CreateUserParams {
            username: "u".to_string(),
            password: "hash".to_string(),
            phone_number: phone.to_string(),
        },
    )
    .unwrap()
    .id
}

fn incoming(description: Option<&str>, lines: &[(u32, i32)]) -> CreateProcurementParams {
    CreateProcurementParams {
        description: description.map(|d| d.to_string()),
        items: lines
            .iter()
            .map(|(amount, clothing_id)| CreateProcurementItem {
                amount: *amount,
                clothing_id: *clothing_id,
            })
            .collect(),
    }
}

#[test]
fn a_procurement_is_created_with_its_items() {
    let mut db = Database::new();
    let ann = procurement_user(&mut db, "1");
    db.advance_clock(70);
    let created =
        ProcurementService::create(&mut db, ann, incoming(Some("spring"), &[(10, 4), (20, 5)]))
            .unwrap();
    assert_eq!(
        created,
        Procurement {
            procurement: ProcurementRecord {
                id: 1,
                description: Some("spring".to_string()),
                create_at: 70,
                user_id: ann,
            },
            items: vec![
                ProcurementItem { id: 1, amount: 10, procurement_id: 1, clothing_id: 4 },
                ProcurementItem { id: 2, amount: 20, procurement_id: 1, clothing_id: 5 },
            ],
        }
    );
    assert_eq!(ProcurementService::find_by_id(&db, ann, 1), Ok(created));
    let second = ProcurementService::create(&mut db, ann, incoming(None, &[(1, 1)])).unwrap();
    assert_eq!(second.procurement.id, 2);
    assert_eq!(
        second.items,
        vec![ProcurementItem { id: 3, amount: 1, procurement_id: 2, clothing_id: 1 }]
    );
}

#[test]
fn a_procurement_may_have_no_items() {
    let mut db = Database::new();
    let ann = procurement_user(&mut db, "1");
    let created = ProcurementService::create(&mut db, ann, incoming(None, &[])).unwrap();
    assert_eq!(created.items, vec![]);
    assert_eq!(ProcurementService::find_by_id(&db, ann, created.procurement.id), Ok(created));
}

#[test]
fn a_procurement_needs_an_existing_user() {
    let mut db = Database::new();
    assert_eq!(
        ProcurementService::create(&mut db, 9, incoming(None, &[(1, 1)])),
        Err(StoreError::ForeignKey)
    );
    let ann = procurement_user(&mut db, "1");
    let created = ProcurementService::create(&mut db, ann, incoming(None, &[(1, 1)])).unwrap();
    assert_eq!((created.procurement.id, created.items[0].id), (1, 1));
}

#[test]
fn another_users_procurement_is_not_found() {
    let mut db = Database::new();
    let ann = procurement_user(&mut db, "1");
    let bob = procurement_user(&mut db, "2");
    let created = ProcurementService::create(&mut db, ann, incoming(None, &[(1, 1)])).unwrap();
    let id = created.procurement.id;
    assert_eq!(ProcurementService::find_by_id(&db, bob, id), Err(StoreError::NotFound));
    assert_eq!(
        ProcurementService::update(
            &mut db,
            bob,
            id,
            UpdateProcurementParams { description: Patch::Null }
        ),
        Err(StoreError::NotFound)
    );
    assert_eq!(ProcurementService::delete(&mut db, bob, id), Err(StoreError::NotFound));
    assert_eq!(ProcurementService::find_by_id(&db, ann, id), Ok(created));
    assert_eq!(
        ProcurementService::find_by_user_id(&db, bob, ListQueryParams::new()).unwrap().total,
        0
    );
}

#[test]
fn updating_a_procurement_keeps_its_items() {
    let mut db = Database::new();
    let ann = procurement_user(&mut db, "1");
    let created =
        ProcurementService::create(&mut db, ann, incoming(Some("old"), &[(3, 7)])).unwrap();
    let id = created.procurement.id;
    let kept = ProcurementService::update(
        &mut db,
        ann,
        id,
        UpdateProcurementParams { description: Patch::Absent },
    )
    .unwrap();
    assert_eq!(kept, created);
    let set = ProcurementService::update(
        &mut db,
        ann,
        id,
        UpdateProcurementParams { description: Patch::Value("new".to_string()) },
    )
    .unwrap();
    assert_eq!(set.procurement.description, Some("new".to_string()));
    assert_eq!(set.items, created.items);
    let cleared = ProcurementService::update(
        &mut db,
        ann,
        id,
        UpdateProcurementParams { description: Patch::Null },
    )
    .unwrap();
    assert_eq!(cleared.procurement.description, None);
    assert_eq!(cleared.procurement.create_at, created.procurement.create_at);
    assert_eq!(ProcurementService::find_by_id(&db, ann, id), Ok(cleared));
}

#[test]
fn deleting_a_procurement_removes_its_items_only() {
    let mut db = Database::new();
    let ann = procurement_user(&mut db, "1");
    let first = ProcurementService::create(&mut db, ann, incoming(None, &[(1, 1), (2, 2)])).unwrap();
    let second = ProcurementService::create(&mut db, ann, incoming(None, &[(3, 3)])).unwrap();
    assert_eq!(ProcurementService::delete(&mut db, ann, 1), Ok(first));
    assert_eq!(ProcurementService::find_by_id(&db, ann, 1), Err(StoreError::NotFound));
    assert_eq!(ProcurementService::delete(&mut db, ann, 1), Err(StoreError::NotFound));
    assert_eq!(ProcurementService::find_by_id(&db, ann, 2), Ok(second));
    let third = ProcurementService::create(&mut db, ann, incoming(None, &[(4, 4)])).unwrap();
    assert_eq!((third.procurement.id, third.items[0].id), (3, 4));
}

#[test]
fn procurements_are_listed_with_their_items() {
    let mut db = Database::new();
    let ann = procurement_user(&mut db, "1");
    let bob = procurement_user(&mut db, "2");
    db.advance_clock(1);
    let a = ProcurementService::create(&mut db, ann, incoming(Some("wool"), &[(1, 1)])).unwrap();
    ProcurementService::create(&mut db, bob, incoming(Some("wool"), &[(9, 9)])).unwrap();
    db.advance_clock(2);
    let b = ProcurementService::create(&mut db, ann, incoming(None, &[(2, 2), (3, 3)])).unwrap();
    db.advance_clock(3);
    let c = ProcurementService::create(&mut db, ann, incoming(Some("silk"), &[])).unwrap();
    let list = ProcurementService::find_by_user_id(&db, ann, ListQueryParams::new()).unwrap();
    assert_eq!(list.total, 3);
    assert_eq!(list.data, vec![c.clone(), b.clone(), a.clone()]);
    let q = ListQueryParams { page: Some(1), page_size: Some(2), ..ListQueryParams::new() };
    let list = ProcurementService::find_by_user_id(&db, ann, q).unwrap();
    assert_eq!((list.total, list.data), (3, vec![a.clone()]));
    let q = ListQueryParams { search: Some("l".to_string()), ..ListQueryParams::new() };
    let list = ProcurementService::find_by_user_id(&db, ann, q).unwrap();
    assert_eq!(list.data, vec![c, a]);
    let q = ListQueryParams { start_time: Some(1), end_time: Some(3), ..ListQueryParams::new() };
    let list = ProcurementService::find_by_user_id(&db, ann, q).unwrap();
    assert_eq!(list.data, vec![b]);
}
