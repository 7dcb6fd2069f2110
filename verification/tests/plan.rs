use garment_inventory::boss::BossService;
use garment_inventory::clothing::{ClothingService, CreateClothingParams};
use garment_inventory::entity::ProductionRecord;
use garment_inventory::plan::{Listing, Lookup, Scope};
use garment_inventory::procurement::ProcurementService;
use garment_inventory::production::{CreateProductionParams, ProductionService};
use garment_inventory::query::ListQueryParams;
use garment_inventory::shipment::ShipmentService;
use garment_inventory::staff::StaffService;
use garment_inventory::table::TextColumn;

fn asked() -> ListQueryParams {
    ListQueryParams {
        page: Some(2),
        page_size: Some(5),
        search: Some("silk".to_string()),
        start_time: Some(10),
        end_time: Some(20),
    }
}

#[test]
fn own_records_are_looked_up_by_id_and_user() {
    let own = Lookup { id: 7, scope: Scope::Own { user_id: 3 } };
    assert_eq!(Lookup::own(3, 7), own);
    assert_eq!(BossService::lookup(3, 7), own);
    assert_eq!(StaffService::lookup(3, 7), own);
    assert_eq!(ProcurementService::lookup(3, 7), own);
    assert_eq!(ShipmentService::lookup(3, 7), own);
}

#[test]
fn records_of_bosses_and_staff_are_looked_up_through_them() {
    let through = Lookup { id: 7, scope: Scope::Through { user_id: 3, only: None } };
    assert_eq!(Lookup::through(3, 7), through);
    assert_eq!(ClothingService::lookup(3, 7), through);
    assert_eq!(ProductionService::lookup(3, 7), through);
}

#[test]
fn the_owner_is_looked_up_before_a_record_is_created() {
    let article = CreateClothingParams {
        boss_id: 9,
        name: "Shirt".to_string(),
        price: 1,
        description: None,
        image: None,
    };
    assert_eq!(
        ClothingService::owner_lookup(3, &article),
        Lookup { id: 9, scope: Scope::Own { user_id: 3 } }
    );
    let batch = CreateProductionParams { description: None, staff_id: 8, items: vec![] };
    assert_eq!(
        ProductionService::owner_lookup(3, &batch),
        Lookup { id: 8, scope: Scope::Own { user_id: 3 } }
    );
}

#[test]
fn a_listing_says_what_was_asked() {
    let expected = |scope: Scope, columns: Vec<TextColumn>| Listing {
        scope,
        columns,
        search: Some("silk".to_string()),
        start_time: Some(10),
        end_time: Some(20),
        window: Some((10, 5)),
    };
    let named = vec![TextColumn::Name, TextColumn::Description];
    let described = vec![TextColumn::Description];
    let own = || Scope::Own { user_id: 3 };
    assert_eq!(BossService::listing(3, &asked()), expected(own(), named.clone()));
    assert_eq!(StaffService::listing(3, &asked()), expected(own(), named.clone()));
    assert_eq!(ProcurementService::listing(3, &asked()), expected(own(), described.clone()));
    assert_eq!(ShipmentService::listing(3, &asked()), expected(own(), described.clone()));
    assert_eq!(
        ClothingService::listing(3, &asked(), None),
        expected(Scope::Through { user_id: 3, only: None }, named.clone())
    );
    assert_eq!(
        ClothingService::listing(3, &asked(), Some(vec![4, 5])),
        expected(Scope::Through { user_id: 3, only: Some(vec![4, 5]) }, named)
    );
    assert_eq!(
        ProductionService::listing(3, &asked(), Some(vec![])),
        expected(Scope::Through { user_id: 3, only: Some(vec![]) }, described)
    );
}

#[test]
fn a_listing_without_parameters_is_the_first_ten_of_all() {
    let listing = BossService::listing(1, &ListQueryParams::new());
    assert_eq!(
        listing,
        Listing {
            scope: Scope::Own { user_id: 1 },
            columns: vec![TextColumn::Name, TextColumn::Description],
            search: None,
            start_time: None,
            end_time: None,
            window: Some((0, 10)),
        }
    );
    let beyond = ListQueryParams {
        page: Some(u64::MAX),
        page_size: Some(2),
        ..ListQueryParams::new()
    };
    assert_eq!(BossService::listing(1, &beyond).window, None);
}

#[test]
fn settling_a_record_changes_its_settlement_only() {
    let record = ProductionRecord {
        id: 4,
        description: Some("hems".to_string()),
        create_at: 77,
        staff_id: 2,
        total_salary: 40,
        settled: false,
    };
    let settled = ProductionService::settled(record.clone());
    assert_eq!(settled, ProductionRecord { settled: true, ..record });
    assert_eq!(ProductionService::settled(settled.clone()), settled);
}
