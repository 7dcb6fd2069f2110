//! What holds of the store whatever it is asked: the laws that relate its
//! operations to one another.

use crate::account::{bcrypt_verdict, hashed, info_of, login_outcome, LoginParams, LoginResponse};
use crate::boss::{updated_boss, CreateBossParams, UpdateBossParams};
use crate::clothing::{updated_clothing, CreateClothingParams, UpdateClothingParams};
use crate::database::DbState;
use crate::entity::{
    patched, Boss, Clothing, Patch, ProcurementItem, ProcurementRecord, ProductionItem,
    ProductionRecord, ShipmentItem, ShipmentRecord, Staff,
};
use crate::error::{AppError, AuthError};
use crate::error::StoreError;
use crate::plan::{lemma_listing_own, lemma_listing_through, Listing, Lookup, Scope};
use crate::procurement::{updated_procurement, CreateProcurementParams, UpdateProcurementParams};
use crate::production::{
    items_salary, lemma_items_salary, lemma_lines_salary_bound, max_line_salary, settled_production,
    updated_production, CreateProductionParams, UpdateProductionParams,
};
use crate::query::{ListQueryParams, MAX_WINDOW};
use crate::shipment::{updated_shipment, CreateShipmentParams, UpdateShipmentParams};
use crate::staff::{lemma_delete_staff_wf, updated_staff, CreateStaffParams, UpdateStaffParams};
use crate::table::{
    child_of, has_id, index_of, lemma_children_of_new_parent, lemma_index_of, lemma_push_row,
    lemma_remove_row, lemma_scope_of, lemma_select, lemma_select_ids, lemma_update_row, listing,
    not_child_of, row_with, scope_of, select, wanted_ids,
};
use crate::user::{lemma_create_user_wf, lemma_delete_user_wf, lemma_phone_index, CreateUserParams};
use vstd::prelude::*;

verus! {

/// A record has one owner: what belongs to one user belongs to no other.
pub proof fn law_single_owner(s: DbState, a: i32, b: i32, id: i32)
    requires
        a != b,
    ensures
        !(s.owns_boss(a, id) && s.owns_boss(b, id)),
        !(s.owns_staff(a, id) && s.owns_staff(b, id)),
        !(s.owns_clothing(a, id) && s.owns_clothing(b, id)),
        !(s.owns_procurement(a, id) && s.owns_procurement(b, id)),
        !(s.owns_shipment(a, id) && s.owns_shipment(b, id)),
        !(s.owns_production(a, id) && s.owns_production(b, id)),
{
}

/// To a user who does not own it, a record is not there: finding, updating
/// and deleting it fail with `NotFound` and change nothing.
pub proof fn law_not_owned_is_not_found(
    s: DbState,
    owner: i32,
    other: i32,
    id: i32,
    boss: UpdateBossParams,
    staff: UpdateStaffParams,
    clothing: UpdateClothingParams,
    procurement: UpdateProcurementParams,
    shipment: UpdateShipmentParams,
    production: UpdateProductionParams,
)
    requires
        owner != other,
    ensures
        s.owns_boss(owner, id) ==> {
            &&& s.find_boss(other, id) == Err::<Boss, StoreError>(StoreError::NotFound)
            &&& s.update_boss(other, id, boss) == (s, Err::<Boss, StoreError>(StoreError::NotFound))
            &&& s.delete_boss(other, id) == (s, Err::<Boss, StoreError>(StoreError::NotFound))
        },
        s.owns_staff(owner, id) ==> {
            &&& s.find_staff(other, id) == Err::<Staff, StoreError>(StoreError::NotFound)
            &&& s.update_staff(other, id, staff) == (
                s,
                Err::<Staff, StoreError>(StoreError::NotFound),
            )
            &&& s.delete_staff(other, id) == (s, Err::<Staff, StoreError>(StoreError::NotFound))
        },
        s.owns_clothing(owner, id) ==> {
            &&& s.find_clothing(other, id) == Err::<Clothing, StoreError>(StoreError::NotFound)
            &&& s.update_clothing(other, id, clothing) == (
                s,
                Err::<Clothing, StoreError>(StoreError::NotFound),
            )
            &&& s.delete_clothing(other, id) == (
                s,
                Err::<Clothing, StoreError>(StoreError::NotFound),
            )
        },
        s.owns_procurement(owner, id) ==> {
            &&& s.find_procurement(other, id) is Err
            &&& s.update_procurement(other, id, procurement).0 == s
            &&& s.update_procurement(other, id, procurement).1 is Err
            &&& s.delete_procurement(other, id).0 == s
            &&& s.delete_procurement(other, id).1 is Err
        },
        s.owns_shipment(owner, id) ==> {
            &&& s.find_shipment(other, id) is Err
            &&& s.update_shipment(other, id, shipment).0 == s
            &&& s.update_shipment(other, id, shipment).1 is Err
            &&& s.delete_shipment(other, id).0 == s
            &&& s.delete_shipment(other, id).1 is Err
        },
        s.owns_production(owner, id) ==> {
            &&& s.find_production(other, id) is Err
            &&& s.update_production(other, id, production).0 == s
            &&& s.update_production(other, id, production).1 is Err
            &&& s.settle_production(other, id).0 == s
            &&& s.settle_production(other, id).1 is Err
            &&& s.delete_production(other, id).0 == s
            &&& s.delete_production(other, id).1 is Err
        },
{
}

/// What a user creates is the user's own: the creator finds it as it was
/// returned, and nobody else finds it.
pub proof fn law_created_belongs_to_creator(
    s: DbState,
    owner: i32,
    other: i32,
    boss: CreateBossParams,
    staff: CreateStaffParams,
    clothing: CreateClothingParams,
)
    requires
        s.wf(),
        owner != other,
    ensures
        s.create_boss(owner, boss).1 matches Ok(b) ==> {
            &&& s.create_boss(owner, boss).0.find_boss(owner, b.id) == Ok::<Boss, StoreError>(b)
            &&& s.create_boss(owner, boss).0.find_boss(other, b.id) is Err
        },
        s.create_staff(owner, staff).1 matches Ok(m) ==> {
            &&& s.create_staff(owner, staff).0.find_staff(owner, m.id) == Ok::<Staff, StoreError>(m)
            &&& s.create_staff(owner, staff).0.find_staff(other, m.id) is Err
        },
        s.create_clothing(owner, clothing).1 matches Ok(c) ==> {
            &&& s.create_clothing(owner, clothing).0.find_clothing(owner, c.id) == Ok::<
                Clothing,
                StoreError,
            >(c)
            &&& s.create_clothing(owner, clothing).0.find_clothing(other, c.id) is Err
        },
{
    if s.create_boss(owner, boss).1 is Ok {
        let next = s.create_boss(owner, boss).0;
        lemma_push_row(s.bosses, s.last_boss, s.new_boss(owner, boss));
        lemma_index_of(next.bosses, next.bosses.len() - 1);
    }
    if s.create_staff(owner, staff).1 is Ok {
        let next = s.create_staff(owner, staff).0;
        lemma_push_row(s.staffs, s.last_staff, s.new_staff(owner, staff));
        lemma_index_of(next.staffs, next.staffs.len() - 1);
    }
    if s.create_clothing(owner, clothing).1 is Ok {
        let next = s.create_clothing(owner, clothing).0;
        lemma_push_row(s.clothings, s.last_clothing, s.new_clothing(clothing));
        lemma_index_of(next.clothings, next.clothings.len() - 1);
    }
}

/// An update changes the columns it names and no other: a column that is
/// absent keeps its value, a column given as null is emptied, a column given
/// a value takes it. Id, owner and creation time are never changed, nor the
/// price of clothing, nor the salary and the settlement of a batch.
pub proof fn law_update_changes_named_columns_only(
    boss: Boss,
    b: UpdateBossParams,
    staff: Staff,
    m: UpdateStaffParams,
    clothing: Clothing,
    c: UpdateClothingParams,
    procurement: ProcurementRecord,
    p: UpdateProcurementParams,
    shipment: ShipmentRecord,
    h: UpdateShipmentParams,
    production: ProductionRecord,
    d: UpdateProductionParams,
)
    ensures
        ({
            let new = updated_boss(boss, b);
            &&& new.id == boss.id && new.user_id == boss.user_id && new.create_at == boss.create_at
            &&& new.name == (if b.name is Some { b.name->0 } else { boss.name })
            &&& new.phone_number == (if b.phone_number is Some {
                b.phone_number->0
            } else {
                boss.phone_number
            })
            &&& new.description == patched(boss.description, b.description)
            &&& new.address == patched(boss.address, b.address)
        }),
        ({
            let new = updated_staff(staff, m);
            &&& new.id == staff.id && new.user_id == staff.user_id && new.create_at
                == staff.create_at
            &&& new.name == (if m.name is Some { m.name->0 } else { staff.name })
            &&& new.phone_number == (if m.phone_number is Some {
                m.phone_number->0
            } else {
                staff.phone_number
            })
            &&& new.description == patched(staff.description, m.description)
        }),
        ({
            let new = updated_clothing(clothing, c);
            &&& new.id == clothing.id && new.boss_id == clothing.boss_id && new.create_at
                == clothing.create_at && new.price == clothing.price
            &&& new.name == (if c.name is Some { c.name->0 } else { clothing.name })
            &&& new.description == patched(clothing.description, c.description)
            &&& new.image == patched(clothing.image, c.image)
        }),
        updated_procurement(procurement, p) == (ProcurementRecord {
            description: patched(procurement.description, p.description),
            ..procurement
        }),
        updated_shipment(shipment, h) == (ShipmentRecord {
            description: patched(shipment.description, h.description),
            ..shipment
        }),
        updated_production(production, d) == (ProductionRecord {
            description: patched(production.description, d.description),
            ..production
        }),
        forall|old: Option<String>| patched(old, Patch::<String>::Absent) == old,
        forall|old: Option<String>| patched(old, Patch::<String>::Null) is None,
        forall|old: Option<String>, v: String| patched(old, Patch::Value(v)) == Some(v),
{
}

/// An update of one record changes no other record, and no other table.
pub proof fn law_update_changes_one_record(
    s: DbState,
    user_id: i32,
    id: i32,
    boss: UpdateBossParams,
    staff: UpdateStaffParams,
    clothing: UpdateClothingParams,
    procurement: UpdateProcurementParams,
    shipment: UpdateShipmentParams,
    production: UpdateProductionParams,
)
    requires
        s.wf(),
    ensures
        s.update_boss(user_id, id, boss).0 == (DbState {
            bosses: s.update_boss(user_id, id, boss).0.bosses,
            ..s
        }),
        forall|k: int|
            0 <= k < s.bosses.len() && s.bosses[k].id != id ==> s.update_boss(
                user_id,
                id,
                boss,
            ).0.bosses[k] == s.bosses[k],
        s.update_staff(user_id, id, staff).0 == (DbState {
            staffs: s.update_staff(user_id, id, staff).0.staffs,
            ..s
        }),
        forall|k: int|
            0 <= k < s.staffs.len() && s.staffs[k].id != id ==> s.update_staff(
                user_id,
                id,
                staff,
            ).0.staffs[k] == s.staffs[k],
        s.update_clothing(user_id, id, clothing).0 == (DbState {
            clothings: s.update_clothing(user_id, id, clothing).0.clothings,
            ..s
        }),
        forall|k: int|
            0 <= k < s.clothings.len() && s.clothings[k].id != id ==> s.update_clothing(
                user_id,
                id,
                clothing,
            ).0.clothings[k] == s.clothings[k],
        s.update_procurement(user_id, id, procurement).0 == (DbState {
            procurements: s.update_procurement(user_id, id, procurement).0.procurements,
            ..s
        }),
        forall|k: int|
            0 <= k < s.procurements.len() && s.procurements[k].id != id ==> s.update_procurement(
                user_id,
                id,
                procurement,
            ).0.procurements[k] == s.procurements[k],
        s.update_shipment(user_id, id, shipment).0 == (DbState {
            shipments: s.update_shipment(user_id, id, shipment).0.shipments,
            ..s
        }),
        forall|k: int|
            0 <= k < s.shipments.len() && s.shipments[k].id != id ==> s.update_shipment(
                user_id,
                id,
                shipment,
            ).0.shipments[k] == s.shipments[k],
        s.update_production(user_id, id, production).0 == (DbState {
            productions: s.update_production(user_id, id, production).0.productions,
            ..s
        }),
        forall|k: int|
            0 <= k < s.productions.len() && s.productions[k].id != id ==> s.update_production(
                user_id,
                id,
                production,
            ).0.productions[k] == s.productions[k],
{
    assert forall|k: int| 0 <= k < s.bosses.len() && s.bosses[k].id != id implies s.update_boss(
        user_id,
        id,
        boss,
    ).0.bosses[k] == s.bosses[k] by {
        if s.owns_boss(user_id, id) {
            assert(s.bosses[index_of(s.bosses, id)].id == id);
        }
    }
    assert forall|k: int| 0 <= k < s.staffs.len() && s.staffs[k].id != id implies s.update_staff(
        user_id,
        id,
        staff,
    ).0.staffs[k] == s.staffs[k] by {
        if s.owns_staff(user_id, id) {
            assert(s.staffs[index_of(s.staffs, id)].id == id);
        }
    }
    assert forall|k: int|
        0 <= k < s.clothings.len() && s.clothings[k].id != id implies s.update_clothing(
        user_id,
        id,
        clothing,
    ).0.clothings[k] == s.clothings[k] by {
        if s.owns_clothing(user_id, id) {
            assert(s.clothings[index_of(s.clothings, id)].id == id);
        }
    }
    assert forall|k: int|
        0 <= k < s.procurements.len() && s.procurements[k].id != id implies s.update_procurement(
        user_id,
        id,
        procurement,
    ).0.procurements[k] == s.procurements[k] by {
        if s.owns_procurement(user_id, id) {
            assert(s.procurements[index_of(s.procurements, id)].id == id);
        }
    }
    assert forall|k: int|
        0 <= k < s.shipments.len() && s.shipments[k].id != id implies s.update_shipment(
        user_id,
        id,
        shipment,
    ).0.shipments[k] == s.shipments[k] by {
        if s.owns_shipment(user_id, id) {
            assert(s.shipments[index_of(s.shipments, id)].id == id);
        }
    }
    assert forall|k: int|
        0 <= k < s.productions.len() && s.productions[k].id != id implies s.update_production(
        user_id,
        id,
        production,
    ).0.productions[k] == s.productions[k] by {
        if s.owns_production(user_id, id) {
            assert(s.productions[index_of(s.productions, id)].id == id);
        }
    }
}

/// Reading is repeatable: what a lookup returns depends on the tables it
/// reads and on nothing else, so two lookups with no write between them
/// return the same.
pub proof fn law_lookup_reads_its_tables(s: DbState, t: DbState, user_id: i32, id: i32)
    ensures
        s.bosses == t.bosses ==> s.find_boss(user_id, id) == t.find_boss(user_id, id),
        s.staffs == t.staffs ==> s.find_staff(user_id, id) == t.find_staff(user_id, id),
        s.bosses == t.bosses && s.clothings == t.clothings ==> s.find_clothing(user_id, id)
            == t.find_clothing(user_id, id),
        s.procurements == t.procurements && s.procurement_items == t.procurement_items
            ==> s.find_procurement(user_id, id) == t.find_procurement(user_id, id),
        s.shipments == t.shipments && s.shipment_items == t.shipment_items ==> s.find_shipment(
            user_id,
            id,
        ) == t.find_shipment(user_id, id),
        s.staffs == t.staffs && s.productions == t.productions && s.production_items
            == t.production_items ==> s.find_production(user_id, id) == t.find_production(
            user_id,
            id,
        ),
{
}

/// A procurement, a shipment or a production batch that a user creates is
/// the user's own: the creator finds it as it was returned, with exactly its
/// items, and nobody else finds it.
pub proof fn law_created_with_its_items(
    s: DbState,
    owner: i32,
    other: i32,
    procurement: CreateProcurementParams,
    shipment: CreateShipmentParams,
    production: CreateProductionParams,
)
    requires
        s.wf(),
        owner != other,
    ensures
        s.create_procurement(owner, procurement).1 matches Ok(p) ==> {
            &&& s.create_procurement(owner, procurement).0.find_procurement(owner, p.0.id) == Ok::<
                (ProcurementRecord, Seq<ProcurementItem>),
                StoreError,
            >(p)
            &&& s.create_procurement(owner, procurement).0.find_procurement(other, p.0.id) is Err
            &&& p.1.len() == procurement.items@.len()
        },
        s.create_shipment(owner, shipment).1 matches Ok(p) ==> {
            &&& s.create_shipment(owner, shipment).0.find_shipment(owner, p.0.id) == Ok::<
                (ShipmentRecord, Seq<ShipmentItem>),
                StoreError,
            >(p)
            &&& s.create_shipment(owner, shipment).0.find_shipment(other, p.0.id) is Err
            &&& p.1.len() == shipment.items@.len()
        },
        s.create_production(owner, production).1 matches Ok(p) ==> {
            &&& s.create_production(owner, production).0.find_production(owner, p.0.id) == Ok::<
                (ProductionRecord, Seq<ProductionItem>),
                StoreError,
            >(p)
            &&& s.create_production(owner, production).0.find_production(other, p.0.id) is Err
            &&& p.1.len() == production.items@.len()
        },
{
    if s.create_procurement(owner, procurement).1 is Ok {
        let next = s.create_procurement(owner, procurement).0;
        let p = s.create_procurement(owner, procurement).1->Ok_0;
        lemma_push_row(s.procurements, s.last_procurement, p.0);
        lemma_index_of(next.procurements, next.procurements.len() - 1);
        lemma_children_of_new_parent(s.procurement_items, p.1, s.procurements, p.0.id);
    }
    if s.create_shipment(owner, shipment).1 is Ok {
        let next = s.create_shipment(owner, shipment).0;
        let p = s.create_shipment(owner, shipment).1->Ok_0;
        lemma_push_row(s.shipments, s.last_shipment, p.0);
        lemma_index_of(next.shipments, next.shipments.len() - 1);
        lemma_children_of_new_parent(s.shipment_items, p.1, s.shipments, p.0.id);
    }
    if s.create_production(owner, production).1 is Ok {
        let next = s.create_production(owner, production).0;
        let p = s.create_production(owner, production).1->Ok_0;
        lemma_push_row(s.productions, s.last_production, p.0);
        lemma_index_of(next.productions, next.productions.len() - 1);
        lemma_children_of_new_parent(s.production_items, p.1, s.productions, p.0.id);
        lemma_index_of(next.productions, next.productions.len() - 1);
        assert(next.staffs == s.staffs);
    }
}

/// Deleting a boss removes all its clothing and nothing else: no article of
/// the boss is left, and every other boss and article stays.
pub proof fn law_delete_boss_cascades(s: DbState, user_id: i32, id: i32)
    requires
        s.wf(),
        s.owns_boss(user_id, id),
    ensures
        !has_id(s.delete_boss(user_id, id).0.bosses, id),
        forall|k: int|
            0 <= k < s.delete_boss(user_id, id).0.clothings.len() ==> (#[trigger] s.delete_boss(
                user_id,
                id,
            ).0.clothings[k]).boss_id != id,
        forall|k: int|
            0 <= k < s.clothings.len() && (#[trigger] s.clothings[k]).boss_id != id
                ==> s.delete_boss(user_id, id).0.clothings.contains(s.clothings[k]),
        forall|k: int|
            0 <= k < s.bosses.len() && (#[trigger] s.bosses[k]).id != id ==> s.delete_boss(
                user_id,
                id,
            ).0.bosses.contains(s.bosses[k]),
{
    let next = s.delete_boss(user_id, id).0;
    let at = index_of(s.bosses, id);
    let keep = not_child_of::<Clothing>(seq![id]);
    lemma_remove_row(s.bosses, s.last_boss, at);
    lemma_select(s.clothings, keep);
    assert(seq![id][0] == id);
    assert forall|k: int| 0 <= k < next.clothings.len() implies (#[trigger] next.clothings[k]).boss_id
        != id by {
        assert(keep(next.clothings[k]));
    }
    assert forall|k: int|
        0 <= k < s.clothings.len() && (#[trigger] s.clothings[k]).boss_id
            != id implies next.clothings.contains(s.clothings[k]) by {
        if seq![id].contains(s.clothings[k].boss_id) {
            let j = choose|j: int| 0 <= j < 1 && seq![id][j] == s.clothings[k].boss_id;
        }
        assert(keep(s.clothings[k]));
    }
    assert forall|k: int|
        0 <= k < s.bosses.len() && (#[trigger] s.bosses[k]).id != id implies next.bosses.contains(
        s.bosses[k],
    ) by {
        let j = if k < at { k } else { k - 1 };
        assert(next.bosses[j] == s.bosses[k]);
    }
}

/// Deleting a procurement, a shipment or a production batch removes all its
/// items and no other item.
pub proof fn law_delete_takes_items(s: DbState, user_id: i32, id: i32)
    requires
        s.wf(),
    ensures
        s.owns_procurement(user_id, id) ==> {
            &&& !has_id(s.delete_procurement(user_id, id).0.procurements, id)
            &&& forall|k: int|
                0 <= k < s.delete_procurement(user_id, id).0.procurement_items.len() ==> (
                #[trigger] s.delete_procurement(user_id, id).0.procurement_items[k]).procurement_id
                    != id
            &&& forall|k: int|
                0 <= k < s.procurement_items.len() && (
                #[trigger] s.procurement_items[k]).procurement_id != id ==> s.delete_procurement(
                    user_id,
                    id,
                ).0.procurement_items.contains(s.procurement_items[k])
        },
        s.owns_shipment(user_id, id) ==> {
            &&& !has_id(s.delete_shipment(user_id, id).0.shipments, id)
            &&& forall|k: int|
                0 <= k < s.delete_shipment(user_id, id).0.shipment_items.len() ==> (
                #[trigger] s.delete_shipment(user_id, id).0.shipment_items[k]).shipment_id != id
            &&& forall|k: int|
                0 <= k < s.shipment_items.len() && (#[trigger] s.shipment_items[k]).shipment_id
                    != id ==> s.delete_shipment(user_id, id).0.shipment_items.contains(
                    s.shipment_items[k],
                )
        },
        s.owns_production(user_id, id) ==> {
            &&& !has_id(s.delete_production(user_id, id).0.productions, id)
            &&& forall|k: int|
                0 <= k < s.delete_production(user_id, id).0.production_items.len() ==> (
                #[trigger] s.delete_production(user_id, id).0.production_items[k]).production_id
                    != id
            &&& forall|k: int|
                0 <= k < s.production_items.len() && (
                #[trigger] s.production_items[k]).production_id != id ==> s.delete_production(
                    user_id,
                    id,
                ).0.production_items.contains(s.production_items[k])
        },
{
    assert(seq![id][0] == id);
    if s.owns_procurement(user_id, id) {
        let next = s.delete_procurement(user_id, id).0;
        let keep = not_child_of::<ProcurementItem>(seq![id]);
        lemma_remove_row(s.procurements, s.last_procurement, index_of(s.procurements, id));
        lemma_select(s.procurement_items, keep);
        assert forall|k: int| 0 <= k < next.procurement_items.len() implies (
        #[trigger] next.procurement_items[k]).procurement_id != id by {
            assert(keep(next.procurement_items[k]));
        }
        assert forall|k: int|
            0 <= k < s.procurement_items.len() && (
            #[trigger] s.procurement_items[k]).procurement_id
                != id implies next.procurement_items.contains(s.procurement_items[k]) by {
            if seq![id].contains(s.procurement_items[k].procurement_id) {
                let j = choose|j: int|
                    0 <= j < 1 && seq![id][j] == s.procurement_items[k].procurement_id;
            }
            assert(keep(s.procurement_items[k]));
        }
    }
    if s.owns_shipment(user_id, id) {
        let next = s.delete_shipment(user_id, id).0;
        let keep = not_child_of::<ShipmentItem>(seq![id]);
        lemma_remove_row(s.shipments, s.last_shipment, index_of(s.shipments, id));
        lemma_select(s.shipment_items, keep);
        assert forall|k: int| 0 <= k < next.shipment_items.len() implies (
        #[trigger] next.shipment_items[k]).shipment_id != id by {
            assert(keep(next.shipment_items[k]));
        }
        assert forall|k: int|
            0 <= k < s.shipment_items.len() && (#[trigger] s.shipment_items[k]).shipment_id
                != id implies next.shipment_items.contains(s.shipment_items[k]) by {
            if seq![id].contains(s.shipment_items[k].shipment_id) {
                let j = choose|j: int| 0 <= j < 1 && seq![id][j] == s.shipment_items[k].shipment_id;
            }
            assert(keep(s.shipment_items[k]));
        }
    }
    if s.owns_production(user_id, id) {
        let next = s.delete_production(user_id, id).0;
        let keep = not_child_of::<ProductionItem>(seq![id]);
        lemma_remove_row(s.productions, s.last_production, index_of(s.productions, id));
        lemma_select(s.production_items, keep);
        assert forall|k: int| 0 <= k < next.production_items.len() implies (
        #[trigger] next.production_items[k]).production_id != id by {
            assert(keep(next.production_items[k]));
        }
        assert forall|k: int|
            0 <= k < s.production_items.len() && (#[trigger] s.production_items[k]).production_id
                != id implies next.production_items.contains(s.production_items[k]) by {
            if seq![id].contains(s.production_items[k].production_id) {
                let j = choose|j: int|
                    0 <= j < 1 && seq![id][j] == s.production_items[k].production_id;
            }
            assert(keep(s.production_items[k]));
        }
    }
}

/// Deleting a user removes everything that the user owns, directly or
/// through a boss or a staff member: afterwards the user owns nothing, and
/// every table still obeys the rules of the store, so that no clothing, no
/// batch and no item is left behind without its owner.
pub proof fn law_delete_user_cascades(s: DbState, id: i32)
    requires
        s.wf(),
        has_id(s.users, id),
    ensures
        s.delete_user(id).0.wf(),
        !has_id(s.delete_user(id).0.users, id),
        forall|x: i32|
            {
                &&& !(#[trigger] s.delete_user(id).0.owns_boss(id, x))
                &&& !s.delete_user(id).0.owns_staff(id, x)
                &&& !s.delete_user(id).0.owns_clothing(id, x)
                &&& !s.delete_user(id).0.owns_procurement(id, x)
                &&& !s.delete_user(id).0.owns_shipment(id, x)
                &&& !s.delete_user(id).0.owns_production(id, x)
            },
        forall|k: int|
            0 <= k < s.delete_user(id).0.clothings.len() ==> !s.owns_boss(
                id,
                (#[trigger] s.delete_user(id).0.clothings[k]).boss_id,
            ),
        forall|k: int|
            0 <= k < s.delete_user(id).0.productions.len() ==> !s.owns_staff(
                id,
                (#[trigger] s.delete_user(id).0.productions[k]).staff_id,
            ),
        forall|k: int|
            0 <= k < s.delete_user(id).0.production_items.len() ==> !s.owns_production(
                id,
                (#[trigger] s.delete_user(id).0.production_items[k]).production_id,
            ),
        forall|k: int|
            0 <= k < s.delete_user(id).0.procurement_items.len() ==> !s.owns_procurement(
                id,
                (#[trigger] s.delete_user(id).0.procurement_items[k]).procurement_id,
            ),
        forall|k: int|
            0 <= k < s.delete_user(id).0.shipment_items.len() ==> !s.owns_shipment(
                id,
                (#[trigger] s.delete_user(id).0.shipment_items[k]).shipment_id,
            ),
{
    let next = s.delete_user(id).0;
    let gone = seq![id];
    let bosses_gone = scope_of(s.bosses, gone);
    let staffs_gone = scope_of(s.staffs, gone);
    let productions_gone = scope_of(s.productions, staffs_gone);
    let procurements_gone = scope_of(s.procurements, gone);
    let shipments_gone = scope_of(s.shipments, gone);
    lemma_delete_user_wf(s, id);
    assert(gone[0] == id);
    lemma_remove_row(s.users, s.last_user, index_of(s.users, id));
    lemma_select_ids(s.bosses, not_child_of::<Boss>(gone), 0);
    lemma_select_ids(s.staffs, not_child_of::<Staff>(gone), 0);
    lemma_select_ids(s.procurements, not_child_of::<ProcurementRecord>(gone), 0);
    lemma_select_ids(s.shipments, not_child_of::<ShipmentRecord>(gone), 0);
    lemma_scope_of(s.bosses, gone);
    lemma_scope_of(s.staffs, gone);
    lemma_scope_of(s.productions, staffs_gone);
    lemma_scope_of(s.procurements, gone);
    lemma_scope_of(s.shipments, gone);
    lemma_select(s.clothings, not_child_of::<Clothing>(bosses_gone));
    lemma_select(s.productions, not_child_of::<ProductionRecord>(staffs_gone));
    lemma_select(s.production_items, not_child_of::<ProductionItem>(productions_gone));
    lemma_select(s.procurement_items, not_child_of::<ProcurementItem>(procurements_gone));
    lemma_select(s.shipment_items, not_child_of::<ShipmentItem>(shipments_gone));
    assert forall|k: int| 0 <= k < next.clothings.len() implies !s.owns_boss(
        id,
        (#[trigger] next.clothings[k]).boss_id,
    ) by {
        assert(not_child_of::<Clothing>(bosses_gone)(next.clothings[k]));
    }
    assert forall|k: int| 0 <= k < next.productions.len() implies !s.owns_staff(
        id,
        (#[trigger] next.productions[k]).staff_id,
    ) by {
        assert(not_child_of::<ProductionRecord>(staffs_gone)(next.productions[k]));
    }
    assert forall|k: int| 0 <= k < next.production_items.len() implies !s.owns_production(
        id,
        (#[trigger] next.production_items[k]).production_id,
    ) by {
        let item = next.production_items[k];
        assert(not_child_of::<ProductionItem>(productions_gone)(item));
        if s.owns_production(id, item.production_id) {
            let batch = row_with(s.productions, item.production_id);
            assert(staffs_gone.contains(batch.staff_id));
        }
    }
    assert forall|k: int| 0 <= k < next.procurement_items.len() implies !s.owns_procurement(
        id,
        (#[trigger] next.procurement_items[k]).procurement_id,
    ) by {
        assert(not_child_of::<ProcurementItem>(procurements_gone)(next.procurement_items[k]));
    }
    assert forall|k: int| 0 <= k < next.shipment_items.len() implies !s.owns_shipment(
        id,
        (#[trigger] next.shipment_items[k]).shipment_id,
    ) by {
        assert(not_child_of::<ShipmentItem>(shipments_gone)(next.shipment_items[k]));
    }
    assert forall|x: i32|
        {
            &&& !(#[trigger] next.owns_boss(id, x))
            &&& !next.owns_staff(id, x)
            &&& !next.owns_clothing(id, x)
            &&& !next.owns_procurement(id, x)
            &&& !next.owns_shipment(id, x)
            &&& !next.owns_production(id, x)
        } by {
        if has_id(next.bosses, x) {
            let w = index_of(next.bosses, x);
            lemma_select(s.bosses, not_child_of::<Boss>(gone));
            assert(not_child_of::<Boss>(gone)(next.bosses[w]));
        }
        if has_id(next.staffs, x) {
            let w = index_of(next.staffs, x);
            lemma_select(s.staffs, not_child_of::<Staff>(gone));
            assert(not_child_of::<Staff>(gone)(next.staffs[w]));
        }
        if has_id(next.procurements, x) {
            let w = index_of(next.procurements, x);
            lemma_select(s.procurements, not_child_of::<ProcurementRecord>(gone));
            assert(not_child_of::<ProcurementRecord>(gone)(next.procurements[w]));
        }
        if has_id(next.shipments, x) {
            let w = index_of(next.shipments, x);
            lemma_select(s.shipments, not_child_of::<ShipmentRecord>(gone));
            assert(not_child_of::<ShipmentRecord>(gone)(next.shipments[w]));
        }
        if next.owns_clothing(id, x) {
            let b = row_with(next.clothings, x).boss_id;
            let w = index_of(next.bosses, b);
            lemma_select(s.bosses, not_child_of::<Boss>(gone));
            assert(not_child_of::<Boss>(gone)(next.bosses[w]));
        }
        if next.owns_production(id, x) {
            let m = row_with(next.productions, x).staff_id;
            let w = index_of(next.staffs, m);
            lemma_select(s.staffs, not_child_of::<Staff>(gone));
            assert(not_child_of::<Staff>(gone)(next.staffs[w]));
        }
    }
}

/// Deleting a user leaves what other users own: every record that did not
/// belong to the user, directly or through a boss or a staff member, stays
/// as it was.
pub proof fn law_delete_user_spares_others(s: DbState, id: i32)
    requires
        s.wf(),
        has_id(s.users, id),
    ensures
        forall|k: int|
            0 <= k < s.bosses.len() && (#[trigger] s.bosses[k]).user_id != id ==> s.delete_user(
                id,
            ).0.bosses.contains(s.bosses[k]),
        forall|k: int|
            0 <= k < s.staffs.len() && (#[trigger] s.staffs[k]).user_id != id ==> s.delete_user(
                id,
            ).0.staffs.contains(s.staffs[k]),
        forall|k: int|
            0 <= k < s.clothings.len() && !s.owns_boss(id, (#[trigger] s.clothings[k]).boss_id)
                ==> s.delete_user(id).0.clothings.contains(s.clothings[k]),
        forall|k: int|
            0 <= k < s.productions.len() && !s.owns_staff(
                id,
                (#[trigger] s.productions[k]).staff_id,
            ) ==> s.delete_user(id).0.productions.contains(s.productions[k]),
        forall|k: int|
            0 <= k < s.procurements.len() && (#[trigger] s.procurements[k]).user_id != id
                ==> s.delete_user(id).0.procurements.contains(s.procurements[k]),
        forall|k: int|
            0 <= k < s.shipments.len() && (#[trigger] s.shipments[k]).user_id != id
                ==> s.delete_user(id).0.shipments.contains(s.shipments[k]),
        forall|k: int|
            0 <= k < s.procurement_items.len() && !s.owns_procurement(
                id,
                (#[trigger] s.procurement_items[k]).procurement_id,
            ) ==> s.delete_user(id).0.procurement_items.contains(s.procurement_items[k]),
        forall|k: int|
            0 <= k < s.shipment_items.len() && !s.owns_shipment(
                id,
                (#[trigger] s.shipment_items[k]).shipment_id,
            ) ==> s.delete_user(id).0.shipment_items.contains(s.shipment_items[k]),
        forall|k: int|
            0 <= k < s.production_items.len() && !s.owns_production(
                id,
                (#[trigger] s.production_items[k]).production_id,
            ) ==> s.delete_user(id).0.production_items.contains(s.production_items[k]),
{
    let next = s.delete_user(id).0;
    let gone = seq![id];
    let bosses_gone = scope_of(s.bosses, gone);
    let staffs_gone = scope_of(s.staffs, gone);
    let productions_gone = scope_of(s.productions, staffs_gone);
    let procurements_gone = scope_of(s.procurements, gone);
    let shipments_gone = scope_of(s.shipments, gone);
    lemma_scope_of(s.bosses, gone);
    lemma_scope_of(s.staffs, gone);
    lemma_scope_of(s.productions, staffs_gone);
    lemma_scope_of(s.procurements, gone);
    lemma_scope_of(s.shipments, gone);
    lemma_select(s.bosses, not_child_of::<Boss>(gone));
    lemma_select(s.staffs, not_child_of::<Staff>(gone));
    lemma_select(s.procurements, not_child_of::<ProcurementRecord>(gone));
    lemma_select(s.shipments, not_child_of::<ShipmentRecord>(gone));
    lemma_select(s.clothings, not_child_of::<Clothing>(bosses_gone));
    lemma_select(s.productions, not_child_of::<ProductionRecord>(staffs_gone));
    lemma_select(s.production_items, not_child_of::<ProductionItem>(productions_gone));
    lemma_select(s.procurement_items, not_child_of::<ProcurementItem>(procurements_gone));
    lemma_select(s.shipment_items, not_child_of::<ShipmentItem>(shipments_gone));
    assert forall|x: i32| gone.contains(x) implies x == id by {
        let j = choose|j: int| 0 <= j < 1 && gone[j] == x;
    }
    assert forall|k: int|
        0 <= k < s.bosses.len() && (#[trigger] s.bosses[k]).user_id != id implies next.bosses.contains(
        s.bosses[k],
    ) by {
        assert(not_child_of::<Boss>(gone)(s.bosses[k]));
    }
    assert forall|k: int|
        0 <= k < s.staffs.len() && (#[trigger] s.staffs[k]).user_id != id implies next.staffs.contains(
        s.staffs[k],
    ) by {
        assert(not_child_of::<Staff>(gone)(s.staffs[k]));
    }
    assert forall|k: int|
        0 <= k < s.procurements.len() && (#[trigger] s.procurements[k]).user_id
            != id implies next.procurements.contains(s.procurements[k]) by {
        assert(not_child_of::<ProcurementRecord>(gone)(s.procurements[k]));
    }
    assert forall|k: int|
        0 <= k < s.shipments.len() && (#[trigger] s.shipments[k]).user_id
            != id implies next.shipments.contains(s.shipments[k]) by {
        assert(not_child_of::<ShipmentRecord>(gone)(s.shipments[k]));
    }
    assert forall|k: int|
        0 <= k < s.clothings.len() && !s.owns_boss(
            id,
            (#[trigger] s.clothings[k]).boss_id,
        ) implies next.clothings.contains(s.clothings[k]) by {
        assert(not_child_of::<Clothing>(bosses_gone)(s.clothings[k]));
    }
    assert forall|k: int|
        0 <= k < s.productions.len() && !s.owns_staff(
            id,
            (#[trigger] s.productions[k]).staff_id,
        ) implies next.productions.contains(s.productions[k]) by {
        assert(not_child_of::<ProductionRecord>(staffs_gone)(s.productions[k]));
    }
    assert forall|k: int|
        0 <= k < s.procurement_items.len() && !s.owns_procurement(
            id,
            (#[trigger] s.procurement_items[k]).procurement_id,
        ) implies next.procurement_items.contains(s.procurement_items[k]) by {
        assert(not_child_of::<ProcurementItem>(procurements_gone)(s.procurement_items[k]));
    }
    assert forall|k: int|
        0 <= k < s.shipment_items.len() && !s.owns_shipment(
            id,
            (#[trigger] s.shipment_items[k]).shipment_id,
        ) implies next.shipment_items.contains(s.shipment_items[k]) by {
        assert(not_child_of::<ShipmentItem>(shipments_gone)(s.shipment_items[k]));
    }
    assert forall|k: int|
        0 <= k < s.production_items.len() && !s.owns_production(
            id,
            (#[trigger] s.production_items[k]).production_id,
        ) implies next.production_items.contains(s.production_items[k]) by {
        let item = s.production_items[k];
        if productions_gone.contains(item.production_id) {
            let batch = row_with(s.productions, item.production_id);
            assert(staffs_gone.contains(batch.staff_id));
        }
        assert(not_child_of::<ProductionItem>(productions_gone)(item));
    }
}

/// Settling is one-way and repeatable: a settled batch is settled, settling
/// it again succeeds, returns the same and changes nothing, and an update
/// never unsettles it.
pub proof fn law_settle_is_idempotent(
    s: DbState,
    user_id: i32,
    id: i32,
    p: UpdateProductionParams,
)
    requires
        s.wf(),
        s.owns_production(user_id, id),
    ensures
        s.settle_production(user_id, id).1 matches Ok(first) && first.0.settled,
        s.settle_production(user_id, id).0.settle_production(user_id, id) == s.settle_production(
            user_id,
            id,
        ),
        s.settle_production(user_id, id).0.update_production(user_id, id, p).1 matches Ok(later)
            && later.0.settled,
        row_with(s.productions, id).settled ==> s.settle_production(user_id, id).0 == s,
{
    let at = index_of(s.productions, id);
    let record = settled_production(s.productions[at]);
    let next = s.settle_production(user_id, id).0;
    lemma_update_row(s.productions, s.last_production, at, record);
    lemma_index_of(next.productions, at);
    assert(next.productions.update(at, record) =~= next.productions);
    assert(next.staffs == s.staffs);
    if s.productions[at].settled {
        assert(s.productions.update(at, record) =~= s.productions);
    }
}

/// Who has registered can log in: with the phone number and the password
/// that were registered, a login finds the user and passes the comparison,
/// so that it returns the user, or fails for want of a token alone. With a
/// password that the stored hash does not match, it fails with
/// `InvalidCredentials`.
pub proof fn law_registered_can_log_in(
    s: DbState,
    p: CreateUserParams,
    hash: String,
    attempt: LoginParams,
    secret: Seq<char>,
    now: i64,
    r: Result<LoginResponse, AppError>,
)
    requires
        s.wf(),
        s.create_user(hashed(p, hash)).1 is Ok,
        bcrypt_verdict(p.password@, hash@) == Some(true),
        attempt.phone_number@ == p.phone_number@,
        login_outcome(s.create_user(hashed(p, hash)).0, attempt, secret, now, r),
    ensures
        attempt.password@ == p.password@ ==> match r {
            Ok(l) => l.user == info_of(s.create_user(hashed(p, hash)).1->Ok_0),
            Err(e) => e matches AppError::AuthError(AuthError::TokenCreation),
        },
        bcrypt_verdict(attempt.password@, hash@) == Some(false) ==> r matches Err(
            AppError::InvalidCredentials,
        ),
{
    let next = s.create_user(hashed(p, hash)).0;
    lemma_create_user_wf(s, hashed(p, hash));
    lemma_phone_index(next.users, next.users.len() - 1);
}

/// Deleting a staff member removes all its production batches with their
/// items and nothing else: no batch of the staff member is left, no item of
/// such a batch, and every other staff member, batch and item stays.
pub proof fn law_delete_staff_cascades(s: DbState, user_id: i32, id: i32)
    requires
        s.wf(),
        s.owns_staff(user_id, id),
    ensures
        s.delete_staff(user_id, id).0.wf(),
        !has_id(s.delete_staff(user_id, id).0.staffs, id),
        forall|k: int|
            0 <= k < s.delete_staff(user_id, id).0.productions.len() ==> (
            #[trigger] s.delete_staff(user_id, id).0.productions[k]).staff_id != id,
        forall|k: int|
            0 <= k < s.delete_staff(user_id, id).0.production_items.len() ==> !(has_id(
                s.productions,
                (#[trigger] s.delete_staff(user_id, id).0.production_items[k]).production_id,
            ) && row_with(
                s.productions,
                s.delete_staff(user_id, id).0.production_items[k].production_id,
            ).staff_id == id),
        forall|k: int|
            0 <= k < s.productions.len() && (#[trigger] s.productions[k]).staff_id != id
                ==> s.delete_staff(user_id, id).0.productions.contains(s.productions[k]),
        forall|k: int|
            0 <= k < s.production_items.len() && row_with(
                s.productions,
                (#[trigger] s.production_items[k]).production_id,
            ).staff_id != id ==> s.delete_staff(user_id, id).0.production_items.contains(
                s.production_items[k],
            ),
{
    let next = s.delete_staff(user_id, id).0;
    let gone = seq![id];
    let batches = scope_of(s.productions, gone);
    let keep = not_child_of::<ProductionRecord>(gone);
    let keep_items = not_child_of::<ProductionItem>(batches);
    lemma_delete_staff_wf(s, user_id, id);
    lemma_remove_row(s.staffs, s.last_staff, index_of(s.staffs, id));
    lemma_select(s.productions, keep);
    lemma_select(s.production_items, keep_items);
    lemma_scope_of(s.productions, gone);
    assert(gone[0] == id);
    assert forall|x: i32| gone.contains(x) implies x == id by {
        let j = choose|j: int| 0 <= j < 1 && gone[j] == x;
    }
    assert forall|k: int| 0 <= k < next.productions.len() implies (
    #[trigger] next.productions[k]).staff_id != id by {
        assert(keep(next.productions[k]));
    }
    assert forall|k: int| 0 <= k < next.production_items.len() implies !(has_id(
        s.productions,
        (#[trigger] next.production_items[k]).production_id,
    ) && row_with(s.productions, next.production_items[k].production_id).staff_id == id) by {
        assert(keep_items(next.production_items[k]));
    }
    assert forall|k: int|
        0 <= k < s.productions.len() && (#[trigger] s.productions[k]).staff_id
            != id implies next.productions.contains(s.productions[k]) by {
        assert(keep(s.productions[k]));
    }
    assert forall|k: int|
        0 <= k < s.production_items.len() && row_with(
            s.productions,
            (#[trigger] s.production_items[k]).production_id,
        ).staff_id != id implies next.production_items.contains(s.production_items[k]) by {
        assert(keep_items(s.production_items[k]));
    }
}

/// Whenever a batch is found, its salary is the sum of the salaries of its
/// items, and the salary of each item is its unit price times its count:
/// nothing that the store does changes the one without the other.
pub proof fn law_found_salary_adds_up(s: DbState, user_id: i32, id: i32)
    requires
        s.wf(),
        s.find_production(user_id, id) is Ok,
    ensures
        ({
            let found = s.find_production(user_id, id)->Ok_0;
            &&& found.0.total_salary == items_salary(found.1)
            &&& forall|k: int|
                0 <= k < found.1.len() ==> (#[trigger] found.1[k]).salary == found.1[k].unit_price
                    * found.1[k].count
        }),
{
    let found = s.find_production(user_id, id)->Ok_0;
    let at = index_of(s.productions, id);
    assert(s.productions[at].id == id);
    lemma_select(s.production_items, child_of::<ProductionItem>(seq![id]));
    assert forall|k: int| 0 <= k < found.1.len() implies (#[trigger] found.1[k]).salary
        == found.1[k].unit_price * found.1[k].count by {
        assert(s.production_items.contains(found.1[k]));
        let w = choose|w: int|
            0 <= w < s.production_items.len() && s.production_items[w] == found.1[k];
        assert(s.production_items[w].salary == s.production_items[w].unit_price
            * s.production_items[w].count);
    }
}

/// The salary of a new batch is the sum of the salaries of its items, and
/// the salary of each item is its unit price times its count.
pub proof fn law_salary_is_sum_of_items(s: DbState, user_id: i32, p: CreateProductionParams)
    requires
        s.create_production(user_id, p).1 is Ok,
    ensures
        ({
            let created = s.create_production(user_id, p).1->Ok_0;
            &&& !created.0.settled
            &&& created.0.total_salary == items_salary(created.1)
            &&& forall|k: int|
                0 <= k < created.1.len() ==> (#[trigger] created.1[k]).salary
                    == created.1[k].unit_price * created.1[k].count
        }),
{
    let created = s.create_production(user_id, p).1->Ok_0;
    lemma_items_salary(created.0.id, s.last_production_item + 1, p.items@);
    lemma_lines_salary_bound(p.items@);
    assert(p.items@.len() * max_line_salary() <= 0xFFFF_FFFF_FFFF_FFFF * 0xFFFF_FFFE_0000_0001)
        by (nonlinear_arith)
        requires
            p.items@.len() <= 0xFFFF_FFFF_FFFF_FFFF,
            max_line_salary() == 0xFFFF_FFFE_0000_0001,
    ;
    assert forall|k: int| 0 <= k < created.1.len() implies (#[trigger] created.1[k]).salary
        == created.1[k].unit_price * created.1[k].count by {
        let line = p.items@[k];
        assert(line.unit_price * line.count <= 0xFFFF_FFFE_0000_0001) by (nonlinear_arith)
            requires
                0 <= line.unit_price <= 0xFFFF_FFFF,
                0 <= line.count <= 0xFFFF_FFFF,
        ;
    }
}

/// What a lookup found, as the repositories report it.
pub open spec fn found<R>(row: Option<R>) -> Result<R, StoreError> {
    match row {
        Some(r) => Ok(r),
        None => Err(StoreError::NotFound),
    }
}

/// The statements of the repositories find what the repositories find: a
/// store that answers a lookup as the lookup is defined returns the record
/// that `find_by_id` returns, and none where that fails.
pub proof fn law_lookups_find_what_the_store_finds(s: DbState, user_id: i32, id: i32)
    ensures
        s.find_boss(user_id, id) == found(
            (Lookup { id, scope: Scope::Own { user_id } }).finds_own(s.bosses),
        ),
        s.find_staff(user_id, id) == found(
            (Lookup { id, scope: Scope::Own { user_id } }).finds_own(s.staffs),
        ),
        s.find_clothing(user_id, id) == found(
            (Lookup { id, scope: Scope::Through { user_id, only: None } }).finds_through(
                s.clothings,
                s.bosses,
            ),
        ),
        s.owns_procurement(user_id, id) <==> (Lookup {
            id,
            scope: Scope::Own { user_id },
        }).finds_own(s.procurements) == Some(row_with(s.procurements, id)),
        s.owns_shipment(user_id, id) <==> (Lookup { id, scope: Scope::Own { user_id } }).finds_own(
            s.shipments,
        ) == Some(row_with(s.shipments, id)),
        s.owns_production(user_id, id) <==> (Lookup {
            id,
            scope: Scope::Through { user_id, only: None },
        }).finds_through(s.productions, s.staffs) == Some(row_with(s.productions, id)),
        !s.owns_procurement(user_id, id) ==> (Lookup {
            id,
            scope: Scope::Own { user_id },
        }).finds_own(s.procurements) is None,
        !s.owns_shipment(user_id, id) ==> (Lookup { id, scope: Scope::Own { user_id } }).finds_own(
            s.shipments,
        ) is None,
        !s.owns_production(user_id, id) ==> (Lookup {
            id,
            scope: Scope::Through { user_id, only: None },
        }).finds_through(s.productions, s.staffs) is None,
{
}

/// The statements of the repositories list what the repositories list: a
/// store that answers a listing as the listing is defined returns the count
/// and the page that `find_by_user_id` returns.
pub proof fn law_listings_show_what_the_store_lists(
    s: DbState,
    user_id: i32,
    q: ListQueryParams,
    only: Option<Vec<i32>>,
    bosses: Listing,
    staff: Listing,
    clothing: Listing,
    procurements: Listing,
    shipments: Listing,
    productions: Listing,
)
    requires
        s.wf(),
        bosses.is_for::<Boss>(Scope::Own { user_id }, q),
        staff.is_for::<Staff>(Scope::Own { user_id }, q),
        clothing.is_for::<Clothing>(Scope::Through { user_id, only }, q),
        procurements.is_for::<ProcurementRecord>(Scope::Own { user_id }, q),
        shipments.is_for::<ShipmentRecord>(Scope::Own { user_id }, q),
        productions.is_for::<ProductionRecord>(Scope::Through { user_id, only }, q),
    ensures
        s.bosses.len() <= MAX_WINDOW ==> bosses.shows(select(s.bosses, bosses.keeps_own::<Boss>()))
            == s.list_bosses(user_id, q),
        s.staffs.len() <= MAX_WINDOW ==> staff.shows(select(s.staffs, staff.keeps_own::<Staff>()))
            == s.list_staffs(user_id, q),
        s.clothings.len() <= MAX_WINDOW ==> clothing.shows(
            select(s.clothings, clothing.keeps_through::<Clothing, Boss>(s.bosses)),
        ) == s.list_clothings(user_id, q, wanted_ids(only)),
        s.procurements.len() <= MAX_WINDOW ==> procurements.shows(
            select(s.procurements, procurements.keeps_own::<ProcurementRecord>()),
        ) == listing(s.procurements, seq![user_id], q),
        s.shipments.len() <= MAX_WINDOW ==> shipments.shows(
            select(s.shipments, shipments.keeps_own::<ShipmentRecord>()),
        ) == listing(s.shipments, seq![user_id], q),
        s.productions.len() <= MAX_WINDOW ==> productions.shows(
            select(s.productions, productions.keeps_through::<ProductionRecord, Staff>(s.staffs)),
        ) == listing(s.productions, s.production_scope(user_id, wanted_ids(only)), q),
{
    if s.bosses.len() <= MAX_WINDOW {
        lemma_listing_own(bosses, s.bosses, user_id, q);
    }
    if s.staffs.len() <= MAX_WINDOW {
        lemma_listing_own(staff, s.staffs, user_id, q);
    }
    if s.clothings.len() <= MAX_WINDOW {
        lemma_listing_through(clothing, s.clothings, s.bosses, user_id, only, q);
    }
    if s.procurements.len() <= MAX_WINDOW {
        lemma_listing_own(procurements, s.procurements, user_id, q);
    }
    if s.shipments.len() <= MAX_WINDOW {
        lemma_listing_own(shipments, s.shipments, user_id, q);
    }
    if s.productions.len() <= MAX_WINDOW {
        lemma_listing_through(productions, s.productions, s.staffs, user_id, only, q);
    }
}

} // verus!
