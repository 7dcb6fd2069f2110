//! Shipments: outgoing stock, owned by a user, each with its items.

use crate::database::{Database, DbState};
use crate::entity::{apply_patch, patched, Patch, ShipmentItem, ShipmentRecord};
use crate::error::StoreError;
use crate::plan::{Listing, Lookup, Scope};
use crate::query::{page_len, page_or_default, page_size_or_default, ListQueryParams, ListResult};
use crate::table::{
    admits, child_of, children, copy_rows, criteria_of, has_id, index_of, lemma_append_rows,
    lemma_cascade, lemma_index_of, lemma_listing, lemma_push_child, lemma_push_parent,
    lemma_push_row, lemma_push_stamp, lemma_remove_child, lemma_remove_row, lemma_remove_stamp,
    lemma_select_ids, lemma_update_child, lemma_update_parent, lemma_update_row, lemma_update_stamp,
    list_page, listing, newest_first, not_child_of, position, row_with, select, survivors,
};
use vstd::prelude::*;

verus! {

/// The repository of shipments.
pub struct ShipmentService;

/// One line of a new shipment.
#[derive(Debug)]
pub struct CreateShipmentItem {
    pub amount: u32,
    pub clothing_id: i32,
}

/// The columns and the lines of a new shipment.
#[derive(Debug)]
pub struct CreateShipmentParams {
    pub description: Option<String>,
    pub items: Vec<CreateShipmentItem>,
}

/// What an update changes of a shipment. Its items cannot be changed.
#[derive(Debug)]
pub struct UpdateShipmentParams {
    pub description: Patch<String>,
}

/// A shipment with its items.
#[derive(Debug, PartialEq, Eq)]
pub struct Shipment {
    pub shipment: ShipmentRecord,
    pub items: Vec<ShipmentItem>,
}

impl Clone for Shipment {
    fn clone(&self) -> (copy: Self)
        ensures
            copy@ == self@,
    {
        Shipment { shipment: self.shipment.clone(), items: copy_rows(&self.items) }
    }
}

impl View for Shipment {
    type V = (ShipmentRecord, Seq<ShipmentItem>);

    open spec fn view(&self) -> (ShipmentRecord, Seq<ShipmentItem>) {
        (self.shipment, self.items@)
    }
}

/// What an operation returned, with the shipment as its record and its
/// items.
pub open spec fn shipment_outcome(r: Result<Shipment, StoreError>) -> Result<
    (ShipmentRecord, Seq<ShipmentItem>),
    StoreError,
> {
    match r {
        Ok(p) => Ok(p@),
        Err(e) => Err(e),
    }
}

/// Each shipment of `data` as its record and its items.
pub open spec fn shipment_views(data: Seq<Shipment>) -> Seq<
    (ShipmentRecord, Seq<ShipmentItem>),
> {
    Seq::new(data.len(), |k: int| data[k]@)
}

/// The record of each shipment of `data`.
pub open spec fn shipment_records(data: Seq<Shipment>) -> Seq<ShipmentRecord> {
    Seq::new(data.len(), |k: int| data[k].shipment)
}

/// The shipment `old` after the update `p`.
pub open spec fn updated_shipment(
    old: ShipmentRecord,
    p: UpdateShipmentParams,
) -> ShipmentRecord {
    ShipmentRecord { description: patched(old.description, p.description), ..old }
}

/// The items made of the lines `lines` for the shipment `parent`: line
/// `k` gets the id `first + k`.
pub open spec fn new_shipment_items(
    parent: i32,
    first: int,
    lines: Seq<CreateShipmentItem>,
) -> Seq<ShipmentItem> {
    Seq::new(
        lines.len(),
        |k: int|
            ShipmentItem {
                id: (first + k) as i32,
                amount: lines[k].amount,
                shipment_id: parent,
                clothing_id: lines[k].clothing_id,
            },
    )
}

impl DbState {
    /// The items of shipment `id`, in the order of their lines.
    pub open spec fn shipment_items_of(self, id: i32) -> Seq<ShipmentItem> {
        select(self.shipment_items, child_of::<ShipmentItem>(seq![id]))
    }

    /// The record that `create_shipment` adds.
    pub open spec fn new_shipment(
        self,
        user_id: i32,
        p: CreateShipmentParams,
    ) -> ShipmentRecord {
        ShipmentRecord {
            id: (self.last_shipment + 1) as i32,
            description: p.description,
            create_at: self.clock,
            user_id,
        }
    }

    /// Creating a shipment for `user_id`: record and items are added
    /// together or not at all.
    pub open spec fn create_shipment(self, user_id: i32, p: CreateShipmentParams) -> (
        DbState,
        Result<(ShipmentRecord, Seq<ShipmentItem>), StoreError>,
    ) {
        if !has_id(self.users, user_id) {
            (self, Err(StoreError::ForeignKey))
        } else if self.last_shipment == i32::MAX || self.last_shipment_item + p.items@.len()
            > i32::MAX {
            (self, Err(StoreError::Exhausted))
        } else {
            let record = self.new_shipment(user_id, p);
            let items = new_shipment_items(
                record.id,
                self.last_shipment_item + 1,
                p.items@,
            );
            (
                DbState {
                    shipments: self.shipments.push(record),
                    last_shipment: record.id,
                    shipment_items: self.shipment_items + items,
                    last_shipment_item: (self.last_shipment_item + items.len()) as i32,
                    ..self
                },
                Ok((record, items)),
            )
        }
    }

    /// There is a shipment `id` and it belongs to `user_id`.
    pub open spec fn owns_shipment(self, user_id: i32, id: i32) -> bool {
        has_id(self.shipments, id) && row_with(self.shipments, id).user_id == user_id
    }

    /// What `user_id` finds under the shipment id `id`.
    pub open spec fn find_shipment(self, user_id: i32, id: i32) -> Result<
        (ShipmentRecord, Seq<ShipmentItem>),
        StoreError,
    > {
        if self.owns_shipment(user_id, id) {
            Ok((row_with(self.shipments, id), self.shipment_items_of(id)))
        } else {
            Err(StoreError::NotFound)
        }
    }

    /// Updating shipment `id` as `user_id`: the state after it and what is
    /// returned.
    pub open spec fn update_shipment(
        self,
        user_id: i32,
        id: i32,
        p: UpdateShipmentParams,
    ) -> (DbState, Result<(ShipmentRecord, Seq<ShipmentItem>), StoreError>) {
        if self.owns_shipment(user_id, id) {
            let record = updated_shipment(row_with(self.shipments, id), p);
            (
                DbState {
                    shipments: self.shipments.update(
                        index_of(self.shipments, id),
                        record,
                    ),
                    ..self
                },
                Ok((record, self.shipment_items_of(id))),
            )
        } else {
            (self, Err(StoreError::NotFound))
        }
    }

    /// Deleting shipment `id` as `user_id`: the record leaves, and its
    /// items with it.
    pub open spec fn delete_shipment(self, user_id: i32, id: i32) -> (
        DbState,
        Result<(ShipmentRecord, Seq<ShipmentItem>), StoreError>,
    ) {
        if self.owns_shipment(user_id, id) {
            (
                DbState {
                    shipments: self.shipments.remove(index_of(self.shipments, id)),
                    shipment_items: select(
                        self.shipment_items,
                        not_child_of::<ShipmentItem>(seq![id]),
                    ),
                    ..self
                },
                Ok((row_with(self.shipments, id), self.shipment_items_of(id))),
            )
        } else {
            (self, Err(StoreError::NotFound))
        }
    }

    /// What `user_id` sees of the shipments when asking for `q`: how many
    /// meet the criteria, and the asked page of them, each with its items.
    pub open spec fn list_shipments(self, user_id: i32, q: ListQueryParams) -> (
        nat,
        Seq<(ShipmentRecord, Seq<ShipmentItem>)>,
    ) {
        let (total, page) = listing(self.shipments, seq![user_id], q);
        (total, Seq::new(page.len(), |k: int| (page[k], self.shipment_items_of(page[k].id))))
    }
}

/// Creating a shipment keeps the rules of the store.
pub proof fn lemma_create_shipment_wf(s: DbState, user_id: i32, p: CreateShipmentParams)
    requires
        s.wf(),
    ensures
        s.create_shipment(user_id, p).0.wf(),
{
    if has_id(s.users, user_id) && s.last_shipment < i32::MAX && s.last_shipment_item
        + p.items@.len() <= i32::MAX {
        let record = s.new_shipment(user_id, p);
        let items = new_shipment_items(record.id, s.last_shipment_item + 1, p.items@);
        lemma_push_row(s.shipments, s.last_shipment, record);
        lemma_push_stamp(s.shipments, s.clock, record);
        lemma_push_child(s.shipments, s.users, record);
        lemma_push_parent(s.shipment_items, s.shipments, record);
        let parents = s.shipments.push(record);
        assert(parents[parents.len() - 1].id == record.id);
        assert(has_id(parents, record.id));
        lemma_append_rows(s.shipment_items, s.last_shipment_item, items, parents);
    }
}

/// Updating a shipment keeps the rules of the store.
pub proof fn lemma_update_shipment_wf(
    s: DbState,
    user_id: i32,
    id: i32,
    p: UpdateShipmentParams,
)
    requires
        s.wf(),
    ensures
        s.update_shipment(user_id, id, p).0.wf(),
{
    if s.owns_shipment(user_id, id) {
        let i = index_of(s.shipments, id);
        let record = updated_shipment(s.shipments[i], p);
        lemma_update_row(s.shipments, s.last_shipment, i, record);
        lemma_update_stamp(s.shipments, s.clock, i, record);
        lemma_update_child(s.shipments, s.users, i, record);
        lemma_update_parent(s.shipment_items, s.shipments, i, record);
    }
}

/// Deleting a shipment keeps the rules of the store: no item is left
/// without its shipment.
pub proof fn lemma_delete_shipment_wf(s: DbState, user_id: i32, id: i32)
    requires
        s.wf(),
    ensures
        s.delete_shipment(user_id, id).0.wf(),
{
    if s.owns_shipment(user_id, id) {
        let i = index_of(s.shipments, id);
        let gone = seq![id];
        let keep = not_child_of::<ShipmentItem>(gone);
        lemma_remove_row(s.shipments, s.last_shipment, i);
        lemma_remove_stamp(s.shipments, s.clock, i);
        lemma_remove_child(s.shipments, s.users, i);
        lemma_select_ids(s.shipment_items, keep, s.last_shipment_item);
        assert(gone[0] == id);
        lemma_cascade(s.shipment_items, s.shipments, s.shipments.remove(i), gone);
    }
}

impl UpdateShipmentParams {
    /// Applies the update to `old`.
    pub fn apply(self, old: ShipmentRecord) -> (new: ShipmentRecord)
        ensures
            new == updated_shipment(old, self),
    {
        ShipmentRecord {
            id: old.id,
            description: apply_patch(old.description, self.description),
            create_at: old.create_at,
            user_id: old.user_id,
        }
    }
}

/// The items of shipment `id`.
fn items_of(db: &Database, id: i32) -> (items: Vec<ShipmentItem>)
    ensures
        items@ == db@.shipment_items_of(id),
{
    let scope: Vec<i32> = vec![id];
    assert(scope@ =~= seq![id]);
    children(&db.shipment_items, &scope)
}

/// The items for the lines `lines` of shipment `parent`, twice: to keep
/// and to hand out.
fn make_items(lines: &Vec<CreateShipmentItem>, parent: i32, last: i32) -> (r: (
    Vec<ShipmentItem>,
    Vec<ShipmentItem>,
))
    requires
        0 <= last,
        last + lines.len() <= i32::MAX,
    ensures
        r.0@ == new_shipment_items(parent, last + 1, lines@),
        r.1@ == r.0@,
{
    let mut kept: Vec<ShipmentItem> = Vec::new();
    let mut given: Vec<ShipmentItem> = Vec::new();
    let mut k: usize = 0;
    let mut id: i32 = last;
    while k < lines.len()
        invariant
            k <= lines.len(),
            0 <= last,
            last + lines.len() <= i32::MAX,
            id == last + k,
            kept@ == new_shipment_items(parent, last + 1, lines@).take(k as int),
            given@ == kept@,
        decreases lines.len() - k,
    {
        id = id + 1;
        let item = ShipmentItem {
            id,
            amount: lines[k].amount,
            shipment_id: parent,
            clothing_id: lines[k].clothing_id,
        };
        kept.push(item.clone());
        given.push(item);
        k += 1;
        assert(kept@ =~= new_shipment_items(parent, last + 1, lines@).take(k as int));
    }
    assert(kept@ =~= new_shipment_items(parent, last + 1, lines@));
    (kept, given)
}

impl ShipmentService {
    /// What a store is asked to find the shipment `id` for `user_id`.
    pub fn lookup(user_id: i32, id: i32) -> (l: Lookup)
        ensures
            l == (Lookup { id, scope: Scope::Own { user_id } }),
    {
        Lookup::own(user_id, id)
    }

    /// What a store is asked to list the shipments of `user_id` that meet
    /// `params`.
    pub fn listing(user_id: i32, params: &ListQueryParams) -> (l: Listing)
        ensures
            l.is_for::<ShipmentRecord>(Scope::Own { user_id }, *params),
    {
        Listing::new::<ShipmentRecord>(Scope::Own { user_id }, params)
    }

    /// Adds a shipment that belongs to `user_id`, and its items with it.
    /// Fails with `ForeignKey` where there is no such user and with
    /// `Exhausted` where the ids do not suffice for the record and all its
    /// items; the store is then unchanged.
    pub fn create(db: &mut Database, user_id: i32, params: CreateShipmentParams) -> (r: Result<
        Shipment,
        StoreError,
    >)
        requires
            old(db).wf(),
        ensures
            final(db).wf(),
            (final(db)@, shipment_outcome(r)) == old(db)@.create_shipment(user_id, params),
    {
        proof {
            lemma_create_shipment_wf(db@, user_id, params);
        }
        if position(&db.users, user_id).is_none() {
            return Err(StoreError::ForeignKey);
        }
        if db.last_shipment == i32::MAX || params.items.len() > (i32::MAX
            - db.last_shipment_item) as usize {
            return Err(StoreError::Exhausted);
        }
        let record = ShipmentRecord {
            id: db.last_shipment + 1,
            description: params.description,
            create_at: db.clock,
            user_id,
        };
        let (mut kept, given) = make_items(&params.items, record.id, db.last_shipment_item);
        db.shipments.push(record.clone());
        db.last_shipment = record.id;
        db.last_shipment_item = db.last_shipment_item + kept.len() as i32;
        db.shipment_items.append(&mut kept);
        Ok(Shipment { shipment: record, items: given })
    }

    /// The shipment `id` with its items, if it belongs to `user_id`;
    /// `NotFound` otherwise, whether there is no such shipment or it is
    /// another user's.
    pub fn find_by_id(db: &Database, user_id: i32, id: i32) -> (r: Result<Shipment, StoreError>)
        requires
            db.wf(),
        ensures
            shipment_outcome(r) == db@.find_shipment(user_id, id),
    {
        match position(&db.shipments, id) {
            Some(i) => {
                if db.shipments[i].user_id == user_id {
                    Ok(Shipment {
                        shipment: db.shipments[i].clone(),
                        items: items_of(db, id),
                    })
                } else {
                    Err(StoreError::NotFound)
                }
            },
            None => Err(StoreError::NotFound),
        }
    }

    /// Deletes the shipment `id` of `user_id` with its items and returns
    /// it as it was; `NotFound` as for `find_by_id`, and the store is then
    /// unchanged.
    pub fn delete(db: &mut Database, user_id: i32, id: i32) -> (r: Result<Shipment, StoreError>)
        requires
            old(db).wf(),
        ensures
            final(db).wf(),
            (final(db)@, shipment_outcome(r)) == old(db)@.delete_shipment(user_id, id),
    {
        proof {
            lemma_delete_shipment_wf(db@, user_id, id);
        }
        match position(&db.shipments, id) {
            Some(i) => {
                if db.shipments[i].user_id != user_id {
                    return Err(StoreError::NotFound);
                }
                let items = items_of(db, id);
                let gone: Vec<i32> = vec![id];
                assert(gone@ =~= seq![id]);
                let left = survivors(&db.shipment_items, &gone);
                db.shipment_items = left;
                let record = db.shipments.remove(i);
                Ok(Shipment { shipment: record, items })
            },
            None => Err(StoreError::NotFound),
        }
    }

    /// Updates the shipment `id` of `user_id` and returns it as it then
    /// is, with its items; `NotFound` as for `find_by_id`, and the store is
    /// then unchanged.
    pub fn update(db: &mut Database, user_id: i32, id: i32, params: UpdateShipmentParams) -> (r:
        Result<Shipment, StoreError>)
        requires
            old(db).wf(),
        ensures
            final(db).wf(),
            (final(db)@, shipment_outcome(r)) == old(db)@.update_shipment(user_id, id, params),
    {
        proof {
            lemma_update_shipment_wf(db@, user_id, id, params);
        }
        match position(&db.shipments, id) {
            Some(i) => {
                if db.shipments[i].user_id != user_id {
                    return Err(StoreError::NotFound);
                }
                let record = params.apply(db.shipments[i].clone());
                let items = items_of(db, id);
                db.shipments.set(i, record.clone());
                Ok(Shipment { shipment: record, items })
            },
            None => Err(StoreError::NotFound),
        }
    }

    /// Lists the shipments of `user_id` that meet `params`, newest first:
    /// the number of them all, and the asked page, each with its items.
    pub fn find_by_user_id(db: &Database, user_id: i32, params: ListQueryParams) -> (r: Result<
        ListResult<Shipment>,
        StoreError,
    >)
        requires
            db.wf(),
        ensures
            r matches Ok(l) && (l.total as nat, shipment_views(l.data@))
                == db@.list_shipments(user_id, params),
            r matches Ok(l) ==> {
                &&& l.data@.len() == page_len(
                    l.total as nat,
                    page_or_default(params.page),
                    page_size_or_default(params.page_size),
                )
                &&& newest_first(shipment_records(l.data@))
                &&& forall|k: int|
                    0 <= k < l.data@.len() ==> db@.owns_shipment(
                        user_id,
                        (#[trigger] l.data@[k]).shipment.id,
                    )
            },
    {
        let scope: Vec<i32> = vec![user_id];
        assert(scope@ =~= seq![user_id]);
        let (total, page) = list_page(&db.shipments, scope, &params);
        let mut data: Vec<Shipment> = Vec::new();
        let mut k: usize = 0;
        while k < page.len()
            invariant
                k <= page.len(),
                data@.len() == k,
                forall|j: int|
                    0 <= j < k ==> (#[trigger] data@[j])@ == (
                        page@[j],
                        db@.shipment_items_of(page@[j].id),
                    ),
            decreases page.len() - k,
        {
            let record = page[k].clone();
            let items = items_of(db, record.id);
            data.push(Shipment { shipment: record, items });
            k += 1;
        }
        assert(shipment_views(data@) =~= db@.list_shipments(user_id, params).1);
        proof {
            lemma_listing(db@.shipments, seq![user_id], params, db@.clock);
            assert(shipment_records(data@) =~= page@);
            assert forall|k: int| 0 <= k < data@.len() implies db@.owns_shipment(
                user_id,
                (#[trigger] data@[k]).shipment.id,
            ) by {
                let row = page@[k];
                assert(data@[k]@.0 == row);
                assert(admits::<ShipmentRecord>(criteria_of::<ShipmentRecord>(seq![user_id], params))(row));
                assert(db@.shipments.contains(row));
                let w = choose|w: int|
                    0 <= w < db@.shipments.len() && db@.shipments[w] == row;
                lemma_index_of(db@.shipments, w);
                let j = choose|j: int| 0 <= j < 1 && seq![user_id][j] == row.user_id;
            }
        }
        Ok(ListResult { total, data })
    }
}

} // verus!
