//! Procurements: incoming stock, owned by a user, each with its items.

use crate::database::{Database, DbState};
use crate::entity::{apply_patch, patched, Patch, ProcurementItem, ProcurementRecord};
use crate::error::StoreError;
use crate::plan::{Listing, Lookup, Scope};
use crate::query::{page_len, page_or_default, page_size_or_default, ListQueryParams, ListResult};
use crate::table::{
    admits, child_of, children, copy_rows, criteria_of, has_id, index_of, lemma_append_rows,
    lemma_cascade, lemma_index_of, lemma_listing, lemma_push_child, lemma_push_parent,
    lemma_push_row, lemma_push_stamp, lemma_remove_child, lemma_remove_row, lemma_remove_stamp,
    lemma_select_ids, lemma_update_child, lemma_update_parent, lemma_update_row, lemma_update_stamp,
    list_page, listing, newest_first, not_child_of, position, row_with, select, survivors,
};
use vstd::prelude::*;

verus! {

/// The repository of procurements.
pub struct ProcurementService;

/// One line of a new procurement.
#[derive(Debug)]
pub struct CreateProcurementItem {
    pub amount: u32,
    pub clothing_id: i32,
}

/// The columns and the lines of a new procurement.
#[derive(Debug)]
pub struct CreateProcurementParams {
    pub description: Option<String>,
    pub items: Vec<CreateProcurementItem>,
}

/// What an update changes of a procurement. Its items cannot be changed.
#[derive(Debug)]
pub struct UpdateProcurementParams {
    pub description: Patch<String>,
}

/// A procurement with its items.
#[derive(Debug, PartialEq, Eq)]
pub struct Procurement {
    pub procurement: ProcurementRecord,
    pub items: Vec<ProcurementItem>,
}

impl Clone for Procurement {
    fn clone(&self) -> (copy: Self)
        ensures
            copy@ == self@,
    {
        Procurement { procurement: self.procurement.clone(), items: copy_rows(&self.items) }
    }
}

impl View for Procurement {
    type V = (ProcurementRecord, Seq<ProcurementItem>);

    open spec fn view(&self) -> (ProcurementRecord, Seq<ProcurementItem>) {
        (self.procurement, self.items@)
    }
}

/// What an operation returned, with the procurement as its record and its
/// items.
pub open spec fn procurement_outcome(r: Result<Procurement, StoreError>) -> Result<
    (ProcurementRecord, Seq<ProcurementItem>),
    StoreError,
> {
    match r {
        Ok(p) => Ok(p@),
        Err(e) => Err(e),
    }
}

/// Each procurement of `data` as its record and its items.
pub open spec fn procurement_views(data: Seq<Procurement>) -> Seq<
    (ProcurementRecord, Seq<ProcurementItem>),
> {
    Seq::new(data.len(), |k: int| data[k]@)
}

/// The record of each procurement of `data`.
pub open spec fn procurement_records(data: Seq<Procurement>) -> Seq<ProcurementRecord> {
    Seq::new(data.len(), |k: int| data[k].procurement)
}

/// The procurement `old` after the update `p`.
pub open spec fn updated_procurement(
    old: ProcurementRecord,
    p: UpdateProcurementParams,
) -> ProcurementRecord {
    ProcurementRecord { description: patched(old.description, p.description), ..old }
}

/// The items made of the lines `lines` for the procurement `parent`: line
/// `k` gets the id `first + k`.
pub open spec fn new_procurement_items(
    parent: i32,
    first: int,
    lines: Seq<CreateProcurementItem>,
) -> Seq<ProcurementItem> {
    Seq::new(
        lines.len(),
        |k: int|
            ProcurementItem {
                id: (first + k) as i32,
                amount: lines[k].amount,
                procurement_id: parent,
                clothing_id: lines[k].clothing_id,
            },
    )
}

impl DbState {
    /// The items of procurement `id`, in the order of their lines.
    pub open spec fn procurement_items_of(self, id: i32) -> Seq<ProcurementItem> {
        select(self.procurement_items, child_of::<ProcurementItem>(seq![id]))
    }

    /// The record that `create_procurement` adds.
    pub open spec fn new_procurement(
        self,
        user_id: i32,
        p: CreateProcurementParams,
    ) -> ProcurementRecord {
        ProcurementRecord {
            id: (self.last_procurement + 1) as i32,
            description: p.description,
            create_at: self.clock,
            user_id,
        }
    }

    /// Creating a procurement for `user_id`: record and items are added
    /// together or not at all.
    pub open spec fn create_procurement(self, user_id: i32, p: CreateProcurementParams) -> (
        DbState,
        Result<(ProcurementRecord, Seq<ProcurementItem>), StoreError>,
    ) {
        if !has_id(self.users, user_id) {
            (self, Err(StoreError::ForeignKey))
        } else if self.last_procurement == i32::MAX || self.last_procurement_item + p.items@.len()
            > i32::MAX {
            (self, Err(StoreError::Exhausted))
        } else {
            let record = self.new_procurement(user_id, p);
            let items = new_procurement_items(
                record.id,
                self.last_procurement_item + 1,
                p.items@,
            );
            (
                DbState {
                    procurements: self.procurements.push(record),
                    last_procurement: record.id,
                    procurement_items: self.procurement_items + items,
                    last_procurement_item: (self.last_procurement_item + items.len()) as i32,
                    ..self
                },
                Ok((record, items)),
            )
        }
    }

    /// There is a procurement `id` and it belongs to `user_id`.
    pub open spec fn owns_procurement(self, user_id: i32, id: i32) -> bool {
        has_id(self.procurements, id) && row_with(self.procurements, id).user_id == user_id
    }

    /// What `user_id` finds under the procurement id `id`.
    pub open spec fn find_procurement(self, user_id: i32, id: i32) -> Result<
        (ProcurementRecord, Seq<ProcurementItem>),
        StoreError,
    > {
        if self.owns_procurement(user_id, id) {
            Ok((row_with(self.procurements, id), self.procurement_items_of(id)))
        } else {
            Err(StoreError::NotFound)
        }
    }

    /// Updating procurement `id` as `user_id`: the state after it and what is
    /// returned.
    pub open spec fn update_procurement(
        self,
        user_id: i32,
        id: i32,
        p: UpdateProcurementParams,
    ) -> (DbState, Result<(ProcurementRecord, Seq<ProcurementItem>), StoreError>) {
        if self.owns_procurement(user_id, id) {
            let record = updated_procurement(row_with(self.procurements, id), p);
            (
                DbState {
                    procurements: self.procurements.update(
                        index_of(self.procurements, id),
                        record,
                    ),
                    ..self
                },
                Ok((record, self.procurement_items_of(id))),
            )
        } else {
            (self, Err(StoreError::NotFound))
        }
    }

    /// Deleting procurement `id` as `user_id`: the record leaves, and its
    /// items with it.
    pub open spec fn delete_procurement(self, user_id: i32, id: i32) -> (
        DbState,
        Result<(ProcurementRecord, Seq<ProcurementItem>), StoreError>,
    ) {
        if self.owns_procurement(user_id, id) {
            (
                DbState {
                    procurements: self.procurements.remove(index_of(self.procurements, id)),
                    procurement_items: select(
                        self.procurement_items,
                        not_child_of::<ProcurementItem>(seq![id]),
                    ),
                    ..self
                },
                Ok((row_with(self.procurements, id), self.procurement_items_of(id))),
            )
        } else {
            (self, Err(StoreError::NotFound))
        }
    }

    /// What `user_id` sees of the procurements when asking for `q`: how many
    /// meet the criteria, and the asked page of them, each with its items.
    pub open spec fn list_procurements(self, user_id: i32, q: ListQueryParams) -> (
        nat,
        Seq<(ProcurementRecord, Seq<ProcurementItem>)>,
    ) {
        let (total, page) = listing(self.procurements, seq![user_id], q);
        (total, Seq::new(page.len(), |k: int| (page[k], self.procurement_items_of(page[k].id))))
    }
}

/// Creating a procurement keeps the rules of the store.
pub proof fn lemma_create_procurement_wf(s: DbState, user_id: i32, p: CreateProcurementParams)
    requires
        s.wf(),
    ensures
        s.create_procurement(user_id, p).0.wf(),
{
    if has_id(s.users, user_id) && s.last_procurement < i32::MAX && s.last_procurement_item
        + p.items@.len() <= i32::MAX {
        let record = s.new_procurement(user_id, p);
        let items = new_procurement_items(record.id, s.last_procurement_item + 1, p.items@);
        lemma_push_row(s.procurements, s.last_procurement, record);
        lemma_push_stamp(s.procurements, s.clock, record);
        lemma_push_child(s.procurements, s.users, record);
        lemma_push_parent(s.procurement_items, s.procurements, record);
        let parents = s.procurements.push(record);
        assert(parents[parents.len() - 1].id == record.id);
        assert(has_id(parents, record.id));
        lemma_append_rows(s.procurement_items, s.last_procurement_item, items, parents);
    }
}

/// Updating a procurement keeps the rules of the store.
pub proof fn lemma_update_procurement_wf(
    s: DbState,
    user_id: i32,
    id: i32,
    p: UpdateProcurementParams,
)
    requires
        s.wf(),
    ensures
        s.update_procurement(user_id, id, p).0.wf(),
{
    if s.owns_procurement(user_id, id) {
        let i = index_of(s.procurements, id);
        let record = updated_procurement(s.procurements[i], p);
        lemma_update_row(s.procurements, s.last_procurement, i, record);
        lemma_update_stamp(s.procurements, s.clock, i, record);
        lemma_update_child(s.procurements, s.users, i, record);
        lemma_update_parent(s.procurement_items, s.procurements, i, record);
    }
}

/// Deleting a procurement keeps the rules of the store: no item is left
/// without its procurement.
pub proof fn lemma_delete_procurement_wf(s: DbState, user_id: i32, id: i32)
    requires
        s.wf(),
    ensures
        s.delete_procurement(user_id, id).0.wf(),
{
    if s.owns_procurement(user_id, id) {
        let i = index_of(s.procurements, id);
        let gone = seq![id];
        let keep = not_child_of::<ProcurementItem>(gone);
        lemma_remove_row(s.procurements, s.last_procurement, i);
        lemma_remove_stamp(s.procurements, s.clock, i);
        lemma_remove_child(s.procurements, s.users, i);
        lemma_select_ids(s.procurement_items, keep, s.last_procurement_item);
        assert(gone[0] == id);
        lemma_cascade(s.procurement_items, s.procurements, s.procurements.remove(i), gone);
    }
}

impl UpdateProcurementParams {
    /// Applies the update to `old`.
    pub fn apply(self, old: ProcurementRecord) -> (new: ProcurementRecord)
        ensures
            new == updated_procurement(old, self),
    {
        ProcurementRecord {
            id: old.id,
            description: apply_patch(old.description, self.description),
            create_at: old.create_at,
            user_id: old.user_id,
        }
    }
}

/// The items of procurement `id`.
fn items_of(db: &Database, id: i32) -> (items: Vec<ProcurementItem>)
    ensures
        items@ == db@.procurement_items_of(id),
{
    let scope: Vec<i32> = vec![id];
    assert(scope@ =~= seq![id]);
    children(&db.procurement_items, &scope)
}

/// The items for the lines `lines` of procurement `parent`, twice: to keep
/// and to hand out.
fn make_items(lines: &Vec<CreateProcurementItem>, parent: i32, last: i32) -> (r: (
    Vec<ProcurementItem>,
    Vec<ProcurementItem>,
))
    requires
        0 <= last,
        last + lines.len() <= i32::MAX,
    ensures
        r.0@ == new_procurement_items(parent, last + 1, lines@),
        r.1@ == r.0@,
{
    let mut kept: Vec<ProcurementItem> = Vec::new();
    let mut given: Vec<ProcurementItem> = Vec::new();
    let mut k: usize = 0;
    let mut id: i32 = last;
    while k < lines.len()
        invariant
            k <= lines.len(),
            0 <= last,
            last + lines.len() <= i32::MAX,
            id == last + k,
            kept@ == new_procurement_items(parent, last + 1, lines@).take(k as int),
            given@ == kept@,
        decreases lines.len() - k,
    {
        id = id + 1;
        let item = ProcurementItem {
            id,
            amount: lines[k].amount,
            procurement_id: parent,
            clothing_id: lines[k].clothing_id,
        };
        kept.push(item.clone());
        given.push(item);
        k += 1;
        assert(kept@ =~= new_procurement_items(parent, last + 1, lines@).take(k as int));
    }
    assert(kept@ =~= new_procurement_items(parent, last + 1, lines@));
    (kept, given)
}

impl ProcurementService {
    /// What a store is asked to find the procurement `id` for `user_id`.
    pub fn lookup(user_id: i32, id: i32) -> (l: Lookup)
        ensures
            l == (Lookup { id, scope: Scope::Own { user_id } }),
    {
        Lookup::own(user_id, id)
    }

    /// What a store is asked to list the procurements of `user_id` that meet
    /// `params`.
    pub fn listing(user_id: i32, params: &ListQueryParams) -> (l: Listing)
        ensures
            l.is_for::<ProcurementRecord>(Scope::Own { user_id }, *params),
    {
        Listing::new::<ProcurementRecord>(Scope::Own { user_id }, params)
    }

    /// Adds a procurement that belongs to `user_id`, and its items with it.
    /// Fails with `ForeignKey` where there is no such user and with
    /// `Exhausted` where the ids do not suffice for the record and all its
    /// items; the store is then unchanged.
    pub fn create(db: &mut Database, user_id: i32, params: CreateProcurementParams) -> (r: Result<
        Procurement,
        StoreError,
    >)
        requires
            old(db).wf(),
        ensures
            final(db).wf(),
            (final(db)@, procurement_outcome(r)) == old(db)@.create_procurement(user_id, params),
    {
        proof {
            lemma_create_procurement_wf(db@, user_id, params);
        }
        if position(&db.users, user_id).is_none() {
            return Err(StoreError::ForeignKey);
        }
        if db.last_procurement == i32::MAX || params.items.len() > (i32::MAX
            - db.last_procurement_item) as usize {
            return Err(StoreError::Exhausted);
        }
        let record = ProcurementRecord {
            id: db.last_procurement + 1,
            description: params.description,
            create_at: db.clock,
            user_id,
        };
        let (mut kept, given) = make_items(&params.items, record.id, db.last_procurement_item);
        db.procurements.push(record.clone());
        db.last_procurement = record.id;
        db.last_procurement_item = db.last_procurement_item + kept.len() as i32;
        db.procurement_items.append(&mut kept);
        Ok(Procurement { procurement: record, items: given })
    }

    /// The procurement `id` with its items, if it belongs to `user_id`;
    /// `NotFound` otherwise, whether there is no such procurement or it is
    /// another user's.
    pub fn find_by_id(db: &Database, user_id: i32, id: i32) -> (r: Result<Procurement, StoreError>)
        requires
            db.wf(),
        ensures
            procurement_outcome(r) == db@.find_procurement(user_id, id),
    {
        match position(&db.procurements, id) {
            Some(i) => {
                if db.procurements[i].user_id == user_id {
                    Ok(Procurement {
                        procurement: db.procurements[i].clone(),
                        items: items_of(db, id),
                    })
                } else {
                    Err(StoreError::NotFound)
                }
            },
            None => Err(StoreError::NotFound),
        }
    }

    /// Deletes the procurement `id` of `user_id` with its items and returns
    /// it as it was; `NotFound` as for `find_by_id`, and the store is then
    /// unchanged.
    pub fn delete(db: &mut Database, user_id: i32, id: i32) -> (r: Result<Procurement, StoreError>)
        requires
            old(db).wf(),
        ensures
            final(db).wf(),
            (final(db)@, procurement_outcome(r)) == old(db)@.delete_procurement(user_id, id),
    {
        proof {
            lemma_delete_procurement_wf(db@, user_id, id);
        }
        match position(&db.procurements, id) {
            Some(i) => {
                if db.procurements[i].user_id != user_id {
                    return Err(StoreError::NotFound);
                }
                let items = items_of(db, id);
                let gone: Vec<i32> = vec![id];
                assert(gone@ =~= seq![id]);
                let left = survivors(&db.procurement_items, &gone);
                db.procurement_items = left;
                let record = db.procurements.remove(i);
                Ok(Procurement { procurement: record, items })
            },
            None => Err(StoreError::NotFound),
        }
    }

    /// Updates the procurement `id` of `user_id` and returns it as it then
    /// is, with its items; `NotFound` as for `find_by_id`, and the store is
    /// then unchanged.
    pub fn update(db: &mut Database, user_id: i32, id: i32, params: UpdateProcurementParams) -> (r:
        Result<Procurement, StoreError>)
        requires
            old(db).wf(),
        ensures
            final(db).wf(),
            (final(db)@, procurement_outcome(r)) == old(db)@.update_procurement(user_id, id, params),
    {
        proof {
            lemma_update_procurement_wf(db@, user_id, id, params);
        }
        match position(&db.procurements, id) {
            Some(i) => {
                if db.procurements[i].user_id != user_id {
                    return Err(StoreError::NotFound);
                }
                let record = params.apply(db.procurements[i].clone());
                let items = items_of(db, id);
                db.procurements.set(i, record.clone());
                Ok(Procurement { procurement: record, items })
            },
            None => Err(StoreError::NotFound),
        }
    }

    /// Lists the procurements of `user_id` that meet `params`, newest first:
    /// the number of them all, and the asked page, each with its items.
    pub fn find_by_user_id(db: &Database, user_id: i32, params: ListQueryParams) -> (r: Result<
        ListResult<Procurement>,
        StoreError,
    >)
        requires
            db.wf(),
        ensures
            r matches Ok(l) && (l.total as nat, procurement_views(l.data@))
                == db@.list_procurements(user_id, params),
            r matches Ok(l) ==> {
                &&& l.data@.len() == page_len(
                    l.total as nat,
                    page_or_default(params.page),
                    page_size_or_default(params.page_size),
                )
                &&& newest_first(procurement_records(l.data@))
                &&& forall|k: int|
                    0 <= k < l.data@.len() ==> db@.owns_procurement(
                        user_id,
                        (#[trigger] l.data@[k]).procurement.id,
                    )
            },
    {
        let scope: Vec<i32> = vec![user_id];
        assert(scope@ =~= seq![user_id]);
        let (total, page) = list_page(&db.procurements, scope, &params);
        let mut data: Vec<Procurement> = Vec::new();
        let mut k: usize = 0;
        while k < page.len()
            invariant
                k <= page.len(),
                data@.len() == k,
                forall|j: int|
                    0 <= j < k ==> (#[trigger] data@[j])@ == (
                        page@[j],
                        db@.procurement_items_of(page@[j].id),
                    ),
            decreases page.len() - k,
        {
            let record = page[k].clone();
            let items = items_of(db, record.id);
            data.push(Procurement { procurement: record, items });
            k += 1;
        }
        assert(procurement_views(data@) =~= db@.list_procurements(user_id, params).1);
        proof {
            lemma_listing(db@.procurements, seq![user_id], params, db@.clock);
            assert(procurement_records(data@) =~= page@);
            assert forall|k: int| 0 <= k < data@.len() implies db@.owns_procurement(
                user_id,
                (#[trigger] data@[k]).procurement.id,
            ) by {
                let row = page@[k];
                assert(data@[k]@.0 == row);
                assert(admits::<ProcurementRecord>(criteria_of::<ProcurementRecord>(seq![user_id], params))(row));
                assert(db@.procurements.contains(row));
                let w = choose|w: int|
                    0 <= w < db@.procurements.len() && db@.procurements[w] == row;
                lemma_index_of(db@.procurements, w);
                let j = choose|j: int| 0 <= j < 1 && seq![user_id][j] == row.user_id;
            }
        }
        Ok(ListResult { total, data })
    }
}

} // verus!
