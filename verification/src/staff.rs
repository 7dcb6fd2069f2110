//! Staff: owned by a user, owners of production batches.

use crate::database::{Database, DbState};
use crate::entity::{
    apply_patch, apply_replace, patched, replaced, Patch, ProductionItem, ProductionRecord, Staff,
};
use crate::error::StoreError;
use crate::production::lemma_salaries_after_owners_left;
use crate::plan::{Listing, Lookup, Scope};
use crate::query::{page_len, page_or_default, page_size_or_default, ListQueryParams, ListResult};
use crate::table::{
    admits, criteria_of, has_id, index_of, lemma_cascade, lemma_index_of, lemma_listing,
    lemma_push_child, lemma_push_parent, lemma_push_row, lemma_push_stamp, lemma_remove_child,
    lemma_remove_row, lemma_remove_stamp, lemma_select_ids, lemma_select_stamps, lemma_split,
    lemma_update_child, lemma_update_parent, lemma_update_row, lemma_update_stamp, list_page,
    listing, newest_first, not_child_of, position, row_with, scope_ids, scope_of, select, survivors,
};
use vstd::prelude::*;

verus! {

/// The repository of staff.
pub struct StaffService;

/// The columns of a new staff member.
#[derive(Debug)]
pub struct CreateStaffParams {
    pub name: String,
    pub phone_number: String,
    pub description: Option<String>,
}

/// What an update changes of a staff member. A column that is not named keeps its
/// value.
#[derive(Debug)]
pub struct UpdateStaffParams {
    pub name: Option<String>,
    pub phone_number: Option<String>,
    pub description: Patch<String>,
}

/// The staff member `old` after the update `p`: named columns take the new value,
/// the others keep theirs; id, owner and creation time never change.
pub open spec fn updated_staff(old: Staff, p: UpdateStaffParams) -> Staff {
    Staff {
        name: replaced(old.name, p.name),
        phone_number: replaced(old.phone_number, p.phone_number),
        description: patched(old.description, p.description),
        ..old
    }
}

impl DbState {
    /// The staff member that `create_staff` adds.
    pub open spec fn new_staff(self, user_id: i32, p: CreateStaffParams) -> Staff {
        Staff {
            id: (self.last_staff + 1) as i32,
            name: p.name,
            phone_number: p.phone_number,
            description: p.description,
            create_at: self.clock,
            user_id,
        }
    }

    /// Creating a staff member for `user_id`: the state after it and what is
    /// returned.
    pub open spec fn create_staff(self, user_id: i32, p: CreateStaffParams) -> (
        DbState,
        Result<Staff, StoreError>,
    ) {
        if !has_id(self.users, user_id) {
            (self, Err(StoreError::ForeignKey))
        } else if self.last_staff == i32::MAX {
            (self, Err(StoreError::Exhausted))
        } else {
            let staff = self.new_staff(user_id, p);
            (DbState { staffs: self.staffs.push(staff), last_staff: staff.id, ..self }, Ok(staff))
        }
    }

    /// There is a staff member `id` and it belongs to `user_id`.
    pub open spec fn owns_staff(self, user_id: i32, id: i32) -> bool {
        has_id(self.staffs, id) && row_with(self.staffs, id).user_id == user_id
    }

    /// What `user_id` finds under the staff id `id`.
    pub open spec fn find_staff(self, user_id: i32, id: i32) -> Result<Staff, StoreError> {
        if self.owns_staff(user_id, id) {
            Ok(row_with(self.staffs, id))
        } else {
            Err(StoreError::NotFound)
        }
    }

    /// Updating staff member `id` as `user_id`: the state after it and what is
    /// returned.
    pub open spec fn update_staff(self, user_id: i32, id: i32, p: UpdateStaffParams) -> (
        DbState,
        Result<Staff, StoreError>,
    ) {
        if self.owns_staff(user_id, id) {
            let staff = updated_staff(row_with(self.staffs, id), p);
            (
                DbState { staffs: self.staffs.update(index_of(self.staffs, id), staff), ..self },
                Ok(staff),
            )
        } else {
            (self, Err(StoreError::NotFound))
        }
    }

    /// Deleting staff member `id` as `user_id`: the staff member leaves,
    /// with its production batches and their items.
    pub open spec fn delete_staff(self, user_id: i32, id: i32) -> (
        DbState,
        Result<Staff, StoreError>,
    ) {
        if self.owns_staff(user_id, id) {
            (
                DbState {
                    staffs: self.staffs.remove(index_of(self.staffs, id)),
                    productions: select(
                        self.productions,
                        not_child_of::<ProductionRecord>(seq![id]),
                    ),
                    production_items: select(
                        self.production_items,
                        not_child_of::<ProductionItem>(scope_of(self.productions, seq![id])),
                    ),
                    ..self
                },
                Ok(row_with(self.staffs, id)),
            )
        } else {
            (self, Err(StoreError::NotFound))
        }
    }

    /// What `user_id` sees of the staff when asking for `q`: how many meet
    /// the criteria, and the asked page of them.
    pub open spec fn list_staffs(self, user_id: i32, q: ListQueryParams) -> (nat, Seq<Staff>) {
        listing(self.staffs, seq![user_id], q)
    }
}

/// Creating a staff member keeps the rules of the store.
pub proof fn lemma_create_staff_wf(s: DbState, user_id: i32, p: CreateStaffParams)
    requires
        s.wf(),
    ensures
        s.create_staff(user_id, p).0.wf(),
{
    if has_id(s.users, user_id) && s.last_staff < i32::MAX {
        let staff = s.new_staff(user_id, p);
        lemma_push_row(s.staffs, s.last_staff, staff);
        lemma_push_stamp(s.staffs, s.clock, staff);
        lemma_push_child(s.staffs, s.users, staff);
        lemma_push_parent(s.productions, s.staffs, staff);
    }
}

/// Updating a staff member keeps the rules of the store.
pub proof fn lemma_update_staff_wf(s: DbState, user_id: i32, id: i32, p: UpdateStaffParams)
    requires
        s.wf(),
    ensures
        s.update_staff(user_id, id, p).0.wf(),
{
    if s.owns_staff(user_id, id) {
        let i = index_of(s.staffs, id);
        let staff = updated_staff(s.staffs[i], p);
        lemma_update_row(s.staffs, s.last_staff, i, staff);
        lemma_update_stamp(s.staffs, s.clock, i, staff);
        lemma_update_child(s.staffs, s.users, i, staff);
        lemma_update_parent(s.productions, s.staffs, i, staff);
    }
}

/// Deleting a staff member keeps the rules of the store: no production
/// batch is left without its staff member, no item without its batch.
pub proof fn lemma_delete_staff_wf(s: DbState, user_id: i32, id: i32)
    requires
        s.wf(),
    ensures
        s.delete_staff(user_id, id).0.wf(),
{
    if s.owns_staff(user_id, id) {
        let i = index_of(s.staffs, id);
        let gone = seq![id];
        let batches = scope_of(s.productions, gone);
        let keep = not_child_of::<ProductionRecord>(gone);
        let keep_items = not_child_of::<ProductionItem>(batches);
        lemma_remove_row(s.staffs, s.last_staff, i);
        lemma_remove_stamp(s.staffs, s.clock, i);
        lemma_remove_child(s.staffs, s.users, i);
        lemma_select_ids(s.productions, keep, s.last_production);
        lemma_select_stamps(s.productions, keep, s.clock);
        assert(gone[0] == id);
        lemma_cascade(s.productions, s.staffs, s.staffs.remove(i), gone);
        lemma_select_ids(s.production_items, keep_items, s.last_production_item);
        lemma_split(s.productions, gone);
        lemma_cascade(s.production_items, s.productions, select(s.productions, keep), batches);
        lemma_salaries_after_owners_left(s.productions, s.production_items, gone);
    }
}

impl UpdateStaffParams {
    /// Applies the update to `old`.
    pub fn apply(self, old: Staff) -> (new: Staff)
        ensures
            new == updated_staff(old, self),
    {
        Staff {
            id: old.id,
            name: apply_replace(old.name, self.name),
            phone_number: apply_replace(old.phone_number, self.phone_number),
            description: apply_patch(old.description, self.description),
            create_at: old.create_at,
            user_id: old.user_id,
        }
    }
}

impl StaffService {
    /// What a store is asked to find the staff member `id` for `user_id`.
    pub fn lookup(user_id: i32, id: i32) -> (l: Lookup)
        ensures
            l == (Lookup { id, scope: Scope::Own { user_id } }),
    {
        Lookup::own(user_id, id)
    }

    /// What a store is asked to list the staff of `user_id` that meet
    /// `params`.
    pub fn listing(user_id: i32, params: &ListQueryParams) -> (l: Listing)
        ensures
            l.is_for::<Staff>(Scope::Own { user_id }, *params),
    {
        Listing::new::<Staff>(Scope::Own { user_id }, params)
    }

    /// Adds a staff member that belongs to `user_id`, with the next id and
    /// the clock's time. Fails with `ForeignKey` where there is no such user and
    /// with `Exhausted` where no id is left; the store is then unchanged.
    pub fn create(db: &mut Database, user_id: i32, params: CreateStaffParams) -> (r: Result<
        Staff,
        StoreError,
    >)
        requires
            old(db).wf(),
        ensures
            final(db).wf(),
            (final(db)@, r) == old(db)@.create_staff(user_id, params),
    {
        proof {
            lemma_create_staff_wf(db@, user_id, params);
        }
        if position(&db.users, user_id).is_none() {
            return Err(StoreError::ForeignKey);
        }
        if db.last_staff == i32::MAX {
            return Err(StoreError::Exhausted);
        }
        let staff = Staff {
            id: db.last_staff + 1,
            name: params.name,
            phone_number: params.phone_number,
            description: params.description,
            create_at: db.clock,
            user_id,
        };
        db.staffs.push(staff.clone());
        db.last_staff = staff.id;
        Ok(staff)
    }

    /// The staff member `id`, if it belongs to `user_id`; `NotFound`
    /// otherwise, whether there is none with this id or it is another user's.
    pub fn find_by_id(db: &Database, user_id: i32, id: i32) -> (r: Result<Staff, StoreError>)
        requires
            db.wf(),
        ensures
            r == db@.find_staff(user_id, id),
    {
        match position(&db.staffs, id) {
            Some(i) => {
                if db.staffs[i].user_id == user_id {
                    Ok(db.staffs[i].clone())
                } else {
                    Err(StoreError::NotFound)
                }
            },
            None => Err(StoreError::NotFound),
        }
    }

    /// Updates the staff member `id` of `user_id` and returns it as it then
    /// is; `NotFound` as for `find_by_id`, and the store is then unchanged.
    pub fn update(db: &mut Database, user_id: i32, id: i32, params: UpdateStaffParams) -> (r:
        Result<Staff, StoreError>)
        requires
            old(db).wf(),
        ensures
            final(db).wf(),
            (final(db)@, r) == old(db)@.update_staff(user_id, id, params),
    {
        proof {
            lemma_update_staff_wf(db@, user_id, id, params);
        }
        match position(&db.staffs, id) {
            Some(i) => {
                if db.staffs[i].user_id != user_id {
                    return Err(StoreError::NotFound);
                }
                let staff = params.apply(db.staffs[i].clone());
                db.staffs.set(i, staff.clone());
                Ok(staff)
            },
            None => Err(StoreError::NotFound),
        }
    }

    /// Deletes the staff member `id` of `user_id` with all its production
    /// batches and returns the staff member as it was; `NotFound` as for
    /// `find_by_id`, and the store is then unchanged.
    pub fn delete(db: &mut Database, user_id: i32, id: i32) -> (r: Result<Staff, StoreError>)
        requires
            old(db).wf(),
        ensures
            final(db).wf(),
            (final(db)@, r) == old(db)@.delete_staff(user_id, id),
    {
        proof {
            lemma_delete_staff_wf(db@, user_id, id);
        }
        match position(&db.staffs, id) {
            Some(i) => {
                if db.staffs[i].user_id != user_id {
                    return Err(StoreError::NotFound);
                }
                let gone: Vec<i32> = vec![id];
                assert(gone@ =~= seq![id]);
                let batches = scope_ids(&db.productions, &gone);
                let items = survivors(&db.production_items, &batches);
                let productions = survivors(&db.productions, &gone);
                db.production_items = items;
                db.productions = productions;
                let staff = db.staffs.remove(i);
                Ok(staff)
            },
            None => Err(StoreError::NotFound),
        }
    }

    /// Lists the staff of `user_id` that meet `params`, newest first: the
    /// number of them all, and the asked page.
    pub fn find_by_user_id(db: &Database, user_id: i32, params: ListQueryParams) -> (r: Result<
        ListResult<Staff>,
        StoreError,
    >)
        requires
            db.wf(),
        ensures
            r matches Ok(l) && (l.total as nat, l.data@) == db@.list_staffs(user_id, params),
            r matches Ok(l) ==> {
                &&& l.data@.len() == page_len(
                    l.total as nat,
                    page_or_default(params.page),
                    page_size_or_default(params.page_size),
                )
                &&& newest_first(l.data@)
                &&& forall|k: int|
                    0 <= k < l.data@.len() ==> db@.owns_staff(user_id, (#[trigger] l.data@[k]).id)
            },
    {
        let scope: Vec<i32> = vec![user_id];
        assert(scope@ =~= seq![user_id]);
        let (total, data) = list_page(&db.staffs, scope, &params);
        proof {
            lemma_listing(db@.staffs, seq![user_id], params, db@.clock);
            assert forall|k: int| 0 <= k < data@.len() implies db@.owns_staff(
                user_id,
                (#[trigger] data@[k]).id,
            ) by {
                let row = data@[k];
                assert(admits::<Staff>(criteria_of::<Staff>(seq![user_id], params))(row));
                assert(db@.staffs.contains(row));
                let w = choose|w: int| 0 <= w < db@.staffs.len() && db@.staffs[w] == row;
                lemma_index_of(db@.staffs, w);
                let j = choose|j: int| 0 <= j < 1 && seq![user_id][j] == row.user_id;
            }
        }
        Ok(ListResult { total, data })
    }
}

} // verus!
