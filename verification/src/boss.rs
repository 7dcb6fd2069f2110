//! Bosses: owned by a user, owners of clothing.

use crate::database::{Database, DbState};
use crate::entity::{apply_patch, apply_replace, patched, replaced, Boss, Clothing, Patch};
use crate::error::StoreError;
use crate::plan::{Listing, Lookup, Scope};
use crate::query::{page_len, page_or_default, page_size_or_default, ListQueryParams, ListResult};
use crate::table::{
    admits, criteria_of, has_id, index_of, lemma_cascade, lemma_index_of, lemma_listing,
    lemma_push_child, lemma_push_parent, lemma_push_row, lemma_push_stamp, lemma_remove_child,
    lemma_remove_row, lemma_remove_stamp, lemma_select_ids, lemma_select_stamps, lemma_update_child,
    lemma_update_parent, lemma_update_row, lemma_update_stamp, list_page, listing, newest_first,
    not_child_of, position, row_with, select, survivors,
};
use vstd::prelude::*;

verus! {

/// The repository of bosses.
pub struct BossService;

/// The columns of a new boss.
#[derive(Debug)]
pub struct CreateBossParams {
    pub name: String,
    pub phone_number: String,
    pub description: Option<String>,
    pub address: Option<String>,
}

/// What an update changes of a boss. A column that is not named keeps its
/// value.
#[derive(Debug)]
pub struct UpdateBossParams {
    pub name: Option<String>,
    pub phone_number: Option<String>,
    pub description: Patch<String>,
    pub address: Patch<String>,
}

/// The boss `old` after the update `p`: named columns take the new value,
/// the others keep theirs; id, owner and creation time never change.
pub open spec fn updated_boss(old: Boss, p: UpdateBossParams) -> Boss {
    Boss {
        name: replaced(old.name, p.name),
        phone_number: replaced(old.phone_number, p.phone_number),
        description: patched(old.description, p.description),
        address: patched(old.address, p.address),
        ..old
    }
}

impl DbState {
    /// The boss that `create_boss` adds.
    pub open spec fn new_boss(self, user_id: i32, p: CreateBossParams) -> Boss {
        Boss {
            id: (self.last_boss + 1) as i32,
            name: p.name,
            phone_number: p.phone_number,
            description: p.description,
            address: p.address,
            create_at: self.clock,
            user_id,
        }
    }

    /// Creating a boss for `user_id`: the state after it and what is returned.
    pub open spec fn create_boss(self, user_id: i32, p: CreateBossParams) -> (
        DbState,
        Result<Boss, StoreError>,
    ) {
        if !has_id(self.users, user_id) {
            (self, Err(StoreError::ForeignKey))
        } else if self.last_boss == i32::MAX {
            (self, Err(StoreError::Exhausted))
        } else {
            let boss = self.new_boss(user_id, p);
            (DbState { bosses: self.bosses.push(boss), last_boss: boss.id, ..self }, Ok(boss))
        }
    }

    /// There is a boss `id` and it belongs to `user_id`.
    pub open spec fn owns_boss(self, user_id: i32, id: i32) -> bool {
        has_id(self.bosses, id) && row_with(self.bosses, id).user_id == user_id
    }

    /// What `user_id` finds under the boss id `id`.
    pub open spec fn find_boss(self, user_id: i32, id: i32) -> Result<Boss, StoreError> {
        if self.owns_boss(user_id, id) {
            Ok(row_with(self.bosses, id))
        } else {
            Err(StoreError::NotFound)
        }
    }

    /// Updating boss `id` as `user_id`: the state after it and what is returned.
    pub open spec fn update_boss(self, user_id: i32, id: i32, p: UpdateBossParams) -> (
        DbState,
        Result<Boss, StoreError>,
    ) {
        if self.owns_boss(user_id, id) {
            let boss = updated_boss(row_with(self.bosses, id), p);
            (
                DbState { bosses: self.bosses.update(index_of(self.bosses, id), boss), ..self },
                Ok(boss),
            )
        } else {
            (self, Err(StoreError::NotFound))
        }
    }

    /// Deleting boss `id` as `user_id`: the boss leaves, and its clothing
    /// with it.
    pub open spec fn delete_boss(self, user_id: i32, id: i32) -> (
        DbState,
        Result<Boss, StoreError>,
    ) {
        if self.owns_boss(user_id, id) {
            (
                DbState {
                    bosses: self.bosses.remove(index_of(self.bosses, id)),
                    clothings: select(self.clothings, not_child_of::<Clothing>(seq![id])),
                    ..self
                },
                Ok(row_with(self.bosses, id)),
            )
        } else {
            (self, Err(StoreError::NotFound))
        }
    }

    /// What `user_id` sees of the bosses when asking for `q`: how many meet
    /// the criteria, and the asked page of them.
    pub open spec fn list_bosses(self, user_id: i32, q: ListQueryParams) -> (nat, Seq<Boss>) {
        listing(self.bosses, seq![user_id], q)
    }
}

/// Creating a boss keeps the rules of the store.
pub proof fn lemma_create_boss_wf(s: DbState, user_id: i32, p: CreateBossParams)
    requires
        s.wf(),
    ensures
        s.create_boss(user_id, p).0.wf(),
{
    if has_id(s.users, user_id) && s.last_boss < i32::MAX {
        let boss = s.new_boss(user_id, p);
        lemma_push_row(s.bosses, s.last_boss, boss);
        lemma_push_stamp(s.bosses, s.clock, boss);
        lemma_push_child(s.bosses, s.users, boss);
        lemma_push_parent(s.clothings, s.bosses, boss);
    }
}

/// Updating a boss keeps the rules of the store.
pub proof fn lemma_update_boss_wf(s: DbState, user_id: i32, id: i32, p: UpdateBossParams)
    requires
        s.wf(),
    ensures
        s.update_boss(user_id, id, p).0.wf(),
{
    if s.owns_boss(user_id, id) {
        let i = index_of(s.bosses, id);
        let boss = updated_boss(s.bosses[i], p);
        lemma_update_row(s.bosses, s.last_boss, i, boss);
        lemma_update_stamp(s.bosses, s.clock, i, boss);
        lemma_update_child(s.bosses, s.users, i, boss);
        lemma_update_parent(s.clothings, s.bosses, i, boss);
    }
}

/// Deleting a boss keeps the rules of the store: no clothing is left
/// without its boss.
pub proof fn lemma_delete_boss_wf(s: DbState, user_id: i32, id: i32)
    requires
        s.wf(),
    ensures
        s.delete_boss(user_id, id).0.wf(),
{
    if s.owns_boss(user_id, id) {
        let i = index_of(s.bosses, id);
        let gone = seq![id];
        let keep = not_child_of::<Clothing>(gone);
        lemma_remove_row(s.bosses, s.last_boss, i);
        lemma_remove_stamp(s.bosses, s.clock, i);
        lemma_remove_child(s.bosses, s.users, i);
        lemma_select_ids(s.clothings, keep, s.last_clothing);
        lemma_select_stamps(s.clothings, keep, s.clock);
        assert(gone[0] == id);
        lemma_cascade(s.clothings, s.bosses, s.bosses.remove(i), gone);
    }
}

impl UpdateBossParams {
    /// Applies the update to `old`.
    pub fn apply(self, old: Boss) -> (new: Boss)
        ensures
            new == updated_boss(old, self),
    {
        Boss {
            id: old.id,
            name: apply_replace(old.name, self.name),
            phone_number: apply_replace(old.phone_number, self.phone_number),
            description: apply_patch(old.description, self.description),
            address: apply_patch(old.address, self.address),
            create_at: old.create_at,
            user_id: old.user_id,
        }
    }
}

impl BossService {
    /// What a store is asked to find the boss `id` for `user_id`.
    pub fn lookup(user_id: i32, id: i32) -> (l: Lookup)
        ensures
            l == (Lookup { id, scope: Scope::Own { user_id } }),
    {
        Lookup::own(user_id, id)
    }

    /// What a store is asked to list the bosses of `user_id` that meet
    /// `params`.
    pub fn listing(user_id: i32, params: &ListQueryParams) -> (l: Listing)
        ensures
            l.is_for::<Boss>(Scope::Own { user_id }, *params),
    {
        Listing::new::<Boss>(Scope::Own { user_id }, params)
    }

    /// Adds a boss that belongs to `user_id`, with the next id and the
    /// clock's time. Fails with `ForeignKey` where there is no such user and
    /// with `Exhausted` where no id is left; the store is then unchanged.
    pub fn create(db: &mut Database, user_id: i32, params: CreateBossParams) -> (r: Result<
        Boss,
        StoreError,
    >)
        requires
            old(db).wf(),
        ensures
            final(db).wf(),
            (final(db)@, r) == old(db)@.create_boss(user_id, params),
    {
        proof {
            lemma_create_boss_wf(db@, user_id, params);
        }
        if position(&db.users, user_id).is_none() {
            return Err(StoreError::ForeignKey);
        }
        if db.last_boss == i32::MAX {
            return Err(StoreError::Exhausted);
        }
        let boss = Boss {
            id: db.last_boss + 1,
            name: params.name,
            phone_number: params.phone_number,
            description: params.description,
            address: params.address,
            create_at: db.clock,
            user_id,
        };
        db.bosses.push(boss.clone());
        db.last_boss = boss.id;
        Ok(boss)
    }

    /// The boss `id`, if it belongs to `user_id`; `NotFound` otherwise,
    /// whether there is no such boss or it is another user's.
    pub fn find_by_id(db: &Database, user_id: i32, id: i32) -> (r: Result<Boss, StoreError>)
        requires
            db.wf(),
        ensures
            r == db@.find_boss(user_id, id),
    {
        match position(&db.bosses, id) {
            Some(i) => {
                if db.bosses[i].user_id == user_id {
                    Ok(db.bosses[i].clone())
                } else {
                    Err(StoreError::NotFound)
                }
            },
            None => Err(StoreError::NotFound),
        }
    }

    /// Updates the boss `id` of `user_id` and returns it as it then is;
    /// `NotFound` as for `find_by_id`, and the store is then unchanged.
    pub fn update(db: &mut Database, user_id: i32, id: i32, params: UpdateBossParams) -> (r:
        Result<Boss, StoreError>)
        requires
            old(db).wf(),
        ensures
            final(db).wf(),
            (final(db)@, r) == old(db)@.update_boss(user_id, id, params),
    {
        proof {
            lemma_update_boss_wf(db@, user_id, id, params);
        }
        match position(&db.bosses, id) {
            Some(i) => {
                if db.bosses[i].user_id != user_id {
                    return Err(StoreError::NotFound);
                }
                let boss = params.apply(db.bosses[i].clone());
                db.bosses.set(i, boss.clone());
                Ok(boss)
            },
            None => Err(StoreError::NotFound),
        }
    }

    /// Deletes the boss `id` of `user_id` with all its clothing and returns
    /// the boss as it was; `NotFound` as for `find_by_id`, and the store is
    /// then unchanged.
    pub fn delete(db: &mut Database, user_id: i32, id: i32) -> (r: Result<Boss, StoreError>)
        requires
            old(db).wf(),
        ensures
            final(db).wf(),
            (final(db)@, r) == old(db)@.delete_boss(user_id, id),
    {
        proof {
            lemma_delete_boss_wf(db@, user_id, id);
        }
        match position(&db.bosses, id) {
            Some(i) => {
                if db.bosses[i].user_id != user_id {
                    return Err(StoreError::NotFound);
                }
                let gone: Vec<i32> = vec![id];
                assert(gone@ =~= seq![id]);
                let clothings = survivors(&db.clothings, &gone);
                db.clothings = clothings;
                let boss = db.bosses.remove(i);
                Ok(boss)
            },
            None => Err(StoreError::NotFound),
        }
    }

    /// Lists the bosses of `user_id` that meet `params`, newest first: the
    /// number of them all, and the asked page.
    pub fn find_by_user_id(db: &Database, user_id: i32, params: ListQueryParams) -> (r: Result<
        ListResult<Boss>,
        StoreError,
    >)
        requires
            db.wf(),
        ensures
            r matches Ok(l) && (l.total as nat, l.data@) == db@.list_bosses(user_id, params),
            r matches Ok(l) ==> {
                &&& l.data@.len() == page_len(
                    l.total as nat,
                    page_or_default(params.page),
                    page_size_or_default(params.page_size),
                )
                &&& newest_first(l.data@)
                &&& forall|k: int|
                    0 <= k < l.data@.len() ==> db@.owns_boss(user_id, (#[trigger] l.data@[k]).id)
            },
    {
        let scope: Vec<i32> = vec![user_id];
        assert(scope@ =~= seq![user_id]);
        let (total, data) = list_page(&db.bosses, scope, &params);
        proof {
            lemma_listing(db@.bosses, seq![user_id], params, db@.clock);
            assert forall|k: int| 0 <= k < data@.len() implies db@.owns_boss(
                user_id,
                (#[trigger] data@[k]).id,
            ) by {
                let row = data@[k];
                assert(admits::<Boss>(criteria_of::<Boss>(seq![user_id], params))(row));
                assert(db@.bosses.contains(row));
                let w = choose|w: int| 0 <= w < db@.bosses.len() && db@.bosses[w] == row;
                lemma_index_of(db@.bosses, w);
                let j = choose|j: int| 0 <= j < 1 && seq![user_id][j] == row.user_id;
            }
        }
        Ok(ListResult { total, data })
    }
}

} // verus!
