//! Clothing: owned by a boss, and through the boss by a user.

use crate::boss::BossService;
use crate::database::{Database, DbState};
use crate::entity::{apply_patch, apply_replace, patched, replaced, Clothing, Patch};
use crate::error::StoreError;
use crate::plan::{Listing, Lookup, Scope};
use crate::query::{page_len, page_or_default, page_size_or_default, ListQueryParams, ListResult};
use crate::table::{
    admits, criteria_of, has_id, index_of, lemma_index_of, lemma_listing, lemma_push_child,
    lemma_push_row, lemma_push_stamp, lemma_remove_child, lemma_remove_row, lemma_remove_stamp,
    lemma_scope_of, lemma_select, lemma_update_child, lemma_update_row, lemma_update_stamp,
    list_page, listing, newest_first, position, restrict_ids, row_with, scope_ids, scope_of, select,
    wanted_id, wanted_ids,
};
use vstd::prelude::*;

verus! {

/// The repository of clothing.
pub struct ClothingService;

/// The columns of a new clothing article.
#[derive(Debug)]
pub struct CreateClothingParams {
    pub boss_id: i32,
    pub name: String,
    pub price: u32,
    pub description: Option<String>,
    pub image: Option<String>,
}

/// What an update changes of a clothing article. A column that is not named
/// keeps its value; the price cannot be changed.
#[derive(Debug)]
pub struct UpdateClothingParams {
    pub name: Option<String>,
    pub description: Patch<String>,
    pub image: Patch<String>,
}

/// What a listing of clothing can be asked for.
#[derive(Debug)]
pub struct ClothingListQueryParams {
    /// Keep the clothing of these bosses only.
    pub boss_ids: Option<Vec<i32>>,
    pub list_query: ListQueryParams,
}

/// The article `old` after the update `p`: named columns take the new value,
/// the others keep theirs; id, boss, price and creation time never change.
pub open spec fn updated_clothing(old: Clothing, p: UpdateClothingParams) -> Clothing {
    Clothing {
        name: replaced(old.name, p.name),
        description: patched(old.description, p.description),
        image: patched(old.image, p.image),
        ..old
    }
}

impl DbState {
    /// The article that `create_clothing` adds.
    pub open spec fn new_clothing(self, p: CreateClothingParams) -> Clothing {
        Clothing {
            id: (self.last_clothing + 1) as i32,
            name: p.name,
            description: p.description,
            price: p.price,
            image: p.image,
            create_at: self.clock,
            boss_id: p.boss_id,
        }
    }

    /// Creating an article as `user_id`: the state after it and what is
    /// returned.
    pub open spec fn create_clothing(self, user_id: i32, p: CreateClothingParams) -> (
        DbState,
        Result<Clothing, StoreError>,
    ) {
        if !self.owns_boss(user_id, p.boss_id) {
            (self, Err(StoreError::NotFound))
        } else if self.last_clothing == i32::MAX {
            (self, Err(StoreError::Exhausted))
        } else {
            let clothing = self.new_clothing(p);
            (
                DbState {
                    clothings: self.clothings.push(clothing),
                    last_clothing: clothing.id,
                    ..self
                },
                Ok(clothing),
            )
        }
    }

    /// There is an article `id` and its boss belongs to `user_id`.
    pub open spec fn owns_clothing(self, user_id: i32, id: i32) -> bool {
        has_id(self.clothings, id) && self.owns_boss(user_id, row_with(self.clothings, id).boss_id)
    }

    /// What `user_id` finds under the clothing id `id`.
    pub open spec fn find_clothing(self, user_id: i32, id: i32) -> Result<Clothing, StoreError> {
        if self.owns_clothing(user_id, id) {
            Ok(row_with(self.clothings, id))
        } else {
            Err(StoreError::NotFound)
        }
    }

    /// Updating article `id` as `user_id`: the state after it and what is
    /// returned.
    pub open spec fn update_clothing(self, user_id: i32, id: i32, p: UpdateClothingParams) -> (
        DbState,
        Result<Clothing, StoreError>,
    ) {
        if self.owns_clothing(user_id, id) {
            let clothing = updated_clothing(row_with(self.clothings, id), p);
            (
                DbState {
                    clothings: self.clothings.update(index_of(self.clothings, id), clothing),
                    ..self
                },
                Ok(clothing),
            )
        } else {
            (self, Err(StoreError::NotFound))
        }
    }

    /// Deleting article `id` as `user_id`: the state after it and what is
    /// returned.
    pub open spec fn delete_clothing(self, user_id: i32, id: i32) -> (
        DbState,
        Result<Clothing, StoreError>,
    ) {
        if self.owns_clothing(user_id, id) {
            (
                DbState {
                    clothings: self.clothings.remove(index_of(self.clothings, id)),
                    ..self
                },
                Ok(row_with(self.clothings, id)),
            )
        } else {
            (self, Err(StoreError::NotFound))
        }
    }

    /// The bosses whose clothing `user_id` is shown: the user's own, and of
    /// them those that `boss_ids` names where it is given.
    pub open spec fn clothing_scope(self, user_id: i32, boss_ids: Option<Seq<i32>>) -> Seq<i32> {
        select(scope_of(self.bosses, seq![user_id]), wanted_id(boss_ids))
    }

    /// What `user_id` sees of the clothing when asking for `q`, of the bosses
    /// that `boss_ids` names: how many meet the criteria, and the asked page
    /// of them.
    pub open spec fn list_clothings(
        self,
        user_id: i32,
        q: ListQueryParams,
        boss_ids: Option<Seq<i32>>,
    ) -> (nat, Seq<Clothing>) {
        listing(self.clothings, self.clothing_scope(user_id, boss_ids), q)
    }
}

/// Creating an article keeps the rules of the store.
pub proof fn lemma_create_clothing_wf(s: DbState, user_id: i32, p: CreateClothingParams)
    requires
        s.wf(),
    ensures
        s.create_clothing(user_id, p).0.wf(),
{
    if s.owns_boss(user_id, p.boss_id) && s.last_clothing < i32::MAX {
        let clothing = s.new_clothing(p);
        lemma_push_row(s.clothings, s.last_clothing, clothing);
        lemma_push_stamp(s.clothings, s.clock, clothing);
        lemma_push_child(s.clothings, s.bosses, clothing);
    }
}

/// Updating an article keeps the rules of the store.
pub proof fn lemma_update_clothing_wf(s: DbState, user_id: i32, id: i32, p: UpdateClothingParams)
    requires
        s.wf(),
    ensures
        s.update_clothing(user_id, id, p).0.wf(),
{
    if s.owns_clothing(user_id, id) {
        let i = index_of(s.clothings, id);
        let clothing = updated_clothing(s.clothings[i], p);
        lemma_update_row(s.clothings, s.last_clothing, i, clothing);
        lemma_update_stamp(s.clothings, s.clock, i, clothing);
        lemma_update_child(s.clothings, s.bosses, i, clothing);
    }
}

/// Deleting an article keeps the rules of the store.
pub proof fn lemma_delete_clothing_wf(s: DbState, user_id: i32, id: i32)
    requires
        s.wf(),
    ensures
        s.delete_clothing(user_id, id).0.wf(),
{
    if s.owns_clothing(user_id, id) {
        let i = index_of(s.clothings, id);
        lemma_remove_row(s.clothings, s.last_clothing, i);
        lemma_remove_stamp(s.clothings, s.clock, i);
        lemma_remove_child(s.clothings, s.bosses, i);
    }
}

impl UpdateClothingParams {
    /// Applies the update to `old`.
    pub fn apply(self, old: Clothing) -> (new: Clothing)
        ensures
            new == updated_clothing(old, self),
    {
        Clothing {
            id: old.id,
            name: apply_replace(old.name, self.name),
            description: apply_patch(old.description, self.description),
            price: old.price,
            image: apply_patch(old.image, self.image),
            create_at: old.create_at,
            boss_id: old.boss_id,
        }
    }
}

/// The position of the article `id`, if its boss belongs to `user_id`.
fn owned_position(db: &Database, user_id: i32, id: i32) -> (at: Option<usize>)
    requires
        db.wf(),
    ensures
        at is Some <==> db@.owns_clothing(user_id, id),
        at matches Some(i) ==> i < db.clothings.len() && i == index_of(db@.clothings, id),
{
    match position(&db.clothings, id) {
        Some(i) => {
            match position(&db.bosses, db.clothings[i].boss_id) {
                Some(b) => {
                    if db.bosses[b].user_id == user_id {
                        Some(i)
                    } else {
                        None
                    }
                },
                None => None,
            }
        },
        None => None,
    }
}

impl ClothingService {
    /// What a store is asked to find the article `id` for `user_id`.
    pub fn lookup(user_id: i32, id: i32) -> (l: Lookup)
        ensures
            l == (Lookup { id, scope: Scope::Through { user_id, only: None } }),
    {
        Lookup::through(user_id, id)
    }

    /// What a store is asked before it creates an article for `user_id`: to
    /// find the boss that the article is to belong to. Where the lookup
    /// finds none, the article is not created.
    pub fn owner_lookup(user_id: i32, params: &CreateClothingParams) -> (l: Lookup)
        ensures
            l == (Lookup { id: params.boss_id, scope: Scope::Own { user_id } }),
    {
        BossService::lookup(user_id, params.boss_id)
    }

    /// What a store is asked to list the clothing of the bosses of
    /// `user_id`, or of those among them that `boss_ids` names, that meets
    /// `params`.
    pub fn listing(user_id: i32, params: &ListQueryParams, boss_ids: Option<Vec<i32>>) -> (l:
        Listing)
        ensures
            l.is_for::<Clothing>(Scope::Through { user_id, only: boss_ids }, *params),
    {
        Listing::new::<Clothing>(Scope::Through { user_id, only: boss_ids }, params)
    }

    /// Adds an article to the boss `params.boss_id`, with the next id and the
    /// clock's time. Fails with `NotFound` where that boss is not
    /// `user_id`'s and with `Exhausted` where no id is left; the store is
    /// then unchanged.
    pub fn create(db: &mut Database, user_id: i32, params: CreateClothingParams) -> (r: Result<
        Clothing,
        StoreError,
    >)
        requires
            old(db).wf(),
        ensures
            final(db).wf(),
            (final(db)@, r) == old(db)@.create_clothing(user_id, params),
    {
        proof {
            lemma_create_clothing_wf(db@, user_id, params);
        }
        if BossService::find_by_id(db, user_id, params.boss_id).is_err() {
            return Err(StoreError::NotFound);
        }
        if db.last_clothing == i32::MAX {
            return Err(StoreError::Exhausted);
        }
        let clothing = Clothing {
            id: db.last_clothing + 1,
            name: params.name,
            description: params.description,
            price: params.price,
            image: params.image,
            create_at: db.clock,
            boss_id: params.boss_id,
        };
        db.clothings.push(clothing.clone());
        db.last_clothing = clothing.id;
        Ok(clothing)
    }

    /// The article `id`, if its boss belongs to `user_id`; `NotFound`
    /// otherwise, whether there is no such article or it is another user's.
    pub fn find_by_id(db: &Database, user_id: i32, id: i32) -> (r: Result<Clothing, StoreError>)
        requires
            db.wf(),
        ensures
            r == db@.find_clothing(user_id, id),
    {
        match owned_position(db, user_id, id) {
            Some(i) => Ok(db.clothings[i].clone()),
            None => Err(StoreError::NotFound),
        }
    }

    /// Updates the article `id` of `user_id` and returns it as it then is;
    /// `NotFound` as for `find_by_id`, and the store is then unchanged.
    pub fn update(db: &mut Database, user_id: i32, id: i32, params: UpdateClothingParams) -> (r:
        Result<Clothing, StoreError>)
        requires
            old(db).wf(),
        ensures
            final(db).wf(),
            (final(db)@, r) == old(db)@.update_clothing(user_id, id, params),
    {
        proof {
            lemma_update_clothing_wf(db@, user_id, id, params);
        }
        match owned_position(db, user_id, id) {
            Some(i) => {
                let clothing = params.apply(db.clothings[i].clone());
                db.clothings.set(i, clothing.clone());
                Ok(clothing)
            },
            None => Err(StoreError::NotFound),
        }
    }

    /// Deletes the article `id` of `user_id` and returns it as it was;
    /// `NotFound` as for `find_by_id`, and the store is then unchanged.
    pub fn delete(db: &mut Database, user_id: i32, id: i32) -> (r: Result<Clothing, StoreError>)
        requires
            old(db).wf(),
        ensures
            final(db).wf(),
            (final(db)@, r) == old(db)@.delete_clothing(user_id, id),
    {
        proof {
            lemma_delete_clothing_wf(db@, user_id, id);
        }
        match owned_position(db, user_id, id) {
            Some(i) => {
                let clothing = db.clothings.remove(i);
                Ok(clothing)
            },
            None => Err(StoreError::NotFound),
        }
    }

    /// Lists the clothing of the bosses of `user_id`, or of those among them
    /// that `boss_ids` names, that meets `params`, newest first: the number
    /// of them all, and the asked page.
    pub fn find_by_user_id(
        db: &Database,
        user_id: i32,
        params: ListQueryParams,
        boss_ids: Option<Vec<i32>>,
    ) -> (r: Result<ListResult<Clothing>, StoreError>)
        requires
            db.wf(),
        ensures
            r matches Ok(l) && (l.total as nat, l.data@) == db@.list_clothings(
                user_id,
                params,
                wanted_ids(boss_ids),
            ),
            r matches Ok(l) ==> {
                &&& l.data@.len() == page_len(
                    l.total as nat,
                    page_or_default(params.page),
                    page_size_or_default(params.page_size),
                )
                &&& newest_first(l.data@)
                &&& forall|k: int|
                    0 <= k < l.data@.len() ==> db@.owns_clothing(
                        user_id,
                        (#[trigger] l.data@[k]).id,
                    ) && (boss_ids matches Some(w) ==> w@.contains(l.data@[k].boss_id))
            },
    {
        let owner: Vec<i32> = vec![user_id];
        assert(owner@ =~= seq![user_id]);
        let scope = restrict_ids(scope_ids(&db.bosses, &owner), &boss_ids);
        let (total, data) = list_page(&db.clothings, scope, &params);
        proof {
            let own = scope_of(db@.bosses, seq![user_id]);
            lemma_listing(db@.clothings, scope@, params, db@.clock);
            lemma_select(own, wanted_id(wanted_ids(boss_ids)));
            lemma_scope_of(db@.bosses, seq![user_id]);
            assert forall|k: int| 0 <= k < data@.len() implies db@.owns_clothing(
                user_id,
                (#[trigger] data@[k]).id,
            ) && (boss_ids matches Some(w) ==> w@.contains(data@[k].boss_id)) by {
                let row = data@[k];
                assert(admits::<Clothing>(criteria_of::<Clothing>(scope@, params))(row));
                assert(db@.clothings.contains(row));
                let w = choose|w: int| 0 <= w < db@.clothings.len() && db@.clothings[w] == row;
                lemma_index_of(db@.clothings, w);
                let j = choose|j: int| 0 <= j < scope@.len() && scope@[j] == row.boss_id;
                assert(wanted_id(wanted_ids(boss_ids))(scope@[j]));
                assert(own.contains(scope@[j]));
                let u = choose|u: int| 0 <= u < 1 && seq![user_id][u] == row_with(
                    db@.bosses,
                    row.boss_id,
                ).user_id;
            }
        }
        Ok(ListResult { total, data })
    }
}

} // verus!
