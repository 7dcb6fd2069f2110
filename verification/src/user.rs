//! Users: the owners at the end of every ownership chain.

use crate::database::{phones_distinct, Database, DbState};
use crate::entity::{
    apply_replace, replaced, Boss, Clothing, ProcurementItem, ProcurementRecord, ProductionItem,
    ProductionRecord, ShipmentItem, ShipmentRecord, Staff, User,
};
use crate::error::StoreError;
use crate::production::lemma_salaries_after_owners_left;
use crate::table::{
    has_id, index_of, lemma_cascade, lemma_push_parent, lemma_push_row, lemma_remove_row,
    lemma_select_ids, lemma_select_stamps, lemma_split, lemma_update_parent, lemma_update_row,
    not_child_of, position, row_with, scope_ids, scope_of, select, survivors,
};
use vstd::prelude::*;

verus! {

/// The repository of users.
pub struct UserService;

/// The columns of a new user. `password` is what is stored: the hash.
#[derive(Debug)]
pub struct CreateUserParams {
    pub username: String,
    pub password: String,
    pub phone_number: String,
}

/// What an update changes of a user. A column that is not named keeps its
/// value.
#[derive(Debug)]
pub struct UpdateUserParams {
    pub username: Option<String>,
    pub password: Option<String>,
    pub phone_number: Option<String>,
}

/// A user has the phone number `phone`.
pub open spec fn has_phone(users: Seq<User>, phone: Seq<char>) -> bool {
    exists|i: int| 0 <= i < users.len() && (#[trigger] users[i]).phone_number@ == phone
}

/// The position of the user with the phone number `phone`.
pub open spec fn phone_index(users: Seq<User>, phone: Seq<char>) -> int {
    choose|i: int| 0 <= i < users.len() && (#[trigger] users[i]).phone_number@ == phone
}

/// A user other than the one at position `i` has the phone number `phone`.
pub open spec fn phone_taken_by_other(users: Seq<User>, i: int, phone: Seq<char>) -> bool {
    exists|j: int| 0 <= j < users.len() && j != i && (#[trigger] users[j]).phone_number@ == phone
}

/// The user `old` after the update `p`: named columns take the new value,
/// the others keep theirs; id and creation time never change.
pub open spec fn updated_user(old: User, p: UpdateUserParams) -> User {
    User {
        username: replaced(old.username, p.username),
        password: replaced(old.password, p.password),
        phone_number: replaced(old.phone_number, p.phone_number),
        ..old
    }
}

impl DbState {
    /// The user that `create_user` adds.
    pub open spec fn new_user(self, p: CreateUserParams) -> User {
        User {
            id: (self.last_user + 1) as i32,
            username: p.username,
            password: p.password,
            phone_number: p.phone_number,
            create_at: self.clock,
        }
    }

    /// Creating a user: the state after it and what is returned.
    pub open spec fn create_user(self, p: CreateUserParams) -> (DbState, Result<User, StoreError>) {
        if has_phone(self.users, p.phone_number@) {
            (self, Err(StoreError::Conflict))
        } else if self.last_user == i32::MAX {
            (self, Err(StoreError::Exhausted))
        } else {
            let user = self.new_user(p);
            (DbState { users: self.users.push(user), last_user: user.id, ..self }, Ok(user))
        }
    }

    /// The user with the phone number `phone`.
    pub open spec fn find_user_by_phone(self, phone: Seq<char>) -> Result<User, StoreError> {
        if has_phone(self.users, phone) {
            Ok(self.users[phone_index(self.users, phone)])
        } else {
            Err(StoreError::NotFound)
        }
    }

    /// Updating user `id`: the state after it and what is returned.
    pub open spec fn update_user(self, id: i32, p: UpdateUserParams) -> (
        DbState,
        Result<User, StoreError>,
    ) {
        if !has_id(self.users, id) {
            (self, Err(StoreError::NotFound))
        } else if p.phone_number matches Some(phone) && phone_taken_by_other(
            self.users,
            index_of(self.users, id),
            phone@,
        ) {
            (self, Err(StoreError::Conflict))
        } else {
            let user = updated_user(row_with(self.users, id), p);
            (DbState { users: self.users.update(index_of(self.users, id), user), ..self }, Ok(user))
        }
    }

    /// The state once user `id` has left with everything that belongs to it:
    /// its bosses and their clothing, its staff and their production batches
    /// with their items, its procurements and shipments with their items.
    pub open spec fn without_user(self, id: i32) -> DbState {
        let gone = seq![id];
        let bosses_gone = scope_of(self.bosses, gone);
        let staffs_gone = scope_of(self.staffs, gone);
        let productions_gone = scope_of(self.productions, staffs_gone);
        let procurements_gone = scope_of(self.procurements, gone);
        let shipments_gone = scope_of(self.shipments, gone);
        DbState {
            users: self.users.remove(index_of(self.users, id)),
            bosses: select(self.bosses, not_child_of::<Boss>(gone)),
            clothings: select(self.clothings, not_child_of::<Clothing>(bosses_gone)),
            staffs: select(self.staffs, not_child_of::<Staff>(gone)),
            productions: select(self.productions, not_child_of::<ProductionRecord>(staffs_gone)),
            production_items: select(
                self.production_items,
                not_child_of::<ProductionItem>(productions_gone),
            ),
            procurements: select(self.procurements, not_child_of::<ProcurementRecord>(gone)),
            procurement_items: select(
                self.procurement_items,
                not_child_of::<ProcurementItem>(procurements_gone),
            ),
            shipments: select(self.shipments, not_child_of::<ShipmentRecord>(gone)),
            shipment_items: select(
                self.shipment_items,
                not_child_of::<ShipmentItem>(shipments_gone),
            ),
            ..self
        }
    }

    /// Deleting user `id`: the state after it and what is returned.
    pub open spec fn delete_user(self, id: i32) -> (DbState, Result<User, StoreError>) {
        if has_id(self.users, id) {
            (self.without_user(id), Ok(row_with(self.users, id)))
        } else {
            (self, Err(StoreError::NotFound))
        }
    }
}

/// With distinct phone numbers, a user's position is the only one that holds
/// its phone number.
pub proof fn lemma_phone_index(users: Seq<User>, i: int)
    requires
        phones_distinct(users),
        0 <= i < users.len(),
    ensures
        has_phone(users, users[i].phone_number@),
        phone_index(users, users[i].phone_number@) == i,
{
    let j = phone_index(users, users[i].phone_number@);
    if j < i {
        assert(users[j].phone_number@ != users[i].phone_number@);
    } else if i < j {
        assert(users[i].phone_number@ != users[j].phone_number@);
    }
}

/// Creating a user keeps the rules of the store.
pub proof fn lemma_create_user_wf(s: DbState, p: CreateUserParams)
    requires
        s.wf(),
    ensures
        s.create_user(p).0.wf(),
{
    if !has_phone(s.users, p.phone_number@) && s.last_user < i32::MAX {
        let user = s.new_user(p);
        lemma_push_row(s.users, s.last_user, user);
        lemma_push_parent(s.bosses, s.users, user);
        lemma_push_parent(s.staffs, s.users, user);
        lemma_push_parent(s.procurements, s.users, user);
        lemma_push_parent(s.shipments, s.users, user);
        let next = s.users.push(user);
        assert forall|i: int, j: int| 0 <= i < j < next.len() implies next[i].phone_number@
            != next[j].phone_number@ by {
            if j < s.users.len() {
                assert(s.users[i].phone_number@ != s.users[j].phone_number@);
            } else {
                assert(s.users[i].phone_number@ != user.phone_number@);
            }
        }
    }
}

/// Updating a user keeps the rules of the store.
pub proof fn lemma_update_user_wf(s: DbState, id: i32, p: UpdateUserParams)
    requires
        s.wf(),
    ensures
        s.update_user(id, p).0.wf(),
{
    if s.update_user(id, p).1 is Ok {
        let at = index_of(s.users, id);
        let user = updated_user(s.users[at], p);
        let next = s.users.update(at, user);
        lemma_update_row(s.users, s.last_user, at, user);
        lemma_update_parent(s.bosses, s.users, at, user);
        lemma_update_parent(s.staffs, s.users, at, user);
        lemma_update_parent(s.procurements, s.users, at, user);
        lemma_update_parent(s.shipments, s.users, at, user);
        assert forall|i: int, j: int| 0 <= i < j < next.len() implies next[i].phone_number@
            != next[j].phone_number@ by {
            assert(s.users[i].phone_number@ != s.users[j].phone_number@);
            if i == at {
                assert(s.users[j].phone_number@ != user.phone_number@);
            }
            if j == at {
                assert(s.users[i].phone_number@ != user.phone_number@);
            }
        }
    }
}

/// Deleting a user keeps the rules of the store: nothing is left without
/// its owner.
pub proof fn lemma_delete_user_wf(s: DbState, id: i32)
    requires
        s.wf(),
    ensures
        s.delete_user(id).0.wf(),
{
    if has_id(s.users, id) {
        let at = index_of(s.users, id);
        let gone = seq![id];
        let bosses_gone = scope_of(s.bosses, gone);
        let staffs_gone = scope_of(s.staffs, gone);
        let productions_gone = scope_of(s.productions, staffs_gone);
        let procurements_gone = scope_of(s.procurements, gone);
        let shipments_gone = scope_of(s.shipments, gone);
        let next = s.without_user(id);
        let users_left = s.users.remove(at);
        assert(gone[0] == id);
        lemma_remove_row(s.users, s.last_user, at);
        assert forall|i: int, j: int| 0 <= i < j < users_left.len() implies
            users_left[i].phone_number@ != users_left[j].phone_number@ by {
            let x = if i < at { i } else { i + 1 };
            let y = if j < at { j } else { j + 1 };
            assert(s.users[x].phone_number@ != s.users[y].phone_number@);
        }
        lemma_select_ids(s.bosses, not_child_of::<Boss>(gone), s.last_boss);
        lemma_select_stamps(s.bosses, not_child_of::<Boss>(gone), s.clock);
        lemma_cascade(s.bosses, s.users, users_left, gone);
        lemma_select_ids(s.clothings, not_child_of::<Clothing>(bosses_gone), s.last_clothing);
        lemma_select_stamps(s.clothings, not_child_of::<Clothing>(bosses_gone), s.clock);
        lemma_split(s.bosses, gone);
        lemma_cascade(s.clothings, s.bosses, next.bosses, bosses_gone);
        lemma_select_ids(s.staffs, not_child_of::<Staff>(gone), s.last_staff);
        lemma_select_stamps(s.staffs, not_child_of::<Staff>(gone), s.clock);
        lemma_cascade(s.staffs, s.users, users_left, gone);
        lemma_select_ids(
            s.productions,
            not_child_of::<ProductionRecord>(staffs_gone),
            s.last_production,
        );
        lemma_select_stamps(s.productions, not_child_of::<ProductionRecord>(staffs_gone), s.clock);
        lemma_split(s.staffs, gone);
        lemma_cascade(s.productions, s.staffs, next.staffs, staffs_gone);
        lemma_select_ids(
            s.production_items,
            not_child_of::<ProductionItem>(productions_gone),
            s.last_production_item,
        );
        lemma_split(s.productions, staffs_gone);
        lemma_cascade(s.production_items, s.productions, next.productions, productions_gone);
        lemma_salaries_after_owners_left(s.productions, s.production_items, staffs_gone);
        lemma_select_ids(
            s.procurements,
            not_child_of::<ProcurementRecord>(gone),
            s.last_procurement,
        );
        lemma_select_stamps(s.procurements, not_child_of::<ProcurementRecord>(gone), s.clock);
        lemma_cascade(s.procurements, s.users, users_left, gone);
        lemma_select_ids(
            s.procurement_items,
            not_child_of::<ProcurementItem>(procurements_gone),
            s.last_procurement_item,
        );
        lemma_split(s.procurements, gone);
        lemma_cascade(s.procurement_items, s.procurements, next.procurements, procurements_gone);
        lemma_select_ids(s.shipments, not_child_of::<ShipmentRecord>(gone), s.last_shipment);
        lemma_select_stamps(s.shipments, not_child_of::<ShipmentRecord>(gone), s.clock);
        lemma_cascade(s.shipments, s.users, users_left, gone);
        lemma_select_ids(
            s.shipment_items,
            not_child_of::<ShipmentItem>(shipments_gone),
            s.last_shipment_item,
        );
        lemma_split(s.shipments, gone);
        lemma_cascade(s.shipment_items, s.shipments, next.shipments, shipments_gone);
    }
}

/// The position of the user with the phone number `phone`, if there is one.
fn phone_position(users: &Vec<User>, phone: &String) -> (at: Option<usize>)
    requires
        phones_distinct(users@),
    ensures
        match at {
            Some(i) => i < users.len() && has_phone(users@, phone@) && i == phone_index(
                users@,
                phone@,
            ),
            None => !has_phone(users@, phone@),
        },
{
    let mut i: usize = 0;
    while i < users.len()
        invariant
            i <= users.len(),
            phones_distinct(users@),
            forall|k: int| 0 <= k < i ==> users@[k].phone_number@ != phone@,
        decreases users.len() - i,
    {
        if users[i].phone_number == *phone {
            proof {
                lemma_phone_index(users@, i as int);
            }
            return Some(i);
        }
        i += 1;
    }
    None
}

impl UpdateUserParams {
    /// Applies the update to `old`.
    pub fn apply(self, old: User) -> (new: User)
        ensures
            new == updated_user(old, self),
    {
        User {
            id: old.id,
            username: apply_replace(old.username, self.username),
            password: apply_replace(old.password, self.password),
            phone_number: apply_replace(old.phone_number, self.phone_number),
            create_at: old.create_at,
        }
    }
}

impl UserService {
    /// Adds a user, with the next id and the clock's time. Fails with
    /// `Conflict` where the phone number is taken and with `Exhausted` where
    /// no id is left; the store is then unchanged.
    pub fn create(db: &mut Database, params: CreateUserParams) -> (r: Result<User, StoreError>)
        requires
            old(db).wf(),
        ensures
            final(db).wf(),
            (final(db)@, r) == old(db)@.create_user(params),
    {
        proof {
            lemma_create_user_wf(db@, params);
        }
        if phone_position(&db.users, &params.phone_number).is_some() {
            return Err(StoreError::Conflict);
        }
        if db.last_user == i32::MAX {
            return Err(StoreError::Exhausted);
        }
        let user = User {
            id: db.last_user + 1,
            username: params.username,
            password: params.password,
            phone_number: params.phone_number,
            create_at: db.clock,
        };
        db.users.push(user.clone());
        db.last_user = user.id;
        Ok(user)
    }

    /// Deletes the user `id` with everything that belongs to it and returns
    /// the user as it was. Fails with `NotFound` where there is no such
    /// user; the store is then unchanged.
    pub fn delete(db: &mut Database, id: i32) -> (r: Result<User, StoreError>)
        requires
            old(db).wf(),
        ensures
            final(db).wf(),
            (final(db)@, r) == old(db)@.delete_user(id),
    {
        proof {
            lemma_delete_user_wf(db@, id);
        }
        let at = match position(&db.users, id) {
            Some(i) => i,
            None => {
                return Err(StoreError::NotFound);
            },
        };
        let gone: Vec<i32> = vec![id];
        assert(gone@ =~= seq![id]);
        let bosses_gone = scope_ids(&db.bosses, &gone);
        let staffs_gone = scope_ids(&db.staffs, &gone);
        let productions_gone = scope_ids(&db.productions, &staffs_gone);
        let procurements_gone = scope_ids(&db.procurements, &gone);
        let shipments_gone = scope_ids(&db.shipments, &gone);
        let bosses = survivors(&db.bosses, &gone);
        let clothings = survivors(&db.clothings, &bosses_gone);
        let staffs = survivors(&db.staffs, &gone);
        let productions = survivors(&db.productions, &staffs_gone);
        let production_items = survivors(&db.production_items, &productions_gone);
        let procurements = survivors(&db.procurements, &gone);
        let procurement_items = survivors(&db.procurement_items, &procurements_gone);
        let shipments = survivors(&db.shipments, &gone);
        let shipment_items = survivors(&db.shipment_items, &shipments_gone);
        db.bosses = bosses;
        db.clothings = clothings;
        db.staffs = staffs;
        db.productions = productions;
        db.production_items = production_items;
        db.procurements = procurements;
        db.procurement_items = procurement_items;
        db.shipments = shipments;
        db.shipment_items = shipment_items;
        let user = db.users.remove(at);
        Ok(user)
    }

    /// Updates the user `id` and returns it as it then is. Fails with
    /// `NotFound` where there is no such user and with `Conflict` where
    /// another user has the new phone number; the store is then unchanged.
    pub fn update(db: &mut Database, id: i32, params: UpdateUserParams) -> (r: Result<
        User,
        StoreError,
    >)
        requires
            old(db).wf(),
        ensures
            final(db).wf(),
            (final(db)@, r) == old(db)@.update_user(id, params),
    {
        proof {
            lemma_update_user_wf(db@, id, params);
        }
        let at = match position(&db.users, id) {
            Some(i) => i,
            None => {
                return Err(StoreError::NotFound);
            },
        };
        match &params.phone_number {
            Some(phone) => {
                match phone_position(&db.users, phone) {
                    Some(j) => {
                        if j != at {
                            return Err(StoreError::Conflict);
                        }
                        assert(!phone_taken_by_other(db.users@, at as int, phone@)) by {
                            if phone_taken_by_other(db.users@, at as int, phone@) {
                                let k = choose|k: int|
                                    0 <= k < db.users@.len() && k != at && (
                                    #[trigger] db.users@[k]).phone_number@ == phone@;
                                lemma_phone_index(db.users@, k);
                            }
                        }
                    },
                    None => {},
                }
            },
            None => {},
        }
        let user = params.apply(db.users[at].clone());
        db.users.set(at, user.clone());
        Ok(user)
    }

    /// The user with the phone number `phone_number`; `NotFound` where there
    /// is none.
    pub fn find_by_phone_number(db: &Database, phone_number: String) -> (r: Result<
        User,
        StoreError,
    >)
        requires
            db.wf(),
        ensures
            r == db@.find_user_by_phone(phone_number@),
    {
        match phone_position(&db.users, &phone_number) {
            Some(i) => Ok(db.users[i].clone()),
            None => Err(StoreError::NotFound),
        }
    }
}

} // verus!
