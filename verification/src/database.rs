//! The store: one table per kind of record, and the rules that hold of them
//! whatever is done through this crate.

use crate::entity::{
    Boss, Clothing, ProcurementItem, ProcurementRecord, ProductionItem, ProductionRecord,
    ShipmentItem, ShipmentRecord, Staff, User,
};
use crate::production::salaries_add_up;
use crate::table::{ids_increasing, ids_within, parents_exist, stamps_sorted, Row};
use vstd::prelude::*;

verus! {

/// The tables. Rows stand in the order in which they were created.
pub struct Database {
    pub(crate) users: Vec<User>,
    pub(crate) bosses: Vec<Boss>,
    pub(crate) staffs: Vec<Staff>,
    pub(crate) clothings: Vec<Clothing>,
    pub(crate) procurements: Vec<ProcurementRecord>,
    pub(crate) procurement_items: Vec<ProcurementItem>,
    pub(crate) shipments: Vec<ShipmentRecord>,
    pub(crate) shipment_items: Vec<ShipmentItem>,
    pub(crate) productions: Vec<ProductionRecord>,
    pub(crate) production_items: Vec<ProductionItem>,
    pub(crate) last_user: i32,
    pub(crate) last_boss: i32,
    pub(crate) last_staff: i32,
    pub(crate) last_clothing: i32,
    pub(crate) last_procurement: i32,
    pub(crate) last_procurement_item: i32,
    pub(crate) last_shipment: i32,
    pub(crate) last_shipment_item: i32,
    pub(crate) last_production: i32,
    pub(crate) last_production_item: i32,
    pub(crate) clock: i64,
}

/// What a [`Database`] holds, as mathematics: the model that every
/// operation is specified on.
pub ghost struct DbState {
    pub users: Seq<User>,
    pub bosses: Seq<Boss>,
    pub staffs: Seq<Staff>,
    pub clothings: Seq<Clothing>,
    pub procurements: Seq<ProcurementRecord>,
    pub procurement_items: Seq<ProcurementItem>,
    pub shipments: Seq<ShipmentRecord>,
    pub shipment_items: Seq<ShipmentItem>,
    pub productions: Seq<ProductionRecord>,
    pub production_items: Seq<ProductionItem>,
    /// The last id that each table has handed out.
    pub last_user: i32,
    pub last_boss: i32,
    pub last_staff: i32,
    pub last_clothing: i32,
    pub last_procurement: i32,
    pub last_procurement_item: i32,
    pub last_shipment: i32,
    pub last_shipment_item: i32,
    pub last_production: i32,
    pub last_production_item: i32,
    /// The moment that the next record is stamped with.
    pub clock: i64,
}

/// Ids grow with the position and lie between 1 and the last one handed out.
pub open spec fn table_ok<R: Row>(rows: Seq<R>, last: i32) -> bool {
    &&& last >= 0
    &&& ids_increasing(rows)
    &&& ids_within(rows, last)
}

/// No two users have the same phone number.
pub open spec fn phones_distinct(users: Seq<User>) -> bool {
    forall|i: int, j: int|
        0 <= i < j < users.len() ==> users[i].phone_number@ != users[j].phone_number@
}

impl DbState {
    /// The rules of the store: ids are unique and grow, creation times never
    /// run backwards, every record belongs to an existing owner, phone
    /// numbers of users are unique, and the salary of a production batch is
    /// the sum of the salaries of its items.
    pub open spec fn wf(self) -> bool {
        &&& table_ok(self.users, self.last_user)
        &&& phones_distinct(self.users)
        &&& table_ok(self.bosses, self.last_boss)
        &&& stamps_sorted(self.bosses, self.clock)
        &&& parents_exist(self.bosses, self.users)
        &&& table_ok(self.staffs, self.last_staff)
        &&& stamps_sorted(self.staffs, self.clock)
        &&& parents_exist(self.staffs, self.users)
        &&& table_ok(self.clothings, self.last_clothing)
        &&& stamps_sorted(self.clothings, self.clock)
        &&& parents_exist(self.clothings, self.bosses)
        &&& table_ok(self.procurements, self.last_procurement)
        &&& stamps_sorted(self.procurements, self.clock)
        &&& parents_exist(self.procurements, self.users)
        &&& table_ok(self.procurement_items, self.last_procurement_item)
        &&& parents_exist(self.procurement_items, self.procurements)
        &&& table_ok(self.shipments, self.last_shipment)
        &&& stamps_sorted(self.shipments, self.clock)
        &&& parents_exist(self.shipments, self.users)
        &&& table_ok(self.shipment_items, self.last_shipment_item)
        &&& parents_exist(self.shipment_items, self.shipments)
        &&& table_ok(self.productions, self.last_production)
        &&& stamps_sorted(self.productions, self.clock)
        &&& parents_exist(self.productions, self.staffs)
        &&& table_ok(self.production_items, self.last_production_item)
        &&& parents_exist(self.production_items, self.productions)
        &&& salaries_add_up(self.productions, self.production_items)
    }

    /// The state once the clock has been told that it is `now`: the clock
    /// never runs backwards.
    pub open spec fn advance_clock(self, now: i64) -> DbState {
        DbState {
            clock: if now > self.clock {
                now
            } else {
                self.clock
            },
            ..self
        }
    }

    /// The state of an empty store whose tables have all handed out the
    /// ids up to `last`.
    pub open spec fn empty_after(last: i32) -> DbState {
        DbState {
            users: Seq::empty(),
            bosses: Seq::empty(),
            staffs: Seq::empty(),
            clothings: Seq::empty(),
            procurements: Seq::empty(),
            procurement_items: Seq::empty(),
            shipments: Seq::empty(),
            shipment_items: Seq::empty(),
            productions: Seq::empty(),
            production_items: Seq::empty(),
            last_user: last,
            last_boss: last,
            last_staff: last,
            last_clothing: last,
            last_procurement: last,
            last_procurement_item: last,
            last_shipment: last,
            last_shipment_item: last,
            last_production: last,
            last_production_item: last,
            clock: 0,
        }
    }

    /// The state of a new store.
    pub open spec fn empty() -> DbState {
        DbState::empty_after(0)
    }
}

impl View for Database {
    type V = DbState;

    open(crate) spec fn view(&self) -> DbState {
        DbState {
            users: self.users@,
            bosses: self.bosses@,
            staffs: self.staffs@,
            clothings: self.clothings@,
            procurements: self.procurements@,
            procurement_items: self.procurement_items@,
            shipments: self.shipments@,
            shipment_items: self.shipment_items@,
            productions: self.productions@,
            production_items: self.production_items@,
            last_user: self.last_user,
            last_boss: self.last_boss,
            last_staff: self.last_staff,
            last_clothing: self.last_clothing,
            last_procurement: self.last_procurement,
            last_procurement_item: self.last_procurement_item,
            last_shipment: self.last_shipment,
            last_shipment_item: self.last_shipment_item,
            last_production: self.last_production,
            last_production_item: self.last_production_item,
            clock: self.clock,
        }
    }
}

impl Database {
    /// Whether the store obeys its rules. Every function of this crate that
    /// changes a store keeps it so.
    pub open spec fn wf(&self) -> bool {
        self@.wf()
    }

    /// An empty store whose clock stands at 0. The first record of every
    /// table gets the id 1.
    pub fn new() -> (db: Database)
        ensures
            db@ == DbState::empty(),
            db.wf(),
    {
        Database::resuming_after(0)
    }

    /// An empty store whose tables have all handed out the ids up to `last`,
    /// as a store has that held records before: the next record of every
    /// table gets the id `last + 1`. A negative `last` counts as 0.
    pub fn resuming_after(last: i32) -> (db: Database)
        ensures
            db@ == DbState::empty_after(
                if last > 0 {
                    last
                } else {
                    0
                },
            ),
            db.wf(),
    {
        let last: i32 = if last > 0 {
            last
        } else {
            0
        };
        Database {
            users: Vec::new(),
            bosses: Vec::new(),
            staffs: Vec::new(),
            clothings: Vec::new(),
            procurements: Vec::new(),
            procurement_items: Vec::new(),
            shipments: Vec::new(),
            shipment_items: Vec::new(),
            productions: Vec::new(),
            production_items: Vec::new(),
            last_user: last,
            last_boss: last,
            last_staff: last,
            last_clothing: last,
            last_procurement: last,
            last_procurement_item: last,
            last_shipment: last,
            last_shipment_item: last,
            last_production: last,
            last_production_item: last,
            clock: 0,
        }
    }

    /// Tells the store that it is `now`. Records created from here on are
    /// stamped with that moment, or with the clock's own where `now` lies
    /// before it.
    pub fn advance_clock(&mut self, now: i64)
        requires
            old(self).wf(),
        ensures
            final(self)@ == old(self)@.advance_clock(now),
            final(self).wf(),
    {
        if now > self.clock {
            self.clock = now;
        }
    }

    /// The moment that the next record is stamped with.
    pub fn clock(&self) -> (now: i64)
        ensures
            now == self@.clock,
    {
        self.clock
    }
}

} // verus!
