//! Production batches: work done by a staff member, owned through the staff
//! member by a user, each with its items and a salary that is settled once.

use crate::database::{Database, DbState};
use crate::entity::{apply_patch, patched, Patch, ProductionItem, ProductionRecord};
use crate::error::StoreError;
use crate::plan::{Listing, Lookup, Scope};
use crate::query::{page_len, page_or_default, page_size_or_default, ListQueryParams, ListResult};
use crate::staff::StaffService;
use crate::table::{
    admits, child_of, children, copy_rows, criteria_of, has_id, ids_increasing, index_of,
    lemma_append_rows, lemma_cascade, lemma_children_of_new_parent, lemma_children_of_old_parent,
    lemma_children_stay, lemma_index_of, lemma_listing, lemma_push_child, lemma_push_parent,
    lemma_push_row, lemma_push_stamp, lemma_remove_child, lemma_remove_row, lemma_remove_stamp,
    lemma_scope_of, lemma_select, lemma_select_ids, lemma_update_child, lemma_update_parent,
    lemma_update_row, lemma_update_stamp, list_page, listing, newest_first, not_child_of, position,
    restrict_ids, row_with, scope_ids, scope_of, select, survivors, wanted_id, wanted_ids,
};
use vstd::prelude::*;

verus! {

/// The repository of production batches.
pub struct ProductionService;

/// One line of a new production batch.
#[derive(Debug)]
pub struct CreateProductionItem {
    pub unit_price: u32,
    pub count: u32,
    pub clothing_id: i32,
}

/// The columns and the lines of a new production batch.
#[derive(Debug)]
pub struct CreateProductionParams {
    pub description: Option<String>,
    pub staff_id: i32,
    pub items: Vec<CreateProductionItem>,
}

/// What an update changes of a production batch. Its items, its salary and
/// its settlement cannot be changed by an update.
#[derive(Debug)]
pub struct UpdateProductionParams {
    pub description: Patch<String>,
}

/// A production batch with its items.
#[derive(Debug, PartialEq, Eq)]
pub struct Production {
    pub production: ProductionRecord,
    pub items: Vec<ProductionItem>,
}

/// What a listing of production batches can be asked for.
#[derive(Debug)]
pub struct ProductionListQueryParams {
    pub list_query: ListQueryParams,
    /// Keep the batches of these staff members only.
    pub staff_ids: Option<Vec<i32>>,
}

impl Clone for Production {
    fn clone(&self) -> (copy: Self)
        ensures
            copy@ == self@,
    {
        Production { production: self.production.clone(), items: copy_rows(&self.items) }
    }
}

impl View for Production {
    type V = (ProductionRecord, Seq<ProductionItem>);

    open spec fn view(&self) -> (ProductionRecord, Seq<ProductionItem>) {
        (self.production, self.items@)
    }
}

/// What an operation returned, with the batch as its record and its items.
pub open spec fn production_outcome(r: Result<Production, StoreError>) -> Result<
    (ProductionRecord, Seq<ProductionItem>),
    StoreError,
> {
    match r {
        Ok(p) => Ok(p@),
        Err(e) => Err(e),
    }
}

/// Each batch of `data` as its record and its items.
pub open spec fn production_views(data: Seq<Production>) -> Seq<
    (ProductionRecord, Seq<ProductionItem>),
> {
    Seq::new(data.len(), |k: int| data[k]@)
}

/// The record of each batch of `data`.
pub open spec fn production_records(data: Seq<Production>) -> Seq<ProductionRecord> {
    Seq::new(data.len(), |k: int| data[k].production)
}

/// The batch `old` after the update `p`.
pub open spec fn updated_production(
    old: ProductionRecord,
    p: UpdateProductionParams,
) -> ProductionRecord {
    ProductionRecord { description: patched(old.description, p.description), ..old }
}

/// The batch `old` once it is settled.
pub open spec fn settled_production(old: ProductionRecord) -> ProductionRecord {
    ProductionRecord { settled: true, ..old }
}

/// The salary of one line: the unit price times the count.
pub open spec fn line_salary(line: CreateProductionItem) -> nat {
    (line.unit_price * line.count) as nat
}

/// The salary of all lines together.
pub open spec fn lines_salary(lines: Seq<CreateProductionItem>) -> nat
    decreases lines.len(),
{
    if lines.len() == 0 {
        0
    } else {
        lines_salary(lines.drop_last()) + line_salary(lines.last())
    }
}

/// The items made of the lines `lines` for the batch `parent`: line `k` gets
/// the id `first + k` and its own salary.
pub open spec fn new_production_items(
    parent: i32,
    first: int,
    lines: Seq<CreateProductionItem>,
) -> Seq<ProductionItem> {
    Seq::new(
        lines.len(),
        |k: int|
            ProductionItem {
                id: (first + k) as i32,
                unit_price: lines[k].unit_price,
                count: lines[k].count,
                production_id: parent,
                clothing_id: lines[k].clothing_id,
                salary: line_salary(lines[k]) as u64,
            },
    )
}

/// The salary of all items together.
pub open spec fn items_salary(items: Seq<ProductionItem>) -> nat
    decreases items.len(),
{
    if items.len() == 0 {
        0
    } else {
        items_salary(items.drop_last()) + items.last().salary as nat
    }
}

/// The items made of some lines earn together what the lines earn.
pub proof fn lemma_items_salary(parent: i32, first: int, lines: Seq<CreateProductionItem>)
    ensures
        items_salary(new_production_items(parent, first, lines)) == lines_salary(lines),
    decreases lines.len(),
{
    let items = new_production_items(parent, first, lines);
    if lines.len() > 0 {
        let line = lines.last();
        lemma_items_salary(parent, first, lines.drop_last());
        assert(items.drop_last() =~= new_production_items(parent, first, lines.drop_last()));
        assert(line.unit_price * line.count <= 0xFFFF_FFFE_0000_0001) by (nonlinear_arith)
            requires
                0 <= line.unit_price <= 0xFFFF_FFFF,
                0 <= line.count <= 0xFFFF_FFFF,
        ;
    }
}

/// Every item earns its unit price times its count, and every batch earns
/// what its items earn together.
pub open spec fn salaries_add_up(
    productions: Seq<ProductionRecord>,
    items: Seq<ProductionItem>,
) -> bool {
    &&& forall|k: int|
        0 <= k < items.len() ==> (#[trigger] items[k]).salary == items[k].unit_price
            * items[k].count
    &&& forall|k: int|
        0 <= k < productions.len() ==> (#[trigger] productions[k]).total_salary == items_salary(
            select(items, child_of::<ProductionItem>(seq![productions[k].id])),
        )
}

/// Salaries still add up when the batches in `gone` have left with their
/// items.
pub proof fn lemma_salaries_after_cascade(
    productions: Seq<ProductionRecord>,
    items: Seq<ProductionItem>,
    gone: Seq<i32>,
    left: Seq<ProductionRecord>,
)
    requires
        salaries_add_up(productions, items),
        forall|k: int|
            0 <= k < left.len() ==> productions.contains(#[trigger] left[k]) && !gone.contains(
                left[k].id,
            ),
    ensures
        salaries_add_up(left, select(items, not_child_of::<ProductionItem>(gone))),
{
    let kept = select(items, not_child_of::<ProductionItem>(gone));
    lemma_select(items, not_child_of::<ProductionItem>(gone));
    assert forall|k: int| 0 <= k < kept.len() implies (#[trigger] kept[k]).salary
        == kept[k].unit_price * kept[k].count by {
        assert(items.contains(kept[k]));
        let w = choose|w: int| 0 <= w < items.len() && items[w] == kept[k];
        assert(items[w].salary == items[w].unit_price * items[w].count);
    }
    assert forall|k: int| 0 <= k < left.len() implies (#[trigger] left[k]).total_salary
        == items_salary(select(kept, child_of::<ProductionItem>(seq![left[k].id]))) by {
        assert(productions.contains(left[k]));
        let w = choose|w: int| 0 <= w < productions.len() && productions[w] == left[k];
        assert(productions[w].total_salary == items_salary(
            select(items, child_of::<ProductionItem>(seq![productions[w].id])),
        ));
        lemma_children_stay(items, gone, left[k].id);
    }
}

/// Salaries still add up when the batches of the staff members in `owners`
/// have left with their items.
pub proof fn lemma_salaries_after_owners_left(
    productions: Seq<ProductionRecord>,
    items: Seq<ProductionItem>,
    owners: Seq<i32>,
)
    requires
        ids_increasing(productions),
        salaries_add_up(productions, items),
    ensures
        salaries_add_up(
            select(productions, not_child_of::<ProductionRecord>(owners)),
            select(items, not_child_of::<ProductionItem>(scope_of(productions, owners))),
        ),
{
    let left = select(productions, not_child_of::<ProductionRecord>(owners));
    let gone = scope_of(productions, owners);
    lemma_select(productions, not_child_of::<ProductionRecord>(owners));
    lemma_scope_of(productions, owners);
    assert forall|k: int| 0 <= k < left.len() implies productions.contains(#[trigger] left[k])
        && !gone.contains(left[k].id) by {
        assert(productions.contains(left[k]));
        let w = choose|w: int| 0 <= w < productions.len() && productions[w] == left[k];
        lemma_index_of(productions, w);
        assert(not_child_of::<ProductionRecord>(owners)(left[k]));
    }
    lemma_salaries_after_cascade(productions, items, gone, left);
}

/// No line earns more than this.
pub open spec fn max_line_salary() -> nat {
    0xFFFF_FFFE_0000_0001
}

/// The salary of the lines fits the record's column, however many there are
/// in a `Vec`.
pub proof fn lemma_lines_salary_bound(lines: Seq<CreateProductionItem>)
    ensures
        lines_salary(lines) <= lines.len() * max_line_salary(),
    decreases lines.len(),
{
    if lines.len() > 0 {
        lemma_lines_salary_bound(lines.drop_last());
        let line = lines.last();
        assert(line.unit_price * line.count <= 0xFFFF_FFFE_0000_0001) by (nonlinear_arith)
            requires
                0 <= line.unit_price <= 0xFFFF_FFFF,
                0 <= line.count <= 0xFFFF_FFFF,
        ;
        assert(lines.len() * max_line_salary() == (lines.len() - 1) * max_line_salary()
            + max_line_salary()) by (nonlinear_arith);
    }
}

impl DbState {
    /// The items of batch `id`, in the order of their lines.
    pub open spec fn production_items_of(self, id: i32) -> Seq<ProductionItem> {
        select(self.production_items, child_of::<ProductionItem>(seq![id]))
    }

    /// The record that `create_production` adds: unsettled, with the salary
    /// of all its lines.
    pub open spec fn new_production(self, p: CreateProductionParams) -> ProductionRecord {
        ProductionRecord {
            id: (self.last_production + 1) as i32,
            description: p.description,
            create_at: self.clock,
            staff_id: p.staff_id,
            total_salary: lines_salary(p.items@) as u128,
            settled: false,
        }
    }

    /// Creating a batch as `user_id`: record and items are added together or
    /// not at all.
    pub open spec fn create_production(self, user_id: i32, p: CreateProductionParams) -> (
        DbState,
        Result<(ProductionRecord, Seq<ProductionItem>), StoreError>,
    ) {
        if !self.owns_staff(user_id, p.staff_id) {
            (self, Err(StoreError::NotFound))
        } else if self.last_production == i32::MAX || self.last_production_item + p.items@.len()
            > i32::MAX {
            (self, Err(StoreError::Exhausted))
        } else {
            let record = self.new_production(p);
            let items = new_production_items(record.id, self.last_production_item + 1, p.items@);
            (
                DbState {
                    productions: self.productions.push(record),
                    last_production: record.id,
                    production_items: self.production_items + items,
                    last_production_item: (self.last_production_item + items.len()) as i32,
                    ..self
                },
                Ok((record, items)),
            )
        }
    }

    /// There is a batch `id` and its staff member belongs to `user_id`.
    pub open spec fn owns_production(self, user_id: i32, id: i32) -> bool {
        has_id(self.productions, id) && self.owns_staff(
            user_id,
            row_with(self.productions, id).staff_id,
        )
    }

    /// What `user_id` finds under the batch id `id`.
    pub open spec fn find_production(self, user_id: i32, id: i32) -> Result<
        (ProductionRecord, Seq<ProductionItem>),
        StoreError,
    > {
        if self.owns_production(user_id, id) {
            Ok((row_with(self.productions, id), self.production_items_of(id)))
        } else {
            Err(StoreError::NotFound)
        }
    }

    /// Replacing the record of batch `id` by `record`, as `user_id`.
    pub open spec fn replace_production(self, user_id: i32, id: i32, record: ProductionRecord) -> (
        DbState,
        Result<(ProductionRecord, Seq<ProductionItem>), StoreError>,
    ) {
        if self.owns_production(user_id, id) {
            (
                DbState {
                    productions: self.productions.update(index_of(self.productions, id), record),
                    ..self
                },
                Ok((record, self.production_items_of(id))),
            )
        } else {
            (self, Err(StoreError::NotFound))
        }
    }

    /// Updating batch `id` as `user_id`: the state after it and what is
    /// returned.
    pub open spec fn update_production(self, user_id: i32, id: i32, p: UpdateProductionParams) -> (
        DbState,
        Result<(ProductionRecord, Seq<ProductionItem>), StoreError>,
    ) {
        self.replace_production(
            user_id,
            id,
            updated_production(row_with(self.productions, id), p),
        )
    }

    /// Settling batch `id` as `user_id`: the state after it and what is
    /// returned.
    pub open spec fn settle_production(self, user_id: i32, id: i32) -> (
        DbState,
        Result<(ProductionRecord, Seq<ProductionItem>), StoreError>,
    ) {
        self.replace_production(user_id, id, settled_production(row_with(self.productions, id)))
    }

    /// Deleting batch `id` as `user_id`: the record leaves, and its items
    /// with it.
    pub open spec fn delete_production(self, user_id: i32, id: i32) -> (
        DbState,
        Result<(ProductionRecord, Seq<ProductionItem>), StoreError>,
    ) {
        if self.owns_production(user_id, id) {
            (
                DbState {
                    productions: self.productions.remove(index_of(self.productions, id)),
                    production_items: select(
                        self.production_items,
                        not_child_of::<ProductionItem>(seq![id]),
                    ),
                    ..self
                },
                Ok((row_with(self.productions, id), self.production_items_of(id))),
            )
        } else {
            (self, Err(StoreError::NotFound))
        }
    }

    /// The staff members whose batches `user_id` is shown: the user's own,
    /// and of them those that `staff_ids` names where it is given.
    pub open spec fn production_scope(self, user_id: i32, staff_ids: Option<Seq<i32>>) -> Seq<
        i32,
    > {
        select(scope_of(self.staffs, seq![user_id]), wanted_id(staff_ids))
    }

    /// What `user_id` sees of the batches when asking for `q`, of the staff
    /// members that `staff_ids` names: how many meet the criteria, and the
    /// asked page of them, each with its items.
    pub open spec fn list_productions(
        self,
        user_id: i32,
        q: ListQueryParams,
        staff_ids: Option<Seq<i32>>,
    ) -> (nat, Seq<(ProductionRecord, Seq<ProductionItem>)>) {
        let (total, page) = listing(self.productions, self.production_scope(user_id, staff_ids), q);
        (total, Seq::new(page.len(), |k: int| (page[k], self.production_items_of(page[k].id))))
    }
}

/// Creating a batch keeps the rules of the store.
pub proof fn lemma_create_production_wf(s: DbState, user_id: i32, p: CreateProductionParams)
    requires
        s.wf(),
    ensures
        s.create_production(user_id, p).0.wf(),
{
    if s.owns_staff(user_id, p.staff_id) && s.last_production < i32::MAX && s.last_production_item
        + p.items@.len() <= i32::MAX {
        let record = s.new_production(p);
        let items = new_production_items(record.id, s.last_production_item + 1, p.items@);
        lemma_push_row(s.productions, s.last_production, record);
        lemma_push_stamp(s.productions, s.clock, record);
        lemma_push_child(s.productions, s.staffs, record);
        lemma_push_parent(s.production_items, s.productions, record);
        let parents = s.productions.push(record);
        assert(parents[parents.len() - 1].id == record.id);
        assert(has_id(parents, record.id));
        lemma_append_rows(s.production_items, s.last_production_item, items, parents);
        let all = s.production_items + items;
        lemma_items_salary(record.id, s.last_production_item + 1, p.items@);
        lemma_lines_salary_bound(p.items@);
        assert(p.items@.len() * max_line_salary() <= 0xFFFF_FFFF_FFFF_FFFF
            * 0xFFFF_FFFE_0000_0001) by (nonlinear_arith)
            requires
                p.items@.len() <= 0xFFFF_FFFF_FFFF_FFFF,
                max_line_salary() == 0xFFFF_FFFE_0000_0001,
        ;
        lemma_children_of_new_parent(s.production_items, items, s.productions, record.id);
        assert forall|k: int| 0 <= k < all.len() implies (#[trigger] all[k]).salary
            == all[k].unit_price * all[k].count by {
            if k < s.production_items.len() {
                assert(s.production_items[k].salary == s.production_items[k].unit_price
                    * s.production_items[k].count);
            } else {
                let line = p.items@[k - s.production_items.len()];
                assert(all[k] == items[k - s.production_items.len()]);
                assert(line.unit_price * line.count <= 0xFFFF_FFFE_0000_0001) by (nonlinear_arith)
                    requires
                        0 <= line.unit_price <= 0xFFFF_FFFF,
                        0 <= line.count <= 0xFFFF_FFFF,
                ;
            }
        }
        assert forall|k: int| 0 <= k < parents.len() implies (#[trigger] parents[k]).total_salary
            == items_salary(select(all, child_of::<ProductionItem>(seq![parents[k].id]))) by {
            if k < s.productions.len() {
                assert(parents[k] == s.productions[k]);
                assert(has_id(s.productions, s.productions[k].id));
                lemma_children_of_old_parent(
                    s.production_items,
                    items,
                    record.id,
                    s.productions[k].id,
                );
            }
        }
    }
}

/// Replacing a batch's record by one with the same id, staff member and
/// creation time keeps the rules of the store.
pub proof fn lemma_replace_production_wf(s: DbState, at: int, record: ProductionRecord)
    requires
        s.wf(),
        0 <= at < s.productions.len(),
        record.id == s.productions[at].id,
        record.staff_id == s.productions[at].staff_id,
        record.create_at == s.productions[at].create_at,
        record.total_salary == s.productions[at].total_salary,
    ensures
        (DbState { productions: s.productions.update(at, record), ..s }).wf(),
{
    let next = s.productions.update(at, record);
    assert forall|k: int| 0 <= k < next.len() implies (#[trigger] next[k]).total_salary
        == items_salary(
        select(s.production_items, child_of::<ProductionItem>(seq![next[k].id])),
    ) by {
        assert(s.productions[k].total_salary == items_salary(
            select(s.production_items, child_of::<ProductionItem>(seq![s.productions[k].id])),
        ));
    }
    lemma_update_row(s.productions, s.last_production, at, record);
    lemma_update_stamp(s.productions, s.clock, at, record);
    lemma_update_child(s.productions, s.staffs, at, record);
    lemma_update_parent(s.production_items, s.productions, at, record);
}

/// Deleting a batch keeps the rules of the store: no item is left without
/// its batch.
pub proof fn lemma_delete_production_wf(s: DbState, user_id: i32, id: i32)
    requires
        s.wf(),
    ensures
        s.delete_production(user_id, id).0.wf(),
{
    if s.owns_production(user_id, id) {
        let i = index_of(s.productions, id);
        let gone = seq![id];
        let keep = not_child_of::<ProductionItem>(gone);
        lemma_remove_row(s.productions, s.last_production, i);
        lemma_remove_stamp(s.productions, s.clock, i);
        lemma_remove_child(s.productions, s.staffs, i);
        lemma_select_ids(s.production_items, keep, s.last_production_item);
        assert(gone[0] == id);
        lemma_cascade(s.production_items, s.productions, s.productions.remove(i), gone);
        let left = s.productions.remove(i);
        assert forall|k: int| 0 <= k < left.len() implies s.productions.contains(
            #[trigger] left[k],
        ) && !gone.contains(left[k].id) by {
            let x = if k < i { k } else { k + 1 };
            assert(s.productions[x] == left[k]);
            if gone.contains(left[k].id) {
                let j = choose|j: int| 0 <= j < 1 && gone[j] == left[k].id;
                lemma_index_of(s.productions, x);
            }
        }
        lemma_salaries_after_cascade(s.productions, s.production_items, gone, left);
    }
}

impl UpdateProductionParams {
    /// Applies the update to `old`.
    pub fn apply(self, old: ProductionRecord) -> (new: ProductionRecord)
        ensures
            new == updated_production(old, self),
    {
        ProductionRecord {
            id: old.id,
            description: apply_patch(old.description, self.description),
            create_at: old.create_at,
            staff_id: old.staff_id,
            total_salary: old.total_salary,
            settled: old.settled,
        }
    }
}

/// The salary of one line.
pub fn item_salary(line: &CreateProductionItem) -> (salary: u64)
    ensures
        salary == line_salary(*line),
{
    assert(line.unit_price * line.count <= 0xFFFF_FFFE_0000_0001) by (nonlinear_arith)
        requires
            0 <= line.unit_price <= 0xFFFF_FFFF,
            0 <= line.count <= 0xFFFF_FFFF,
    ;
    line.unit_price as u64 * line.count as u64
}

/// The salary of all lines together.
pub fn total_salary(lines: &Vec<CreateProductionItem>) -> (total: u128)
    ensures
        total == lines_salary(lines@),
{
    let mut total: u128 = 0;
    let mut k: usize = 0;
    while k < lines.len()
        invariant
            k <= lines.len(),
            total == lines_salary(lines@.take(k as int)),
        decreases lines.len() - k,
    {
        let salary = item_salary(&lines[k]);
        proof {
            let next = lines@.take(k + 1);
            assert(next.drop_last() =~= lines@.take(k as int));
            lemma_lines_salary_bound(next);
            assert(next.len() * max_line_salary() <= 0xFFFF_FFFF_FFFF_FFFF
                * 0xFFFF_FFFE_0000_0001) by (nonlinear_arith)
                requires
                    next.len() <= 0xFFFF_FFFF_FFFF_FFFF,
                    max_line_salary() == 0xFFFF_FFFE_0000_0001,
            ;
        }
        total = total + salary as u128;
        k += 1;
    }
    assert(lines@.take(lines.len() as int) =~= lines@);
    total
}

/// The items of batch `id`.
fn items_of(db: &Database, id: i32) -> (items: Vec<ProductionItem>)
    ensures
        items@ == db@.production_items_of(id),
{
    let scope: Vec<i32> = vec![id];
    assert(scope@ =~= seq![id]);
    children(&db.production_items, &scope)
}

/// The items for the lines `lines` of batch `parent`, twice: to keep and to
/// hand out.
fn make_items(lines: &Vec<CreateProductionItem>, parent: i32, last: i32) -> (r: (
    Vec<ProductionItem>,
    Vec<ProductionItem>,
))
    requires
        0 <= last,
        last + lines.len() <= i32::MAX,
    ensures
        r.0@ == new_production_items(parent, last + 1, lines@),
        r.1@ == r.0@,
{
    let mut kept: Vec<ProductionItem> = Vec::new();
    let mut given: Vec<ProductionItem> = Vec::new();
    let mut k: usize = 0;
    let mut id: i32 = last;
    while k < lines.len()
        invariant
            k <= lines.len(),
            0 <= last,
            last + lines.len() <= i32::MAX,
            id == last + k,
            kept@ == new_production_items(parent, last + 1, lines@).take(k as int),
            given@ == kept@,
        decreases lines.len() - k,
    {
        id = id + 1;
        let item = ProductionItem {
            id,
            unit_price: lines[k].unit_price,
            count: lines[k].count,
            production_id: parent,
            clothing_id: lines[k].clothing_id,
            salary: item_salary(&lines[k]),
        };
        kept.push(item.clone());
        given.push(item);
        k += 1;
        assert(kept@ =~= new_production_items(parent, last + 1, lines@).take(k as int));
    }
    assert(kept@ =~= new_production_items(parent, last + 1, lines@));
    (kept, given)
}

/// The position of the batch `id`, if its staff member belongs to `user_id`.
fn owned_position(db: &Database, user_id: i32, id: i32) -> (at: Option<usize>)
    requires
        db.wf(),
    ensures
        at is Some <==> db@.owns_production(user_id, id),
        at matches Some(i) ==> i < db.productions.len() && i == index_of(db@.productions, id),
{
    match position(&db.productions, id) {
        Some(i) => {
            match position(&db.staffs, db.productions[i].staff_id) {
                Some(s) => {
                    if db.staffs[s].user_id == user_id {
                        Some(i)
                    } else {
                        None
                    }
                },
                None => None,
            }
        },
        None => None,
    }
}

/// Puts `record` in the place of the batch at position `at`.
fn replace_at(db: &mut Database, at: usize, record: ProductionRecord) -> (r: Production)
    requires
        old(db).wf(),
        at < old(db).productions.len(),
        record.id == old(db).productions[at as int].id,
        record.staff_id == old(db).productions[at as int].staff_id,
        record.create_at == old(db).productions[at as int].create_at,
        record.total_salary == old(db).productions[at as int].total_salary,
    ensures
        final(db).wf(),
        final(db)@ == (DbState {
            productions: old(db)@.productions.update(at as int, record),
            ..old(db)@
        }),
        r@ == (record, old(db)@.production_items_of(record.id)),
{
    let items = items_of(db, record.id);
    proof {
        lemma_index_of(db@.productions, at as int);
        lemma_replace_production_wf(db@, at as int, record);
    }
    db.productions.set(at, record.clone());
    Production { production: record, items }
}

impl ProductionService {
    /// The batch `record` once it is settled: settled, and otherwise as it
    /// was.
    pub fn settled(record: ProductionRecord) -> (r: ProductionRecord)
        ensures
            r == settled_production(record),
    {
        ProductionRecord {
            id: record.id,
            description: record.description,
            create_at: record.create_at,
            staff_id: record.staff_id,
            total_salary: record.total_salary,
            settled: true,
        }
    }

    /// What a store is asked to find the batch `id` for `user_id`.
    pub fn lookup(user_id: i32, id: i32) -> (l: Lookup)
        ensures
            l == (Lookup { id, scope: Scope::Through { user_id, only: None } }),
    {
        Lookup::through(user_id, id)
    }

    /// What a store is asked before it creates a batch for `user_id`: to
    /// find the staff member that the batch is to belong to. Where the
    /// lookup finds none, the batch is not created.
    pub fn owner_lookup(user_id: i32, params: &CreateProductionParams) -> (l: Lookup)
        ensures
            l == (Lookup { id: params.staff_id, scope: Scope::Own { user_id } }),
    {
        StaffService::lookup(user_id, params.staff_id)
    }

    /// What a store is asked to list the batches of the staff of `user_id`,
    /// or of those among them that `staff_ids` names, that meet `params`.
    pub fn listing(user_id: i32, params: &ListQueryParams, staff_ids: Option<Vec<i32>>) -> (l:
        Listing)
        ensures
            l.is_for::<ProductionRecord>(Scope::Through { user_id, only: staff_ids }, *params),
    {
        Listing::new::<ProductionRecord>(Scope::Through { user_id, only: staff_ids }, params)
    }

    /// Adds a batch for the staff member `params.staff_id`, and its items
    /// with it: unsettled, each item with the salary of its line, the record
    /// with the salary of them all. Fails with `NotFound` where that staff
    /// member is not `user_id`'s and with `Exhausted` where the ids do not
    /// suffice for the record and all its items; the store is then unchanged.
    pub fn create(db: &mut Database, user_id: i32, params: CreateProductionParams) -> (r: Result<
        Production,
        StoreError,
    >)
        requires
            old(db).wf(),
        ensures
            final(db).wf(),
            (final(db)@, production_outcome(r)) == old(db)@.create_production(user_id, params),
    {
        proof {
            lemma_create_production_wf(db@, user_id, params);
        }
        if StaffService::find_by_id(db, user_id, params.staff_id).is_err() {
            return Err(StoreError::NotFound);
        }
        if db.last_production == i32::MAX || params.items.len() > (i32::MAX
            - db.last_production_item) as usize {
            return Err(StoreError::Exhausted);
        }
        let record = ProductionRecord {
            id: db.last_production + 1,
            description: params.description,
            create_at: db.clock,
            staff_id: params.staff_id,
            total_salary: total_salary(&params.items),
            settled: false,
        };
        let (mut kept, given) = make_items(&params.items, record.id, db.last_production_item);
        db.productions.push(record.clone());
        db.last_production = record.id;
        db.last_production_item = db.last_production_item + kept.len() as i32;
        db.production_items.append(&mut kept);
        Ok(Production { production: record, items: given })
    }

    /// Deletes the batch `id` of `user_id` with its items and returns it as
    /// it was; `NotFound` as for `find_by_id`, and the store is then
    /// unchanged.
    pub fn delete(db: &mut Database, user_id: i32, id: i32) -> (r: Result<Production, StoreError>)
        requires
            old(db).wf(),
        ensures
            final(db).wf(),
            (final(db)@, production_outcome(r)) == old(db)@.delete_production(user_id, id),
    {
        proof {
            lemma_delete_production_wf(db@, user_id, id);
        }
        match owned_position(db, user_id, id) {
            Some(i) => {
                let items = items_of(db, id);
                let gone: Vec<i32> = vec![id];
                assert(gone@ =~= seq![id]);
                let left = survivors(&db.production_items, &gone);
                db.production_items = left;
                let record = db.productions.remove(i);
                Ok(Production { production: record, items })
            },
            None => Err(StoreError::NotFound),
        }
    }

    /// Updates the batch `id` of `user_id` and returns it as it then is, with
    /// its items; `NotFound` as for `find_by_id`, and the store is then
    /// unchanged.
    pub fn update(db: &mut Database, user_id: i32, id: i32, params: UpdateProductionParams) -> (r:
        Result<Production, StoreError>)
        requires
            old(db).wf(),
        ensures
            final(db).wf(),
            (final(db)@, production_outcome(r)) == old(db)@.update_production(user_id, id, params),
    {
        match owned_position(db, user_id, id) {
            Some(i) => {
                let record = params.apply(db.productions[i].clone());
                Ok(replace_at(db, i, record))
            },
            None => Err(StoreError::NotFound),
        }
    }

    /// Marks the batch `id` of `user_id` as settled and returns it as it
    /// then is, with its items. A settled batch stays settled: settling it
    /// again succeeds and changes nothing. `NotFound` as for `find_by_id`,
    /// and the store is then unchanged.
    pub fn settle(db: &mut Database, user_id: i32, id: i32) -> (r: Result<Production, StoreError>)
        requires
            old(db).wf(),
        ensures
            final(db).wf(),
            (final(db)@, production_outcome(r)) == old(db)@.settle_production(user_id, id),
    {
        match owned_position(db, user_id, id) {
            Some(i) => {
                let record = ProductionService::settled(db.productions[i].clone());
                Ok(replace_at(db, i, record))
            },
            None => Err(StoreError::NotFound),
        }
    }

    /// The batch `id` with its items, if its staff member belongs to
    /// `user_id`; `NotFound` otherwise, whether there is no such batch or it
    /// is another user's.
    pub fn find_by_id(db: &Database, user_id: i32, id: i32) -> (r: Result<Production, StoreError>)
        requires
            db.wf(),
        ensures
            production_outcome(r) == db@.find_production(user_id, id),
    {
        match owned_position(db, user_id, id) {
            Some(i) => Ok(
                Production { production: db.productions[i].clone(), items: items_of(db, id) },
            ),
            None => Err(StoreError::NotFound),
        }
    }

    /// Lists the batches of the staff of `user_id`, or of those among them
    /// that `staff_ids` names, that meet `params`, newest first: the number
    /// of them all, and the asked page, each with its items.
    pub fn find_by_user_id(
        db: &Database,
        user_id: i32,
        params: ListQueryParams,
        staff_ids: Option<Vec<i32>>,
    ) -> (r: Result<ListResult<Production>, StoreError>)
        requires
            db.wf(),
        ensures
            r matches Ok(l) && (l.total as nat, production_views(l.data@)) == db@.list_productions(
                user_id,
                params,
                wanted_ids(staff_ids),
            ),
            r matches Ok(l) ==> {
                &&& l.data@.len() == page_len(
                    l.total as nat,
                    page_or_default(params.page),
                    page_size_or_default(params.page_size),
                )
                &&& newest_first(production_records(l.data@))
                &&& forall|k: int|
                    0 <= k < l.data@.len() ==> db@.owns_production(
                        user_id,
                        (#[trigger] l.data@[k]).production.id,
                    ) && (staff_ids matches Some(w) ==> w@.contains(
                        l.data@[k].production.staff_id,
                    ))
            },
    {
        let owner: Vec<i32> = vec![user_id];
        assert(owner@ =~= seq![user_id]);
        let scope = restrict_ids(scope_ids(&db.staffs, &owner), &staff_ids);
        let (total, page) = list_page(&db.productions, scope, &params);
        let mut data: Vec<Production> = Vec::new();
        let mut k: usize = 0;
        while k < page.len()
            invariant
                k <= page.len(),
                data@.len() == k,
                forall|j: int|
                    0 <= j < k ==> (#[trigger] data@[j])@ == (
                        page@[j],
                        db@.production_items_of(page@[j].id),
                    ),
            decreases page.len() - k,
        {
            let record = page[k].clone();
            let items = items_of(db, record.id);
            data.push(Production { production: record, items });
            k += 1;
        }
        assert(production_views(data@) =~= db@.list_productions(
            user_id,
            params,
            wanted_ids(staff_ids),
        ).1);
        proof {
            let own = scope_of(db@.staffs, seq![user_id]);
            lemma_listing(db@.productions, scope@, params, db@.clock);
            lemma_select(own, wanted_id(wanted_ids(staff_ids)));
            lemma_scope_of(db@.staffs, seq![user_id]);
            assert(production_records(data@) =~= page@);
            assert forall|k: int| 0 <= k < data@.len() implies db@.owns_production(
                user_id,
                (#[trigger] data@[k]).production.id,
            ) && (staff_ids matches Some(w) ==> w@.contains(data@[k].production.staff_id)) by {
                let row = page@[k];
                assert(data@[k]@.0 == row);
                assert(admits::<ProductionRecord>(criteria_of::<ProductionRecord>(scope@, params))(row));
                assert(db@.productions.contains(row));
                let w = choose|w: int| 0 <= w < db@.productions.len() && db@.productions[w] == row;
                lemma_index_of(db@.productions, w);
                let j = choose|j: int| 0 <= j < scope@.len() && scope@[j] == row.staff_id;
                assert(wanted_id(wanted_ids(staff_ids))(scope@[j]));
                assert(own.contains(scope@[j]));
                let u = choose|u: int| 0 <= u < 1 && seq![user_id][u] == row_with(
                    db@.staffs,
                    row.staff_id,
                ).user_id;
            }
        }
        Ok(ListResult { total, data })
    }
}

} // verus!
