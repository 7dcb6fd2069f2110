//! Tables: rows in the order they were inserted, each with an id that grows
//! with that order, and the selections that listings and cascades are made of.

use crate::query::{
    lemma_page_len, page_len, page_of, page_or_default, page_size_or_default, page_start,
    take_page_desc, ListQueryParams,
};
use crate::text::{chars_of, contains_chars, is_substring};
use vstd::prelude::*;

verus! {

/// A row of a table.
pub trait Row: Sized {
    /// The row's id.
    spec fn key(&self) -> i32;

    fn id(&self) -> (id: i32)
        ensures
            id == self.key(),
    ;

    /// A copy of the row.
    fn duplicate(&self) -> (copy: Self)
        ensures
            copy == *self,
    ;
}

/// A row that belongs to a row of another table.
pub trait Owned: Row {
    /// The id of the row that this one belongs to.
    spec fn parent(&self) -> i32;

    fn parent_id(&self) -> (id: i32)
        ensures
            id == self.parent(),
    ;
}

/// A column of text that a listing can search.
#[derive(Debug, Clone, Copy, PartialEq, Eq, Structural)]
pub enum TextColumn {
    Name,
    Description,
}

/// A row that listings show: it knows when it was created and what text it
/// holds in the columns that can be searched.
pub trait Listed: Owned {
    /// When the row was created.
    spec fn stamp(&self) -> i64;

    fn created_at(&self) -> (at: i64)
        ensures
            at == self.stamp(),
    ;

    /// The text that the row holds in `column`; none where the table has no
    /// such column or the row's is empty.
    spec fn text(&self, column: TextColumn) -> Option<String>;

    fn text_in(&self, column: TextColumn) -> (text: Option<&String>)
        ensures
            match text {
                Some(t) => self.text(column) == Some(*t),
                None => self.text(column) is None,
            },
    ;

    /// The columns that a search of the table looks in.
    spec fn searched() -> Seq<TextColumn>;

    fn searched_columns() -> (columns: Vec<TextColumn>)
        ensures
            columns@ == Self::searched(),
    ;
}

/// One of the columns `columns` of `row` holds `needle`.
pub open spec fn mentions<R: Listed>(row: R, columns: Seq<TextColumn>, needle: Seq<char>) -> bool {
    exists|k: int|
        0 <= k < columns.len() && (#[trigger] row.text(columns[k]) matches Some(t) && is_substring(
            t@,
            needle,
        ))
}

/// The rows of `rows` that `keep` accepts, in their order.
pub open spec fn select<R>(rows: Seq<R>, keep: spec_fn(R) -> bool) -> Seq<R>
    decreases rows.len(),
{
    if rows.len() == 0 {
        Seq::empty()
    } else if keep(rows.last()) {
        select(rows.drop_last(), keep).push(rows.last())
    } else {
        select(rows.drop_last(), keep)
    }
}

/// The ids of `rows`, in their order.
pub open spec fn keys<R: Row>(rows: Seq<R>) -> Seq<i32> {
    Seq::new(rows.len(), |i: int| rows[i].key())
}

/// Ids grow with the position: a later row has a larger id.
pub open spec fn ids_increasing<R: Row>(rows: Seq<R>) -> bool {
    forall|i: int, j: int| 0 <= i < j < rows.len() ==> rows[i].key() < rows[j].key()
}

/// Every id lies between 1 and `last`.
pub open spec fn ids_within<R: Row>(rows: Seq<R>, last: i32) -> bool {
    forall|i: int| 0 <= i < rows.len() ==> 1 <= (#[trigger] rows[i]).key() <= last
}

/// A row of `rows` has the id `id`.
pub open spec fn has_id<R: Row>(rows: Seq<R>, id: i32) -> bool {
    exists|i: int| 0 <= i < rows.len() && (#[trigger] rows[i]).key() == id
}

/// The position of the row with this id.
pub open spec fn index_of<R: Row>(rows: Seq<R>, id: i32) -> int {
    choose|i: int| 0 <= i < rows.len() && (#[trigger] rows[i]).key() == id
}

/// The row with this id.
pub open spec fn row_with<R: Row>(rows: Seq<R>, id: i32) -> R {
    rows[index_of(rows, id)]
}

/// Every row belongs to a row of `parents`.
pub open spec fn parents_exist<R: Owned, P: Row>(rows: Seq<R>, parents: Seq<P>) -> bool {
    forall|i: int| 0 <= i < rows.len() ==> has_id(parents, (#[trigger] rows[i]).parent())
}

/// Creation times never decrease with the position, and none lies after `clock`.
pub open spec fn stamps_sorted<R: Listed>(rows: Seq<R>, clock: i64) -> bool {
    &&& forall|i: int, j: int| 0 <= i < j < rows.len() ==> rows[i].stamp() <= rows[j].stamp()
    &&& forall|i: int| 0 <= i < rows.len() ==> (#[trigger] rows[i]).stamp() <= clock
}

/// Newest first; of two rows created at the same moment, the larger id first.
pub open spec fn newest_first<R: Listed>(rows: Seq<R>) -> bool {
    forall|i: int, j: int|
        0 <= i < j < rows.len() ==> rows[i].stamp() > rows[j].stamp() || (rows[i].stamp()
            == rows[j].stamp() && rows[i].key() > rows[j].key())
}

/// Accepts the rows that belong to one of `scope`.
pub open spec fn child_of<R: Owned>(scope: Seq<i32>) -> spec_fn(R) -> bool {
    |r: R| scope.contains(r.parent())
}

/// Accepts the rows that belong to none of `scope`.
pub open spec fn not_child_of<R: Owned>(scope: Seq<i32>) -> spec_fn(R) -> bool {
    |r: R| !scope.contains(r.parent())
}

/// Accepts the ids that `wanted` names; all of them where it is absent.
pub open spec fn wanted_id(wanted: Option<Seq<i32>>) -> spec_fn(i32) -> bool {
    |id: i32|
        match wanted {
            Some(w) => w.contains(id),
            None => true,
        }
}

/// The ids that a filter names, as a sequence.
pub open spec fn wanted_ids(ids: Option<Vec<i32>>) -> Option<Seq<i32>> {
    match ids {
        Some(w) => Some(w@),
        None => None,
    }
}

/// The ids of the rows of `rows` that belong to one of `owners`.
pub open spec fn scope_of<R: Owned>(rows: Seq<R>, owners: Seq<i32>) -> Seq<i32> {
    keys(select(rows, child_of(owners)))
}

/// What a listing keeps.
pub struct Criteria {
    /// The rows must belong to one of these.
    pub scope: Vec<i32>,
    /// The columns that are searched.
    pub columns: Vec<TextColumn>,
    /// One of the searched columns must hold this, if it is given.
    pub search: Option<Vec<char>>,
    /// The rows must be newer than this, if it is given.
    pub start: Option<i64>,
    /// The rows must be older than this, if it is given.
    pub end: Option<i64>,
}

/// What a [`Criteria`] holds, as mathematics.
pub ghost struct CriteriaView {
    pub scope: Seq<i32>,
    pub columns: Seq<TextColumn>,
    pub search: Option<Seq<char>>,
    pub start: Option<i64>,
    pub end: Option<i64>,
}

impl View for Criteria {
    type V = CriteriaView;

    open spec fn view(&self) -> CriteriaView {
        CriteriaView {
            scope: self.scope@,
            columns: self.columns@,
            search: match self.search {
                Some(t) => Some(t@),
                None => None,
            },
            start: self.start,
            end: self.end,
        }
    }
}

/// Accepts the rows that a listing with criteria `c` shows: in scope,
/// holding the searched text in one of the searched columns, created after
/// `start` and before `end`.
pub open spec fn admits<R: Listed>(c: CriteriaView) -> spec_fn(R) -> bool {
    |r: R|
        {
            &&& c.scope.contains(r.parent())
            &&& c.search matches Some(t) ==> mentions(r, c.columns, t)
            &&& c.start matches Some(a) ==> r.stamp() > a
            &&& c.end matches Some(b) ==> r.stamp() < b
        }
}

/// With growing ids, a row's position is the only one that holds its id.
pub proof fn lemma_index_of<R: Row>(rows: Seq<R>, i: int)
    requires
        ids_increasing(rows),
        0 <= i < rows.len(),
    ensures
        has_id(rows, rows[i].key()),
        index_of(rows, rows[i].key()) == i,
        row_with(rows, rows[i].key()) == rows[i],
{
    let j = index_of(rows, rows[i].key());
    if j < i {
        assert(rows[j].key() < rows[i].key());
    } else if i < j {
        assert(rows[i].key() < rows[j].key());
    }
}

/// What a selection holds: accepted rows of `rows` only, and all of them.
pub proof fn lemma_select<R>(rows: Seq<R>, keep: spec_fn(R) -> bool)
    ensures
        select(rows, keep).len() <= rows.len(),
        forall|k: int|
            0 <= k < select(rows, keep).len() ==> keep(#[trigger] select(rows, keep)[k])
                && rows.contains(select(rows, keep)[k]),
        forall|i: int|
            0 <= i < rows.len() && keep(#[trigger] rows[i]) ==> select(rows, keep).contains(
                rows[i],
            ),
    decreases rows.len(),
{
    if rows.len() > 0 {
        let init = rows.drop_last();
        let sel = select(rows, keep);
        let sub = select(init, keep);
        lemma_select(init, keep);
        assert forall|k: int| 0 <= k < sel.len() implies keep(#[trigger] sel[k]) && rows.contains(
            sel[k],
        ) by {
            if k < sub.len() {
                assert(sel[k] == sub[k]);
                assert(init.contains(sub[k]));
                let w = choose|w: int| 0 <= w < init.len() && init[w] == sub[k];
                assert(rows[w] == sub[k]);
            } else {
                assert(sel[k] == rows.last());
                assert(rows[rows.len() - 1] == sel[k]);
            }
        }
        assert forall|i: int| 0 <= i < rows.len() && keep(#[trigger] rows[i]) implies sel.contains(
            rows[i],
        ) by {
            if i < init.len() {
                assert(init[i] == rows[i]);
                assert(sub.contains(init[i]));
                let w = choose|w: int| 0 <= w < sub.len() && sub[w] == init[i];
                assert(sel[w] == rows[i]);
            } else {
                assert(sel[sel.len() - 1] == rows[i]);
            }
        }
    }
}

/// A selection keeps the order of ids and their bounds.
pub proof fn lemma_select_ids<R: Row>(rows: Seq<R>, keep: spec_fn(R) -> bool, last: i32)
    requires
        ids_increasing(rows),
    ensures
        ids_increasing(select(rows, keep)),
        ids_within(rows, last) ==> ids_within(select(rows, keep), last),
        forall|id: i32|
            has_id(select(rows, keep), id) <==> has_id(rows, id) && keep(row_with(rows, id)),
    decreases rows.len(),
{
    let sel = select(rows, keep);
    lemma_select(rows, keep);
    if rows.len() > 0 {
        let init = rows.drop_last();
        let sub = select(init, keep);
        lemma_select_ids(init, keep, last);
        lemma_select(init, keep);
        assert forall|i: int, j: int| 0 <= i < j < sel.len() implies sel[i].key()
            < sel[j].key() by {
            if j < sub.len() {
                assert(sub[i].key() < sub[j].key());
            } else {
                assert(sel[i] == sub[i]);
                assert(init.contains(sub[i]));
                let w = choose|w: int| 0 <= w < init.len() && init[w] == sub[i];
                assert(rows[w].key() < rows[rows.len() - 1].key());
            }
        }
    }
    if ids_within(rows, last) {
        assert forall|k: int| 0 <= k < sel.len() implies 1 <= (#[trigger] sel[k]).key()
            <= last by {
            assert(rows.contains(sel[k]));
            let w = choose|w: int| 0 <= w < rows.len() && rows[w] == sel[k];
            assert(1 <= rows[w].key() <= last);
        }
    }
    assert forall|id: i32| has_id(sel, id) <==> has_id(rows, id) && keep(
        row_with(rows, id),
    ) by {
        if has_id(sel, id) {
            let k = index_of(sel, id);
            assert(rows.contains(sel[k]));
            let w = choose|w: int| 0 <= w < rows.len() && rows[w] == sel[k];
            lemma_index_of(rows, w);
        }
        if has_id(rows, id) && keep(row_with(rows, id)) {
            let w = index_of(rows, id);
            assert(sel.contains(rows[w]));
            let k = choose|k: int| 0 <= k < sel.len() && sel[k] == rows[w];
            assert(sel[k].key() == id);
        }
    }
}

/// A selection keeps the order of creation times.
pub proof fn lemma_select_stamps<R: Listed>(rows: Seq<R>, keep: spec_fn(R) -> bool, clock: i64)
    requires
        stamps_sorted(rows, clock),
    ensures
        stamps_sorted(select(rows, keep), clock),
    decreases rows.len(),
{
    let sel = select(rows, keep);
    lemma_select(rows, keep);
    if rows.len() > 0 {
        let init = rows.drop_last();
        let sub = select(init, keep);
        lemma_select_stamps(init, keep, clock);
        lemma_select(init, keep);
        assert forall|i: int, j: int| 0 <= i < j < sel.len() implies sel[i].stamp()
            <= sel[j].stamp() by {
            if j < sub.len() {
                assert(sub[i].stamp() <= sub[j].stamp());
            } else {
                assert(sel[i] == sub[i]);
                assert(init.contains(sub[i]));
                let w = choose|w: int| 0 <= w < init.len() && init[w] == sub[i];
                assert(rows[w].stamp() <= rows[rows.len() - 1].stamp());
            }
        }
    }
    assert forall|k: int| 0 <= k < sel.len() implies (#[trigger] sel[k]).stamp() <= clock by {
        assert(rows.contains(sel[k]));
        let w = choose|w: int| 0 <= w < rows.len() && rows[w] == sel[k];
        assert(rows[w].stamp() <= clock);
    }
}

/// Read backwards, a table in insertion order shows the newest row first.
pub proof fn lemma_reverse_newest_first<R: Listed>(rows: Seq<R>, clock: i64)
    requires
        ids_increasing(rows),
        stamps_sorted(rows, clock),
    ensures
        newest_first(rows.reverse()),
{
    let rev = rows.reverse();
    assert forall|i: int, j: int| 0 <= i < j < rev.len() implies rev[i].stamp() > rev[j].stamp()
        || (rev[i].stamp() == rev[j].stamp() && rev[i].key() > rev[j].key()) by {
        let a = rows.len() - 1 - j;
        let b = rows.len() - 1 - i;
        assert(rows[a].key() < rows[b].key());
        assert(rows[a].stamp() <= rows[b].stamp());
    }
}

/// The position of the row with id `id`, if there is one.
pub fn position<R: Row>(rows: &Vec<R>, id: i32) -> (at: Option<usize>)
    requires
        ids_increasing(rows@),
    ensures
        match at {
            Some(i) => i < rows.len() && rows@[i as int].key() == id && has_id(rows@, id)
                && index_of(rows@, id) == i,
            None => !has_id(rows@, id),
        },
{
    let mut lo: usize = 0;
    let mut hi: usize = rows.len();
    while lo < hi
        invariant
            lo <= hi <= rows.len(),
            ids_increasing(rows@),
            forall|k: int| 0 <= k < lo ==> rows@[k].key() < id,
            forall|k: int| hi <= k < rows.len() ==> rows@[k].key() > id,
        decreases hi - lo,
    {
        let mid: usize = lo + (hi - lo) / 2;
        let k: i32 = rows[mid].id();
        if k == id {
            proof {
                lemma_index_of(rows@, mid as int);
            }
            return Some(mid);
        } else if k < id {
            lo = mid + 1;
        } else {
            hi = mid;
        }
    }
    None
}

/// Whether `id` is one of `ids`.
pub fn contains_id(ids: &Vec<i32>, id: i32) -> (found: bool)
    ensures
        found == ids@.contains(id),
{
    let mut i: usize = 0;
    while i < ids.len()
        invariant
            i <= ids.len(),
            forall|k: int| 0 <= k < i ==> ids@[k] != id,
        decreases ids.len() - i,
    {
        if ids[i] == id {
            return true;
        }
        i += 1;
    }
    false
}

/// A copy of `rows`.
pub fn copy_rows<R: Row>(rows: &Vec<R>) -> (copy: Vec<R>)
    ensures
        copy@ == rows@,
{
    let mut copy: Vec<R> = Vec::new();
    let mut i: usize = 0;
    while i < rows.len()
        invariant
            i <= rows.len(),
            copy@ == rows@.take(i as int),
        decreases rows.len() - i,
    {
        copy.push(rows[i].duplicate());
        i += 1;
        assert(copy@ =~= rows@.take(i as int));
    }
    assert(rows@.take(rows.len() as int) =~= rows@);
    copy
}

/// The ids of `rows`, in their order.
pub fn keys_of<R: Row>(rows: &Vec<R>) -> (ids: Vec<i32>)
    ensures
        ids@ == keys(rows@),
{
    let mut ids: Vec<i32> = Vec::new();
    let mut i: usize = 0;
    while i < rows.len()
        invariant
            i <= rows.len(),
            ids@ == keys(rows@.take(i as int)),
        decreases rows.len() - i,
    {
        ids.push(rows[i].id());
        i += 1;
        assert(ids@ =~= keys(rows@.take(i as int)));
    }
    assert(rows@.take(rows.len() as int) =~= rows@);
    ids
}

fn pick<R: Owned>(rows: &Vec<R>, scope: &Vec<i32>, inside: bool) -> (picked: Vec<R>)
    ensures
        inside ==> picked@ == select(rows@, child_of(scope@)),
        !inside ==> picked@ == select(rows@, not_child_of(scope@)),
{
    let mut picked: Vec<R> = Vec::new();
    let mut i: usize = 0;
    while i < rows.len()
        invariant
            i <= rows.len(),
            inside ==> picked@ == select(rows@.take(i as int), child_of(scope@)),
            !inside ==> picked@ == select(rows@.take(i as int), not_child_of(scope@)),
        decreases rows.len() - i,
    {
        let found = contains_id(scope, rows[i].parent_id());
        assert(rows@.take(i + 1).drop_last() =~= rows@.take(i as int));
        if found == inside {
            picked.push(rows[i].duplicate());
        }
        i += 1;
    }
    assert(rows@.take(rows.len() as int) =~= rows@);
    picked
}

/// The rows that belong to one of `scope`.
pub fn children<R: Owned>(rows: &Vec<R>, scope: &Vec<i32>) -> (picked: Vec<R>)
    ensures
        picked@ == select(rows@, child_of(scope@)),
{
    pick(rows, scope, true)
}

/// The rows that belong to none of `scope`.
pub fn survivors<R: Owned>(rows: &Vec<R>, scope: &Vec<i32>) -> (picked: Vec<R>)
    ensures
        picked@ == select(rows@, not_child_of(scope@)),
{
    pick(rows, scope, false)
}

/// The ids of the rows that belong to one of `owners`.
pub fn scope_ids<R: Owned>(rows: &Vec<R>, owners: &Vec<i32>) -> (ids: Vec<i32>)
    ensures
        ids@ == scope_of(rows@, owners@),
{
    let picked = children(rows, owners);
    keys_of(&picked)
}

/// The ids of `scope` that `wanted` names; all of them where it is absent.
pub fn restrict_ids(scope: Vec<i32>, wanted: &Option<Vec<i32>>) -> (ids: Vec<i32>)
    ensures
        ids@ == select(scope@, wanted_id(wanted_ids(*wanted))),
{
    let ghost keep = wanted_id(wanted_ids(*wanted));
    let mut ids: Vec<i32> = Vec::new();
    let mut i: usize = 0;
    while i < scope.len()
        invariant
            i <= scope.len(),
            keep == wanted_id(wanted_ids(*wanted)),
            ids@ == select(scope@.take(i as int), keep),
        decreases scope.len() - i,
    {
        let named = match wanted {
            Some(w) => contains_id(w, scope[i]),
            None => true,
        };
        assert(scope@.take(i + 1).drop_last() =~= scope@.take(i as int));
        if named {
            ids.push(scope[i]);
        }
        i += 1;
    }
    assert(scope@.take(scope.len() as int) =~= scope@);
    ids
}

/// Whether one of the columns `columns` of `row` holds `needle`.
pub fn holds_text<R: Listed>(row: &R, columns: &Vec<TextColumn>, needle: &Vec<char>) -> (found:
    bool)
    ensures
        found == mentions(*row, columns@, needle@),
{
    let mut k: usize = 0;
    while k < columns.len()
        invariant
            k <= columns.len(),
            forall|j: int|
                0 <= j < k ==> !(#[trigger] row.text(columns@[j]) matches Some(t) && is_substring(
                    t@,
                    needle@,
                )),
        decreases columns.len() - k,
    {
        match row.text_in(columns[k]) {
            Some(text) => {
                let hay = chars_of(text.as_str());
                if contains_chars(&hay, needle) {
                    return true;
                }
            },
            None => {},
        }
        k += 1;
    }
    false
}

/// The rows that a listing with criteria `c` shows, oldest first.
pub fn matching<R: Listed>(rows: &Vec<R>, c: &Criteria) -> (found: Vec<R>)
    ensures
        found@ == select(rows@, admits(c@)),
{
    let mut found: Vec<R> = Vec::new();
    let mut i: usize = 0;
    while i < rows.len()
        invariant
            i <= rows.len(),
            found@ == select(rows@.take(i as int), admits(c@)),
        decreases rows.len() - i,
    {
        let row = &rows[i];
        let mut ok: bool = contains_id(&c.scope, row.parent_id());
        if ok {
            ok = match &c.search {
                Some(t) => holds_text(row, &c.columns, t),
                None => true,
            };
        }
        if ok {
            ok = match c.start {
                Some(a) => row.created_at() > a,
                None => true,
            };
        }
        if ok {
            ok = match c.end {
                Some(b) => row.created_at() < b,
                None => true,
            };
        }
        assert(rows@.take(i + 1).drop_last() =~= rows@.take(i as int));
        assert(ok == admits::<R>(c@)(rows@[i as int]));
        if ok {
            found.push(row.duplicate());
        }
        i += 1;
    }
    assert(rows@.take(rows.len() as int) =~= rows@);
    found
}

/// The criteria of a listing of rows `R` that is scoped to `scope` and asked
/// for `q`.
pub open spec fn criteria_of<R: Listed>(scope: Seq<i32>, q: ListQueryParams) -> CriteriaView {
    CriteriaView {
        scope,
        columns: R::searched(),
        search: match q.search {
            Some(t) => Some(t@),
            None => None,
        },
        start: q.start_time,
        end: q.end_time,
    }
}

/// What a listing of `rows` shows that is scoped to `scope` and asked for
/// `q`: the number of rows that meet the criteria, and the asked page of
/// them, newest first.
pub open spec fn listing<R: Listed>(rows: Seq<R>, scope: Seq<i32>, q: ListQueryParams) -> (
    nat,
    Seq<R>,
) {
    let all = select(rows, admits(criteria_of::<R>(scope, q)));
    (
        all.len(),
        page_of(all.reverse(), page_or_default(q.page), page_size_or_default(q.page_size)),
    )
}

/// A listing holds as many rows as the page has room for and the rows that
/// are left, shows rows in scope only, and shows the newest first.
pub proof fn lemma_listing<R: Listed>(
    rows: Seq<R>,
    scope: Seq<i32>,
    q: ListQueryParams,
    clock: i64,
)
    requires
        ids_increasing(rows),
        stamps_sorted(rows, clock),
    ensures
        listing(rows, scope, q).0 <= rows.len(),
        listing(rows, scope, q).1.len() == page_len(
            listing(rows, scope, q).0,
            page_or_default(q.page),
            page_size_or_default(q.page_size),
        ),
        newest_first(listing(rows, scope, q).1),
        forall|k: int|
            0 <= k < listing(rows, scope, q).1.len() ==> admits::<R>(criteria_of::<R>(scope, q))(
                #[trigger] listing(rows, scope, q).1[k],
            ) && rows.contains(listing(rows, scope, q).1[k]),
{
    let keep = admits::<R>(criteria_of::<R>(scope, q));
    let all = select(rows, keep);
    let page = listing(rows, scope, q).1;
    let from = page_start(
        all.len(),
        page_or_default(q.page),
        page_size_or_default(q.page_size),
    );
    lemma_select(rows, keep);
    lemma_select_ids(rows, keep, 0);
    lemma_select_stamps(rows, keep, clock);
    lemma_reverse_newest_first(all, clock);
    lemma_page_len(
        all.reverse(),
        page_or_default(q.page),
        page_size_or_default(q.page_size),
    );
    assert forall|k: int| 0 <= k < page.len() implies keep(#[trigger] page[k]) && rows.contains(
        page[k],
    ) by {
        assert(page[k] == all[all.len() - 1 - (from + k)]);
    }
}

/// The criteria of a listing of rows `R` that is scoped to `scope` and asked
/// for `q`.
pub fn make_criteria<R: Listed>(scope: Vec<i32>, q: &ListQueryParams) -> (c: Criteria)
    ensures
        c@ == criteria_of::<R>(scope@, *q),
{
    Criteria {
        scope,
        columns: R::searched_columns(),
        search: match &q.search {
            Some(t) => Some(chars_of(t.as_str())),
            None => None,
        },
        start: q.start_time,
        end: q.end_time,
    }
}

/// Lists `rows`: counts the rows that meet the criteria and cuts the asked
/// page out of them, newest first.
pub fn list_page<R: Listed>(rows: &Vec<R>, scope: Vec<i32>, q: &ListQueryParams) -> (r: (
    u64,
    Vec<R>,
))
    ensures
        (r.0 as nat, r.1@) == listing(rows@, scope@, *q),
{
    let c = make_criteria::<R>(scope, q);
    let all = matching(rows, &c);
    let total: u64 = all.len() as u64;
    let data = take_page_desc(all, q.page_number(), q.rows_per_page());
    (total, data)
}

/// A table stays in order when a row with the next id, stamped with the
/// clock, is added at its end.
pub proof fn lemma_push_row<R: Row>(rows: Seq<R>, last: i32, row: R)
    requires
        ids_increasing(rows),
        ids_within(rows, last),
        0 <= last < i32::MAX,
        row.key() == last + 1,
    ensures
        ids_increasing(rows.push(row)),
        ids_within(rows.push(row), (last + 1) as i32),
        !has_id(rows, row.key()),
{
    let next = rows.push(row);
    assert forall|i: int, j: int| 0 <= i < j < next.len() implies next[i].key()
        < next[j].key() by {
        if j < rows.len() {
            assert(rows[i].key() < rows[j].key());
        } else {
            assert(1 <= rows[i].key() <= last);
        }
    }
    assert forall|i: int| 0 <= i < next.len() implies 1 <= (#[trigger] next[i]).key() <= last
        + 1 by {
        if i < rows.len() {
            assert(next[i] == rows[i]);
            assert(1 <= rows[i].key() <= last);
        } else {
            assert(next[i] == row);
            assert(next[i].key() == last + 1);
        }
    }
    if has_id(rows, row.key()) {
        let i = index_of(rows, row.key());
        assert(1 <= rows[i].key() <= last);
    }
}

/// Creation times stay in order when a row stamped with the clock is added
/// at the end.
pub proof fn lemma_push_stamp<R: Listed>(rows: Seq<R>, clock: i64, row: R)
    requires
        stamps_sorted(rows, clock),
        row.stamp() == clock,
    ensures
        stamps_sorted(rows.push(row), clock),
{
    let next = rows.push(row);
    assert forall|i: int, j: int| 0 <= i < j < next.len() implies next[i].stamp()
        <= next[j].stamp() by {
        if j < rows.len() {
            assert(rows[i].stamp() <= rows[j].stamp());
        } else {
            assert(rows[i].stamp() <= clock);
        }
    }
    assert forall|i: int| 0 <= i < next.len() implies (#[trigger] next[i]).stamp() <= clock by {
        if i < rows.len() {
            assert(rows[i].stamp() <= clock);
        }
    }
}

/// Every row still has its parent when a child of an existing parent is
/// added.
pub proof fn lemma_push_child<R: Owned, P: Row>(rows: Seq<R>, parents: Seq<P>, row: R)
    requires
        parents_exist(rows, parents),
        has_id(parents, row.parent()),
    ensures
        parents_exist(rows.push(row), parents),
{
    let next = rows.push(row);
    assert forall|i: int| 0 <= i < next.len() implies has_id(
        parents,
        (#[trigger] next[i]).parent(),
    ) by {
        if i < rows.len() {
            assert(has_id(parents, rows[i].parent()));
        }
    }
}

/// Children keep their parents when the parents' table grows.
pub proof fn lemma_push_parent<R: Owned, P: Row>(rows: Seq<R>, parents: Seq<P>, parent: P)
    requires
        parents_exist(rows, parents),
    ensures
        parents_exist(rows, parents.push(parent)),
{
    let more = parents.push(parent);
    assert forall|i: int| 0 <= i < rows.len() implies has_id(
        more,
        (#[trigger] rows[i]).parent(),
    ) by {
        assert(has_id(parents, rows[i].parent()));
        let k = index_of(parents, rows[i].parent());
        assert(more[k].key() == rows[i].parent());
    }
}

/// Replacing a row by one with the same id changes no id.
pub proof fn lemma_update_row<R: Row>(rows: Seq<R>, last: i32, i: int, row: R)
    requires
        ids_increasing(rows),
        ids_within(rows, last),
        0 <= i < rows.len(),
        row.key() == rows[i].key(),
    ensures
        ids_increasing(rows.update(i, row)),
        ids_within(rows.update(i, row), last),
        forall|id: i32| has_id(rows.update(i, row), id) <==> has_id(rows, id),
        forall|id: i32|
            has_id(rows, id) ==> index_of(rows.update(i, row), id) == index_of(rows, id),
{
    let next = rows.update(i, row);
    assert forall|a: int, b: int| 0 <= a < b < next.len() implies next[a].key()
        < next[b].key() by {
        assert(rows[a].key() < rows[b].key());
    }
    assert forall|a: int| 0 <= a < next.len() implies 1 <= (#[trigger] next[a]).key()
        <= last by {
        assert(1 <= rows[a].key() <= last);
    }
    assert forall|id: i32| has_id(next, id) <==> has_id(rows, id) by {
        if has_id(next, id) {
            let k = index_of(next, id);
            assert(rows[k].key() == id);
        }
        if has_id(rows, id) {
            let k = index_of(rows, id);
            assert(next[k].key() == id);
        }
    }
    assert forall|id: i32| has_id(rows, id) implies index_of(next, id) == index_of(rows, id) by {
        let k = index_of(rows, id);
        assert(next[k].key() == id);
        lemma_index_of(next, k);
    }
}

/// Replacing a row by one with the same creation time keeps the times in
/// order.
pub proof fn lemma_update_stamp<R: Listed>(rows: Seq<R>, clock: i64, i: int, row: R)
    requires
        stamps_sorted(rows, clock),
        0 <= i < rows.len(),
        row.stamp() == rows[i].stamp(),
    ensures
        stamps_sorted(rows.update(i, row), clock),
{
    let next = rows.update(i, row);
    assert forall|a: int, b: int| 0 <= a < b < next.len() implies next[a].stamp()
        <= next[b].stamp() by {
        assert(rows[a].stamp() <= rows[b].stamp());
    }
    assert forall|a: int| 0 <= a < next.len() implies (#[trigger] next[a]).stamp() <= clock by {
        assert(rows[a].stamp() <= clock);
    }
}

/// Replacing a row by one with the same parent leaves every row with its
/// parent.
pub proof fn lemma_update_child<R: Owned, P: Row>(rows: Seq<R>, parents: Seq<P>, i: int, row: R)
    requires
        parents_exist(rows, parents),
        0 <= i < rows.len(),
        row.parent() == rows[i].parent(),
    ensures
        parents_exist(rows.update(i, row), parents),
{
    let next = rows.update(i, row);
    assert forall|a: int| 0 <= a < next.len() implies has_id(
        parents,
        (#[trigger] next[a]).parent(),
    ) by {
        assert(has_id(parents, rows[a].parent()));
    }
}

/// Children keep their parents when a parent is replaced by a row with the
/// same id.
pub proof fn lemma_update_parent<R: Owned, P: Row>(
    rows: Seq<R>,
    parents: Seq<P>,
    i: int,
    parent: P,
)
    requires
        parents_exist(rows, parents),
        0 <= i < parents.len(),
        parent.key() == parents[i].key(),
    ensures
        parents_exist(rows, parents.update(i, parent)),
{
    let next = parents.update(i, parent);
    assert forall|a: int| 0 <= a < rows.len() implies has_id(
        next,
        (#[trigger] rows[a]).parent(),
    ) by {
        assert(has_id(parents, rows[a].parent()));
        let k = index_of(parents, rows[a].parent());
        assert(next[k].key() == rows[a].parent());
    }
}

/// Taking a row out leaves the others in order.
pub proof fn lemma_remove_row<R: Row>(rows: Seq<R>, last: i32, i: int)
    requires
        ids_increasing(rows),
        ids_within(rows, last),
        0 <= i < rows.len(),
    ensures
        ids_increasing(rows.remove(i)),
        ids_within(rows.remove(i), last),
        forall|id: i32| has_id(rows.remove(i), id) <==> has_id(rows, id) && id != rows[i].key(),
{
    let next = rows.remove(i);
    assert forall|a: int, b: int| 0 <= a < b < next.len() implies next[a].key()
        < next[b].key() by {
        let x = if a < i { a } else { a + 1 };
        let y = if b < i { b } else { b + 1 };
        assert(rows[x].key() < rows[y].key());
    }
    assert forall|a: int| 0 <= a < next.len() implies 1 <= (#[trigger] next[a]).key()
        <= last by {
        let x = if a < i { a } else { a + 1 };
        assert(1 <= rows[x].key() <= last);
    }
    assert forall|id: i32| has_id(next, id) <==> has_id(rows, id) && id != rows[i].key() by {
        if has_id(next, id) {
            let a = index_of(next, id);
            let x = if a < i { a } else { a + 1 };
            assert(rows[x].key() == id);
            if x < i {
                assert(rows[x].key() < rows[i].key());
            } else {
                assert(rows[i].key() < rows[x].key());
            }
        }
        if has_id(rows, id) && id != rows[i].key() {
            let x = index_of(rows, id);
            let a = if x < i { x } else { x - 1 };
            assert(next[a].key() == id);
        }
    }
}

/// Taking a row out leaves the creation times in order.
pub proof fn lemma_remove_stamp<R: Listed>(rows: Seq<R>, clock: i64, i: int)
    requires
        stamps_sorted(rows, clock),
        0 <= i < rows.len(),
    ensures
        stamps_sorted(rows.remove(i), clock),
{
    let next = rows.remove(i);
    assert forall|a: int, b: int| 0 <= a < b < next.len() implies next[a].stamp()
        <= next[b].stamp() by {
        let x = if a < i { a } else { a + 1 };
        let y = if b < i { b } else { b + 1 };
        assert(rows[x].stamp() <= rows[y].stamp());
    }
    assert forall|a: int| 0 <= a < next.len() implies (#[trigger] next[a]).stamp() <= clock by {
        let x = if a < i { a } else { a + 1 };
        assert(rows[x].stamp() <= clock);
    }
}

/// Taking a row out leaves every other row with its parent.
pub proof fn lemma_remove_child<R: Owned, P: Row>(rows: Seq<R>, parents: Seq<P>, i: int)
    requires
        parents_exist(rows, parents),
        0 <= i < rows.len(),
    ensures
        parents_exist(rows.remove(i), parents),
{
    let next = rows.remove(i);
    assert forall|a: int| 0 <= a < next.len() implies has_id(
        parents,
        (#[trigger] next[a]).parent(),
    ) by {
        let x = if a < i { a } else { a + 1 };
        assert(has_id(parents, rows[x].parent()));
    }
}

/// The children of the parents that stay keep their parents, when the
/// parents in `gone` leave and their children with them.
pub proof fn lemma_cascade<R: Owned, P: Row>(
    rows: Seq<R>,
    parents: Seq<P>,
    left: Seq<P>,
    gone: Seq<i32>,
)
    requires
        parents_exist(rows, parents),
        forall|id: i32| has_id(parents, id) && !gone.contains(id) ==> has_id(left, id),
    ensures
        parents_exist(select(rows, not_child_of(gone)), left),
{
    let kept = select(rows, not_child_of::<R>(gone));
    lemma_select(rows, not_child_of::<R>(gone));
    assert forall|a: int| 0 <= a < kept.len() implies has_id(
        left,
        (#[trigger] kept[a]).parent(),
    ) by {
        assert(rows.contains(kept[a]));
        let w = choose|w: int| 0 <= w < rows.len() && rows[w] == kept[a];
        assert(has_id(parents, rows[w].parent()));
        assert(not_child_of::<R>(gone)(kept[a]));
    }
}

/// The scope of `owners` names exactly the rows that belong to one of them.
pub proof fn lemma_scope_of<R: Owned>(rows: Seq<R>, owners: Seq<i32>)
    requires
        ids_increasing(rows),
    ensures
        forall|id: i32|
            scope_of(rows, owners).contains(id) <==> has_id(rows, id) && owners.contains(
                row_with(rows, id).parent(),
            ),
{
    let keep = child_of::<R>(owners);
    let sel = select(rows, keep);
    lemma_select_ids(rows, keep, 0);
    assert forall|id: i32| scope_of(rows, owners).contains(id) <==> has_id(rows, id)
        && owners.contains(row_with(rows, id).parent()) by {
        if scope_of(rows, owners).contains(id) {
            let k = choose|k: int| 0 <= k < keys(sel).len() && keys(sel)[k] == id;
            assert(sel[k].key() == id);
            assert(has_id(sel, id));
        }
        if has_id(rows, id) && owners.contains(row_with(rows, id).parent()) {
            assert(keep(row_with(rows, id)));
            assert(has_id(sel, id));
            let k = index_of(sel, id);
            assert(keys(sel)[k] == id);
        }
    }
}

/// A row that belongs to none of `gone` stays when their children leave.
pub proof fn lemma_split<R: Owned>(rows: Seq<R>, gone: Seq<i32>)
    requires
        ids_increasing(rows),
    ensures
        forall|id: i32|
            has_id(rows, id) && !scope_of(rows, gone).contains(id) ==> has_id(
                select(rows, not_child_of(gone)),
                id,
            ),
        forall|id: i32|
            has_id(select(rows, not_child_of::<R>(gone)), id) ==> has_id(rows, id)
                && !scope_of(rows, gone).contains(id),
{
    lemma_scope_of(rows, gone);
    lemma_select_ids(rows, not_child_of::<R>(gone), 0);
}

/// A table stays in order when rows with the next ids, all children of
/// existing parents, are added at its end.
pub proof fn lemma_append_rows<R: Owned, P: Row>(
    rows: Seq<R>,
    last: i32,
    more: Seq<R>,
    parents: Seq<P>,
)
    requires
        ids_increasing(rows),
        ids_within(rows, last),
        0 <= last,
        last + more.len() <= i32::MAX,
        forall|k: int| 0 <= k < more.len() ==> (#[trigger] more[k]).key() == last + 1 + k,
        parents_exist(rows, parents),
        forall|k: int| 0 <= k < more.len() ==> has_id(parents, (#[trigger] more[k]).parent()),
    ensures
        ids_increasing(rows + more),
        ids_within(rows + more, (last + more.len()) as i32),
        parents_exist(rows + more, parents),
{
    let next = rows + more;
    assert forall|i: int, j: int| 0 <= i < j < next.len() implies next[i].key()
        < next[j].key() by {
        if j < rows.len() {
            assert(rows[i].key() < rows[j].key());
        } else if i < rows.len() {
            assert(1 <= rows[i].key() <= last);
            assert(next[j] == more[j - rows.len()]);
        } else {
            assert(next[i] == more[i - rows.len()]);
            assert(next[j] == more[j - rows.len()]);
        }
    }
    assert forall|i: int| 0 <= i < next.len() implies 1 <= (#[trigger] next[i]).key() <= last
        + more.len() by {
        if i < rows.len() {
            assert(1 <= rows[i].key() <= last);
        } else {
            assert(next[i] == more[i - rows.len()]);
        }
    }
    assert forall|i: int| 0 <= i < next.len() implies has_id(
        parents,
        (#[trigger] next[i]).parent(),
    ) by {
        if i < rows.len() {
            assert(has_id(parents, rows[i].parent()));
        } else {
            assert(next[i] == more[i - rows.len()]);
        }
    }
}

/// Selecting from two tables laid end to end selects from each.
pub proof fn lemma_select_append<R>(a: Seq<R>, b: Seq<R>, keep: spec_fn(R) -> bool)
    ensures
        select(a + b, keep) == select(a, keep) + select(b, keep),
    decreases b.len(),
{
    if b.len() == 0 {
        assert(a + b =~= a);
        assert(select(a, keep) + select(b, keep) =~= select(a, keep));
    } else {
        assert((a + b).drop_last() =~= a + b.drop_last());
        assert((a + b).last() == b.last());
        lemma_select_append(a, b.drop_last(), keep);
        if keep(b.last()) {
            assert(select(a, keep) + select(b.drop_last(), keep).push(b.last()) =~= (select(
                a,
                keep,
            ) + select(b.drop_last(), keep)).push(b.last()));
        }
    }
}

/// A selection that accepts every row is the table; one that accepts none
/// is empty.
pub proof fn lemma_select_all_or_none<R>(rows: Seq<R>, keep: spec_fn(R) -> bool)
    ensures
        (forall|i: int| 0 <= i < rows.len() ==> keep(#[trigger] rows[i])) ==> select(rows, keep)
            == rows,
        (forall|i: int| 0 <= i < rows.len() ==> !keep(#[trigger] rows[i])) ==> select(rows, keep)
            == Seq::<R>::empty(),
    decreases rows.len(),
{
    if rows.len() > 0 {
        let init = rows.drop_last();
        lemma_select_all_or_none(init, keep);
        if forall|i: int| 0 <= i < rows.len() ==> keep(#[trigger] rows[i]) {
            assert forall|i: int| 0 <= i < init.len() implies keep(#[trigger] init[i]) by {
                assert(init[i] == rows[i]);
            }
            assert(keep(rows[rows.len() - 1]));
            assert(select(rows, keep) =~= rows);
        }
        if forall|i: int| 0 <= i < rows.len() ==> !keep(#[trigger] rows[i]) {
            assert forall|i: int| 0 <= i < init.len() implies !keep(#[trigger] init[i]) by {
                assert(init[i] == rows[i]);
            }
            assert(!keep(rows[rows.len() - 1]));
        }
    }
}

/// The rows added for a new parent are its children, and all of them: no
/// row that was there before belongs to a parent that did not exist.
pub proof fn lemma_children_of_new_parent<R: Owned, P: Row>(
    rows: Seq<R>,
    more: Seq<R>,
    parents: Seq<P>,
    parent: i32,
)
    requires
        parents_exist(rows, parents),
        !has_id(parents, parent),
        forall|k: int| 0 <= k < more.len() ==> (#[trigger] more[k]).parent() == parent,
    ensures
        select(rows + more, child_of::<R>(seq![parent])) == more,
{
    let keep = child_of::<R>(seq![parent]);
    lemma_select_append(rows, more, keep);
    lemma_select_all_or_none(rows, keep);
    lemma_select_all_or_none(more, keep);
    assert forall|i: int| 0 <= i < rows.len() implies !keep(#[trigger] rows[i]) by {
        assert(has_id(parents, rows[i].parent()));
        if seq![parent].contains(rows[i].parent()) {
            let k = choose|k: int| 0 <= k < 1 && seq![parent][k] == rows[i].parent();
        }
    }
    assert forall|k: int| 0 <= k < more.len() implies keep(#[trigger] more[k]) by {
        assert(seq![parent][0] == parent);
    }
    assert(Seq::<R>::empty() + more =~= more);
}

/// Two tests that agree on every row select the same rows.
pub proof fn lemma_select_agree<R>(rows: Seq<R>, p: spec_fn(R) -> bool, q: spec_fn(R) -> bool)
    requires
        forall|i: int| 0 <= i < rows.len() ==> p(#[trigger] rows[i]) == q(rows[i]),
    ensures
        select(rows, p) == select(rows, q),
    decreases rows.len(),
{
    if rows.len() > 0 {
        let init = rows.drop_last();
        assert forall|i: int| 0 <= i < init.len() implies p(#[trigger] init[i]) == q(init[i]) by {
            assert(init[i] == rows[i]);
        }
        lemma_select_agree(init, p, q);
        assert(p(rows[rows.len() - 1]) == q(rows[rows.len() - 1]));
    }
}

/// A row that `then` accepts only if `first` does is selected by `then`
/// whether or not `first` has selected before.
pub proof fn lemma_select_twice<R>(
    rows: Seq<R>,
    first: spec_fn(R) -> bool,
    then: spec_fn(R) -> bool,
)
    requires
        forall|i: int| 0 <= i < rows.len() && then(#[trigger] rows[i]) ==> first(rows[i]),
    ensures
        select(select(rows, first), then) == select(rows, then),
    decreases rows.len(),
{
    if rows.len() > 0 {
        let init = rows.drop_last();
        let last = rows.last();
        assert forall|i: int| 0 <= i < init.len() && then(#[trigger] init[i]) implies first(
            init[i],
        ) by {
            assert(init[i] == rows[i]);
        }
        lemma_select_twice(init, first, then);
        assert(then(rows[rows.len() - 1]) ==> first(rows[rows.len() - 1]));
        if first(last) {
            assert(select(rows, first).drop_last() =~= select(init, first));
        }
    }
}

/// The children of a parent that stays are the same before and after the
/// children of the parents in `gone` have left.
pub proof fn lemma_children_stay<R: Owned>(rows: Seq<R>, gone: Seq<i32>, parent: i32)
    requires
        !gone.contains(parent),
    ensures
        select(select(rows, not_child_of::<R>(gone)), child_of::<R>(seq![parent])) == select(
            rows,
            child_of::<R>(seq![parent]),
        ),
{
    assert forall|i: int|
        0 <= i < rows.len() && child_of::<R>(seq![parent])(
            #[trigger] rows[i],
        ) implies not_child_of::<R>(gone)(rows[i]) by {
        let j = choose|j: int| 0 <= j < 1 && seq![parent][j] == rows[i].parent();
    }
    lemma_select_twice(rows, not_child_of::<R>(gone), child_of::<R>(seq![parent]));
}

/// The children of an old parent are the same before and after rows have
/// been added for another parent.
pub proof fn lemma_children_of_old_parent<R: Owned>(
    rows: Seq<R>,
    more: Seq<R>,
    added: i32,
    parent: i32,
)
    requires
        parent != added,
        forall|k: int| 0 <= k < more.len() ==> (#[trigger] more[k]).parent() == added,
    ensures
        select(rows + more, child_of::<R>(seq![parent])) == select(
            rows,
            child_of::<R>(seq![parent]),
        ),
{
    let keep = child_of::<R>(seq![parent]);
    lemma_select_append(rows, more, keep);
    lemma_select_all_or_none(more, keep);
    assert forall|k: int| 0 <= k < more.len() implies !keep(#[trigger] more[k]) by {
        if seq![parent].contains(more[k].parent()) {
            let j = choose|j: int| 0 <= j < 1 && seq![parent][j] == more[k].parent();
        }
    }
    assert(select(rows, keep) + Seq::<R>::empty() =~= select(rows, keep));
}

} // verus!
