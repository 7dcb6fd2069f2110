//! Statements: what a store is asked for, as plain values.
//!
//! A service that keeps its records elsewhere than in a
//! [`crate::database::Database`] asks its store what these values say. What
//! they mean is defined here on tables, and proved to be what the
//! repositories of this crate return.

use crate::query::{
    lemma_window, page_or_default, page_size_or_default, window_of, ListQueryParams, MAX_WINDOW,
};
use crate::table::{
    admits, criteria_of, has_id, ids_increasing, lemma_scope_of, lemma_select, lemma_select_agree,
    listing, mentions, row_with, scope_of, select, wanted_id, wanted_ids, Listed, Owned, TextColumn,
};
use vstd::prelude::*;

verus! {

/// Whose records a statement may touch.
#[derive(Debug, PartialEq, Eq)]
pub enum Scope {
    /// The records that belong to the user directly.
    Own { user_id: i32 },
    /// The records that belong to a boss or a staff member of the user;
    /// where `only` is given, to one of those that it names.
    Through { user_id: i32, only: Option<Vec<i32>> },
}

/// Finding one record: the one with the id `id`, if it lies in `scope`.
#[derive(Debug, PartialEq, Eq)]
pub struct Lookup {
    pub id: i32,
    pub scope: Scope,
}

/// Listing records: those in `scope` that hold `search` in one of `columns`
/// and were created after `start_time` and before `end_time`; of these,
/// newest first and of equal age the larger id first, `window.0` are skipped
/// and `window.1` taken. Without a window nothing is taken.
#[derive(Debug, PartialEq, Eq)]
pub struct Listing {
    pub scope: Scope,
    pub columns: Vec<TextColumn>,
    pub search: Option<String>,
    pub start_time: Option<i64>,
    pub end_time: Option<i64>,
    pub window: Option<(u64, u64)>,
}

impl Scope {
    /// A record that belongs to `owner` lies in this scope, which is of the
    /// user's own records.
    pub open spec fn admits_own(self, owner: i32) -> bool {
        self matches Scope::Own { user_id } && owner == user_id
    }

    /// A record that belongs to `owner`, a row of `owning`, lies in this
    /// scope, which is of the records of the user's bosses or staff.
    pub open spec fn admits_through<P: Owned>(self, owning: Seq<P>, owner: i32) -> bool {
        self matches Scope::Through { user_id, only } && has_id(owning, owner) && row_with(
            owning,
            owner,
        ).parent() == user_id && wanted_id(wanted_ids(only))(owner)
    }
}

impl Lookup {
    /// What the lookup finds among `rows`, the user's own records.
    pub open spec fn finds_own<R: Owned>(self, rows: Seq<R>) -> Option<R> {
        if has_id(rows, self.id) && self.scope.admits_own(row_with(rows, self.id).parent()) {
            Some(row_with(rows, self.id))
        } else {
            None
        }
    }

    /// What the lookup finds among `rows`, records of the rows of `owning`.
    pub open spec fn finds_through<R: Owned, P: Owned>(self, rows: Seq<R>, owning: Seq<P>) -> Option<
        R,
    > {
        if has_id(rows, self.id) && self.scope.admits_through(
            owning,
            row_with(rows, self.id).parent(),
        ) {
            Some(row_with(rows, self.id))
        } else {
            None
        }
    }

    /// The lookup of the record `id` among the user's own.
    pub fn own(user_id: i32, id: i32) -> (l: Lookup)
        ensures
            l == (Lookup { id, scope: Scope::Own { user_id } }),
    {
        Lookup { id, scope: Scope::Own { user_id } }
    }

    /// The lookup of the record `id` among those of the user's bosses or
    /// staff.
    pub fn through(user_id: i32, id: i32) -> (l: Lookup)
        ensures
            l == (Lookup { id, scope: Scope::Through { user_id, only: None } }),
    {
        Lookup { id, scope: Scope::Through { user_id, only: None } }
    }
}

impl Listing {
    /// The listing keeps `row`, apart from its scope.
    pub open spec fn keeps<R: Listed>(self, row: R) -> bool {
        &&& self.search matches Some(t) ==> mentions(row, self.columns@, t@)
        &&& self.start_time matches Some(a) ==> row.stamp() > a
        &&& self.end_time matches Some(b) ==> row.stamp() < b
    }

    /// Accepts the user's own records that the listing keeps.
    pub open spec fn keeps_own<R: Listed>(self) -> spec_fn(R) -> bool {
        |row: R| self.scope.admits_own(row.parent()) && self.keeps(row)
    }

    /// Accepts the records of the rows of `owning` that the listing keeps.
    pub open spec fn keeps_through<R: Listed, P: Owned>(self, owning: Seq<P>) -> spec_fn(
        R,
    ) -> bool {
        |row: R| self.scope.admits_through(owning, row.parent()) && self.keeps(row)
    }

    /// What the listing shows of the rows `kept`, which stand oldest first:
    /// how many there are, and those in the window when the newest comes
    /// first.
    pub open spec fn shows<R>(self, kept: Seq<R>) -> (nat, Seq<R>) {
        (
            kept.len(),
            match self.window {
                Some((skip, take)) => kept.reverse().skip(
                    if skip <= kept.len() {
                        skip as int
                    } else {
                        kept.len() as int
                    },
                ).take(
                    if skip + take <= kept.len() {
                        take as int
                    } else if skip <= kept.len() {
                        kept.len() - skip
                    } else {
                        0
                    },
                ),
                None => Seq::empty(),
            },
        )
    }

    /// Whether this is the listing of rows `R` in `scope` that is asked for
    /// `q`.
    pub open spec fn is_for<R: Listed>(self, scope: Scope, q: ListQueryParams) -> bool {
        &&& self.scope == scope
        &&& self.columns@ == R::searched()
        &&& self.search == q.search
        &&& self.start_time == q.start_time
        &&& self.end_time == q.end_time
        &&& self.window == window_of(page_or_default(q.page), page_size_or_default(q.page_size))
    }

    /// The listing of rows `R` in `scope` that is asked for `q`.
    pub fn new<R: Listed>(scope: Scope, q: &ListQueryParams) -> (l: Listing)
        ensures
            l.is_for::<R>(scope, *q),
    {
        Listing {
            scope,
            columns: R::searched_columns(),
            search: match &q.search {
                Some(t) => Some(t.clone()),
                None => None,
            },
            start_time: q.start_time,
            end_time: q.end_time,
            window: q.window(),
        }
    }
}

/// A listing of the user's own records shows what the repository lists.
pub proof fn lemma_listing_own<R: Listed>(
    l: Listing,
    rows: Seq<R>,
    user_id: i32,
    q: ListQueryParams,
)
    requires
        l.is_for::<R>(Scope::Own { user_id }, q),
        rows.len() <= MAX_WINDOW,
    ensures
        l.shows(select(rows, l.keeps_own::<R>())) == listing(rows, seq![user_id], q),
{
    let keep = admits::<R>(criteria_of::<R>(seq![user_id], q));
    assert forall|i: int| 0 <= i < rows.len() implies l.keeps_own::<R>()(#[trigger] rows[i])
        == keep(rows[i]) by {
        let owner = rows[i].parent();
        assert(seq![user_id][0] == user_id);
        if seq![user_id].contains(owner) {
            let j = choose|j: int| 0 <= j < 1 && seq![user_id][j] == owner;
        }
    }
    lemma_select_agree(rows, l.keeps_own::<R>(), keep);
    lemma_select(rows, keep);
    lemma_window(
        select(rows, keep).reverse(),
        page_or_default(q.page),
        page_size_or_default(q.page_size),
    );
}

/// A listing of the records of the user's bosses or staff shows what the
/// repository lists.
pub proof fn lemma_listing_through<R: Listed, P: Owned>(
    l: Listing,
    rows: Seq<R>,
    owning: Seq<P>,
    user_id: i32,
    only: Option<Vec<i32>>,
    q: ListQueryParams,
)
    requires
        l.is_for::<R>(Scope::Through { user_id, only }, q),
        ids_increasing(owning),
        rows.len() <= MAX_WINDOW,
    ensures
        l.shows(select(rows, l.keeps_through::<R, P>(owning))) == listing(
            rows,
            select(scope_of(owning, seq![user_id]), wanted_id(wanted_ids(only))),
            q,
        ),
{
    let own = scope_of(owning, seq![user_id]);
    let scope = select(own, wanted_id(wanted_ids(only)));
    let keep = admits::<R>(criteria_of::<R>(scope, q));
    lemma_scope_of(owning, seq![user_id]);
    lemma_select(own, wanted_id(wanted_ids(only)));
    assert forall|i: int|
        0 <= i < rows.len() implies l.keeps_through::<R, P>(owning)(#[trigger] rows[i]) == keep(
        rows[i],
    ) by {
        let owner = rows[i].parent();
        assert(seq![user_id][0] == user_id);
        assert(own.contains(owner) <==> has_id(owning, owner) && seq![user_id].contains(
            row_with(owning, owner).parent(),
        ));
        if scope.contains(owner) {
            let j = choose|j: int| 0 <= j < scope.len() && scope[j] == owner;
            assert(wanted_id(wanted_ids(only))(scope[j]));
            assert(own.contains(scope[j]));
            assert(own.contains(owner));
            assert(seq![user_id].contains(row_with(owning, owner).parent()));
            let u = choose|u: int|
                0 <= u < 1 && seq![user_id][u] == row_with(owning, owner).parent();
            assert(l.scope.admits_through(owning, owner));
        }
        if l.scope.admits_through(owning, owner) {
            assert(seq![user_id].contains(row_with(owning, owner).parent()));
            assert(own.contains(owner));
            let w = choose|w: int| 0 <= w < own.len() && own[w] == owner;
            assert(wanted_id(wanted_ids(only))(own[w]));
            assert(scope.contains(own[w]));
        }
    }
    lemma_select_agree(rows, l.keeps_through::<R, P>(owning), keep);
    lemma_select(rows, keep);
    lemma_window(
        select(rows, keep).reverse(),
        page_or_default(q.page),
        page_size_or_default(q.page_size),
    );
}

} // verus!
