//! The parameters that every listing accepts, and how a page is cut.

use vstd::prelude::*;

verus! {

/// What a listing can be asked for. A missing `page` is the first page, a
/// missing `page_size` is ten rows.
#[derive(Debug)]
pub struct ListQueryParams {
    /// Zero-based page number.
    pub page: Option<u64>,
    /// Rows per page.
    pub page_size: Option<u64>,
    /// Keep the rows whose text holds this; case matters.
    pub search: Option<String>,
    /// Keep the rows created after this moment.
    pub start_time: Option<i64>,
    /// Keep the rows created before this moment.
    pub end_time: Option<i64>,
}

/// One page of a listing and the number of rows in all its pages.
#[derive(Debug)]
pub struct ListResult<T> {
    pub total: u64,
    pub data: Vec<T>,
}

/// The asked page: the first where none is named.
pub open spec fn page_or_default(page: Option<u64>) -> nat {
    match page {
        Some(p) => p as nat,
        None => 0,
    }
}

/// The asked page size: ten rows where none is named.
pub open spec fn page_size_or_default(page_size: Option<u64>) -> nat {
    match page_size {
        Some(s) => s as nat,
        None => 10,
    }
}

/// Where page `page` begins among `n` rows.
pub open spec fn page_start(n: nat, page: nat, size: nat) -> nat {
    if page * size < n {
        page * size
    } else {
        n
    }
}

/// Where page `page` ends among `n` rows.
pub open spec fn page_end(n: nat, page: nat, size: nat) -> nat {
    if page_start(n, page, size) + size < n {
        page_start(n, page, size) + size
    } else {
        n
    }
}

/// Page `page` of `rows`, with `size` rows to a page.
pub open spec fn page_of<T>(rows: Seq<T>, page: nat, size: nat) -> Seq<T> {
    rows.subrange(
        page_start(rows.len(), page, size) as int,
        page_end(rows.len(), page, size) as int,
    )
}

/// The number of rows on page `page` of `n` rows:
/// the smaller of `size` and what is left after `page` full pages.
pub open spec fn page_len(n: nat, page: nat, size: nat) -> nat {
    let left: int = if n - page * size > 0 {
        n - page * size
    } else {
        0
    };
    if size <= left {
        size
    } else {
        left as nat
    }
}

/// The most rows that a store is asked to skip or to return at once.
pub const MAX_WINDOW: u64 = 0x7FFF_FFFF_FFFF_FFFF;

/// The rows to skip and the rows to take for page `page`, as a store that
/// counts rows in 63 bits is asked for them; `None` where the page begins
/// beyond what such a store can hold and is therefore empty.
pub open spec fn window_of(page: nat, size: nat) -> Option<(u64, u64)> {
    if page * size <= MAX_WINDOW {
        Some(
            (
                (page * size) as u64,
                if size <= MAX_WINDOW {
                    size as u64
                } else {
                    MAX_WINDOW
                },
            ),
        )
    } else {
        None
    }
}

/// Skipping and taking by the window of a page yields that page, of any
/// rows that fit the 63 bits; without a window the page is empty.
pub proof fn lemma_window<T>(rows: Seq<T>, page: nat, size: nat)
    requires
        rows.len() <= MAX_WINDOW,
    ensures
        match window_of(page, size) {
            Some((skip, take)) => page_of(rows, page, size) == rows.skip(
                if skip <= rows.len() {
                    skip as int
                } else {
                    rows.len() as int
                },
            ).take(
                if skip + take <= rows.len() {
                    take as int
                } else if skip <= rows.len() {
                    rows.len() - skip
                } else {
                    0
                },
            ),
            None => page_of(rows, page, size) == Seq::<T>::empty(),
        },
{
    match window_of(page, size) {
        Some((skip, take)) => {
            let from: int = if skip <= rows.len() {
                skip as int
            } else {
                rows.len() as int
            };
            let count: int = if skip + take <= rows.len() {
                take as int
            } else if skip <= rows.len() {
                rows.len() - skip
            } else {
                0
            };
            assert(page_of(rows, page, size) =~= rows.skip(from).take(count));
        },
        None => {
            assert(page_of(rows, page, size) =~= Seq::<T>::empty());
        },
    }
}

/// A page holds `min(size, max(0, n - page * size))` rows.
pub proof fn lemma_page_len<T>(rows: Seq<T>, page: nat, size: nat)
    ensures
        page_of(rows, page, size).len() == page_len(rows.len(), page, size),
        page_start(rows.len(), page, size) <= page_end(rows.len(), page, size) <= rows.len(),
{
}

impl Clone for ListQueryParams {
    fn clone(&self) -> (copy: Self)
        ensures
            copy == *self,
    {
        ListQueryParams {
            page: self.page,
            page_size: self.page_size,
            search: match &self.search {
                Some(t) => Some(t.clone()),
                None => None,
            },
            start_time: self.start_time,
            end_time: self.end_time,
        }
    }
}

impl ListQueryParams {
    /// The asked page: the first where none is named.
    pub fn page_number(&self) -> (page: u64)
        ensures
            page == page_or_default(self.page),
    {
        match self.page {
            Some(p) => p,
            None => 0,
        }
    }

    /// The asked page size: ten rows where none is named.
    pub fn rows_per_page(&self) -> (size: u64)
        ensures
            size == page_size_or_default(self.page_size),
    {
        match self.page_size {
            Some(s) => s,
            None => 10,
        }
    }

    /// The rows to skip and the rows to take for the asked page; `None`
    /// where the page is empty because it begins beyond what a store can
    /// hold.
    pub fn window(&self) -> (w: Option<(u64, u64)>)
        ensures
            w == window_of(page_or_default(self.page), page_size_or_default(self.page_size)),
    {
        let size: u64 = self.rows_per_page();
        match self.page_number().checked_mul(size) {
            Some(skip) => {
                if skip <= MAX_WINDOW {
                    Some((skip, if size <= MAX_WINDOW { size } else { MAX_WINDOW }))
                } else {
                    None
                }
            },
            None => None,
        }
    }

    /// The parameters of a request that names none.
    pub fn new() -> (q: ListQueryParams)
        ensures
            q.page == Some(0u64),
            q.page_size == Some(10u64),
            q.search is None,
            q.start_time is None,
            q.end_time is None,
    {
        ListQueryParams {
            page: Some(0),
            page_size: Some(10),
            search: None,
            start_time: None,
            end_time: None,
        }
    }
}

/// Cuts page `page` out of `all` read backwards: its last row comes first.
pub fn take_page_desc<T>(all: Vec<T>, page: u64, size: u64) -> (data: Vec<T>)
    ensures
        data@ == page_of(all@.reverse(), page as nat, size as nat),
{
    let mut all = all;
    let ghost rows = all@;
    let ghost desc = rows.reverse();
    let n: usize = all.len();
    let mut data: Vec<T> = Vec::new();
    let skip: usize = match page.checked_mul(size) {
        Some(offset) => if offset < n as u64 {
            offset as usize
        } else {
            n
        },
        None => n,
    };
    assert(skip == page_start(n as nat, page as nat, size as nat)) by (nonlinear_arith)
        requires
            skip == (if page * size < n { page * size } else { n as int }),
    ;
    all.truncate(n - skip);
    let mut taken: u64 = 0;
    while taken < size && all.len() > 0
        invariant
            rows.len() == n,
            desc == rows.reverse(),
            skip <= n,
            taken <= size,
            skip + taken <= n,
            all@ == rows.take(n - skip - taken),
            data@ == desc.subrange(skip as int, skip + taken),
        decreases all.len(),
    {
        let row = all.pop().unwrap();
        data.push(row);
        taken += 1;
        assert(all@ =~= rows.take(n - skip - taken));
        assert(data@ =~= desc.subrange(skip as int, skip + taken));
    }
    assert(skip + taken == page_end(n as nat, page as nat, size as nat));
    data
}

} // verus!
