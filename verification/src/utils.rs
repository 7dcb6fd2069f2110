//! Defaults of the list parameters, and how their values are read from a
//! query string.

use crate::text::{id_list, parse_id_list, parse_u64, parse_u64_spec};
use vstd::prelude::*;

verus! {

/// The page size used when a request names none: ten rows.
pub fn default_page_size() -> (size: Option<u64>)
    ensures
        size == Some(10u64),
{
    Some(10)
}

/// The page used when a request names none: the first one.
pub fn default_page() -> (page: Option<u64>)
    ensures
        page == Some(0u64),
{
    Some(0)
}

/// What the text of a page number or a page size means.
pub open spec fn option_u64_of(text: Option<String>) -> Option<u64> {
    match text {
        Some(t) => parse_u64_spec(t@),
        None => None,
    }
}

/// What the text of an id filter means.
pub open spec fn svc_of(text: Option<String>) -> Option<Seq<i32>> {
    match text {
        Some(t) => Some(id_list(t@)),
        None => None,
    }
}

/// Reads a page number or a page size: the number that the text writes, and
/// nothing where the text is absent or writes no `u64`.
pub fn parse_option_u64(text: Option<String>) -> (value: Option<u64>)
    ensures
        value == option_u64_of(text),
{
    match text {
        Some(t) => parse_u64(t.as_str()),
        None => None,
    }
}

/// Reads an id filter: the integers of a comma-separated list, in order,
/// without the parts that write no `i32`; nothing where the text is absent.
pub fn parse_svc(text: Option<String>) -> (ids: Option<Vec<i32>>)
    ensures
        match ids {
            Some(v) => svc_of(text) == Some(v@),
            None => svc_of(text) is None,
        },
{
    match text {
        Some(t) => Some(parse_id_list(t.as_str())),
        None => None,
    }
}

} // verus!
