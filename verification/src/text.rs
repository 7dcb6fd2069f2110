//! Text helpers: substring search and the decimal integers of query strings.

use vstd::prelude::*;

verus! {

/// `needle` stands in `hay` at position `i`.
pub open spec fn occurs_at(hay: Seq<char>, needle: Seq<char>, i: int) -> bool {
    0 <= i && i + needle.len() <= hay.len() && hay.subrange(i, i + needle.len()) == needle
}

/// `needle` is a contiguous part of `hay`; case matters.
pub open spec fn is_substring(hay: Seq<char>, needle: Seq<char>) -> bool {
    exists|i: int| occurs_at(hay, needle, i)
}

/// `c` is one of the ten decimal digits.
pub open spec fn is_digit(c: char) -> bool {
    '0' <= c && c <= '9'
}

/// The number that the digit `c` writes.
pub open spec fn digit_value(c: char) -> int {
    c as int - '0' as int
}

/// `s` holds decimal digits only.
pub open spec fn all_digits(s: Seq<char>) -> bool {
    forall|i: int| 0 <= i < s.len() ==> is_digit(#[trigger] s[i])
}

/// The number that a string of decimal digits writes.
pub open spec fn decimal_value(s: Seq<char>) -> int
    decreases s.len(),
{
    if s.len() == 0 {
        0
    } else {
        decimal_value(s.drop_last()) * 10 + digit_value(s.last())
    }
}

/// The number that `s` writes, if `s` is one or more decimal digits and the
/// number is at most `limit`.
pub open spec fn bounded_decimal(s: Seq<char>, limit: u64) -> Option<u64> {
    if s.len() > 0 && all_digits(s) && decimal_value(s) <= limit {
        Some(decimal_value(s) as u64)
    } else {
        None
    }
}

/// What `s` means as a `u64`: an optional `+`, then one or more decimal
/// digits, nothing else, and a value that fits.
pub open spec fn parse_u64_spec(s: Seq<char>) -> Option<u64> {
    if s.len() > 0 && s[0] == '+' {
        bounded_decimal(s.skip(1), u64::MAX)
    } else {
        bounded_decimal(s, u64::MAX)
    }
}

/// What `s` means as an `i32`: an optional `+` or `-`, then one or more
/// decimal digits, nothing else, and a value that fits.
pub open spec fn parse_i32_spec(s: Seq<char>) -> Option<i32> {
    if s.len() > 0 && s[0] == '-' {
        match bounded_decimal(s.skip(1), 2147483648) {
            Some(m) => Some((-(m as int)) as i32),
            None => None,
        }
    } else if s.len() > 0 && s[0] == '+' {
        match bounded_decimal(s.skip(1), 2147483647) {
            Some(m) => Some(m as i32),
            None => None,
        }
    } else {
        match bounded_decimal(s, 2147483647) {
            Some(m) => Some(m as i32),
            None => None,
        }
    }
}

/// The position of the first comma of `s`, or the length of `s` if it has none.
pub open spec fn first_comma(s: Seq<char>) -> nat
    decreases s.len(),
{
    if s.len() == 0 || s[0] == ',' {
        0
    } else {
        1 + first_comma(s.skip(1))
    }
}

/// The integers of a comma-separated list, in order; a part that is no `i32`
/// is left out.
pub open spec fn id_list(s: Seq<char>) -> Seq<i32>
    decreases s.len(),
{
    let k = first_comma(s) as int;
    let head = match parse_i32_spec(s.take(k)) {
        Some(v) => seq![v],
        None => Seq::<i32>::empty(),
    };
    if k >= s.len() {
        head
    } else {
        head + id_list(s.skip(k + 1))
    }
}

/// A string of digits writes a number that is not negative, and none of
/// its beginnings writes a larger one.
pub proof fn lemma_decimal_prefix(s: Seq<char>, k: int)
    requires
        all_digits(s),
        0 <= k <= s.len(),
    ensures
        0 <= decimal_value(s.take(k)) <= decimal_value(s),
    decreases s.len(),
{
    if s.len() == 0 {
        assert(s.take(k) =~= s);
    } else if k == s.len() {
        assert(s.take(k) =~= s);
        lemma_decimal_prefix(s.drop_last(), k - 1);
        assert(is_digit(s.last()));
    } else {
        assert(s.drop_last().take(k) =~= s.take(k));
        lemma_decimal_prefix(s.drop_last(), k);
        assert(s.drop_last().take(s.len() - 1) =~= s.drop_last());
        lemma_decimal_prefix(s.drop_last(), s.len() - 1);
        assert(is_digit(s.last()));
    }
}

/// The first comma stands where no comma stands before.
pub proof fn lemma_first_comma(s: Seq<char>, k: int)
    requires
        0 <= k <= s.len(),
        forall|i: int| 0 <= i < k ==> s[i] != ',',
        k < s.len() ==> s[k] == ',',
    ensures
        first_comma(s) == k,
    decreases s.len(),
{
    if k > 0 {
        lemma_first_comma(s.skip(1), k - 1);
    }
}

/// The characters of `s`, in order.
pub fn chars_of(s: &str) -> (v: Vec<char>)
    ensures
        v@ == s@,
{
    let mut v: Vec<char> = Vec::new();
    for c in it: s.chars()
        invariant
            v@ == it.seq().take(it.index() as int),
            it.seq() == s@,
    {
        v.push(c);
    }
    v
}

fn matches_at(hay: &Vec<char>, needle: &Vec<char>, i: usize) -> (r: bool)
    requires
        i + needle.len() <= hay.len(),
    ensures
        r == occurs_at(hay@, needle@, i as int),
{
    let mut j: usize = 0;
    while j < needle.len()
        invariant
            j <= needle.len(),
            i + needle.len() <= hay.len(),
            forall|k: int| 0 <= k < j ==> hay@[i + k] == needle@[k],
        decreases needle.len() - j,
    {
        if hay[i + j] != needle[j] {
            assert(hay@.subrange(i as int, i + needle.len())[j as int] == hay@[i + j]);
            return false;
        }
        j += 1;
    }
    assert(hay@.subrange(i as int, i + needle.len()) =~= needle@);
    true
}

/// Whether `needle` is a contiguous part of `hay`.
pub fn contains_chars(hay: &Vec<char>, needle: &Vec<char>) -> (r: bool)
    ensures
        r == is_substring(hay@, needle@),
{
    if needle.len() > hay.len() {
        return false;
    }
    let last: usize = hay.len() - needle.len();
    let mut i: usize = 0;
    loop
        invariant
            i <= last,
            last == hay.len() - needle.len(),
            forall|k: int| 0 <= k < i ==> !occurs_at(hay@, needle@, k),
        decreases last - i,
    {
        if matches_at(hay, needle, i) {
            return true;
        }
        if i == last {
            return false;
        }
        i += 1;
    }
}

/// Whether `needle` is a contiguous part of `hay`; case matters.
pub fn contains(hay: &str, needle: &str) -> (r: bool)
    ensures
        r == is_substring(hay@, needle@),
{
    let h = chars_of(hay);
    let n = chars_of(needle);
    contains_chars(&h, &n)
}

fn decimal_in(v: &Vec<char>, from: usize, to: usize, limit: u64) -> (r: Option<u64>)
    requires
        from <= to <= v.len(),
    ensures
        r == bounded_decimal(v@.subrange(from as int, to as int), limit),
        r matches Some(m) ==> m <= limit,
{
    let ghost s = v@.subrange(from as int, to as int);
    if from == to {
        return None;
    }
    let mut acc: u64 = 0;
    let mut i: usize = from;
    while i < to
        invariant
            from <= i <= to <= v.len(),
            s == v@.subrange(from as int, to as int),
            all_digits(s.take(i - from)),
            acc == decimal_value(s.take(i - from)),
            acc <= limit,
        decreases to - i,
    {
        let c = v[i];
        assert(s[i - from] == c);
        if !(c >= '0' && c <= '9') {
            return None;
        }
        let d: u128 = (c as u32 - '0' as u32) as u128;
        let next: u128 = acc as u128 * 10 + d;
        proof {
            let t = s.take(i - from + 1);
            assert(t.drop_last() =~= s.take(i - from));
            assert(t.last() == c);
            assert(decimal_value(t) == next);
            assert forall|k: int| 0 <= k < t.len() implies is_digit(#[trigger] t[k]) by {
                if k < i - from {
                    assert(s.take(i - from)[k] == t[k]);
                }
            }
            if all_digits(s) {
                lemma_decimal_prefix(s, i - from + 1);
            }
        }
        if next > limit as u128 {
            return None;
        }
        acc = next as u64;
        i += 1;
    }
    assert(s.take(to - from) =~= s);
    Some(acc)
}

/// Reads a `u64` as `str::parse` does.
pub fn parse_u64(s: &str) -> (r: Option<u64>)
    ensures
        r == parse_u64_spec(s@),
{
    let v = chars_of(s);
    if v.len() > 0 && v[0] == '+' {
        assert(v@.subrange(1, v.len() as int) =~= v@.skip(1));
        decimal_in(&v, 1, v.len(), u64::MAX)
    } else {
        assert(v@.subrange(0, v.len() as int) =~= v@);
        decimal_in(&v, 0, v.len(), u64::MAX)
    }
}

fn parse_i32_in(v: &Vec<char>, from: usize, to: usize) -> (r: Option<i32>)
    requires
        from <= to <= v.len(),
    ensures
        r == parse_i32_spec(v@.subrange(from as int, to as int)),
{
    let ghost s = v@.subrange(from as int, to as int);
    if from < to && v[from] == '-' {
        assert(s[0] == v@[from as int]);
        assert(v@.subrange(from + 1, to as int) =~= s.skip(1));
        match decimal_in(v, from + 1, to, 2147483648) {
            Some(m) => Some((0 - m as i64) as i32),
            None => None,
        }
    } else if from < to && v[from] == '+' {
        assert(s[0] == v@[from as int]);
        assert(v@.subrange(from + 1, to as int) =~= s.skip(1));
        match decimal_in(v, from + 1, to, 2147483647) {
            Some(m) => Some(m as i32),
            None => None,
        }
    } else {
        assert(from < to ==> s[0] == v@[from as int]);
        match decimal_in(v, from, to, 2147483647) {
            Some(m) => Some(m as i32),
            None => None,
        }
    }
}

/// Reads an `i32` as `str::parse` does.
pub fn parse_i32(s: &str) -> (r: Option<i32>)
    ensures
        r == parse_i32_spec(s@),
{
    let v = chars_of(s);
    assert(v@.subrange(0, v.len() as int) =~= v@);
    parse_i32_in(&v, 0, v.len())
}

/// Reads a comma-separated list of `i32`, leaving out the parts that are none.
pub fn parse_id_list(s: &str) -> (ids: Vec<i32>)
    ensures
        ids@ == id_list(s@),
{
    let v = chars_of(s);
    let mut ids: Vec<i32> = Vec::new();
    let mut start: usize = 0;
    assert(v@.skip(0) =~= v@);
    loop
        invariant_except_break
            start <= v.len(),
            id_list(v@) == ids@ + id_list(v@.skip(start as int)),
        ensures
            ids@ == id_list(v@),
        decreases v.len() - start,
    {
        let mut end: usize = start;
        while end < v.len() && v[end] != ','
            invariant
                start <= end <= v.len(),
                forall|k: int| start <= k < end ==> v@[k] != ',',
            decreases v.len() - end,
        {
            end += 1;
        }
        let ghost rest = v@.skip(start as int);
        proof {
            lemma_first_comma(rest, end - start);
            assert(rest.take(end - start) =~= v@.subrange(start as int, end as int));
        }
        let ghost before = ids@;
        match parse_i32_in(&v, start, end) {
            Some(id) => {
                ids.push(id);
                assert(ids@ =~= before + seq![id]);
            },
            None => {
                assert(ids@ =~= before + Seq::<i32>::empty());
            },
        }
        if end == v.len() {
            break;
        }
        proof {
            assert(rest.skip(end - start + 1) =~= v@.skip(end + 1));
        }
        start = end + 1;
    }
    ids
}

} // verus!
