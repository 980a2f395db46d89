//! `key: value` replies: the Flipper's CLI answers `device_info`,
//! `storage info` and `storage stat` with one pair per line.

use vstd::prelude::*;
use crate::text::{find_char, line_ranges, lines, pieces, range_is, ranges_within, split_once, trim, trim_range};

verus! {

/// The pair on one line: the text before and after its first `:`, both
/// trimmed.  A line without `:` holds no pair.
pub open spec fn line_kv(line: Seq<char>) -> Option<(Seq<char>, Seq<char>)> {
    match split_once(line, ':') {
        Some((k, v)) => Some((trim(k), trim(v))),
        None => None,
    }
}

/// The pairs of a sequence of lines, in order.
pub open spec fn kv_list(ls: Seq<Seq<char>>) -> Seq<(Seq<char>, Seq<char>)>
    decreases ls.len(),
{
    if ls.len() == 0 {
        seq![]
    } else {
        let rest = kv_list(ls.drop_last());
        match line_kv(ls.last()) {
            Some(kv) => rest.push(kv),
            None => rest,
        }
    }
}

/// The pairs of a reply, line by line.
pub open spec fn key_values(s: Seq<char>) -> Seq<(Seq<char>, Seq<char>)> {
    kv_list(lines(s))
}

/// The value of the last pair whose key is `k1` or `k2`.
pub open spec fn last_value_either(
    kvs: Seq<(Seq<char>, Seq<char>)>,
    k1: Seq<char>,
    k2: Seq<char>,
) -> Option<Seq<char>>
    decreases kvs.len(),
{
    if kvs.len() == 0 {
        None
    } else if kvs.last().0 == k1 || kvs.last().0 == k2 {
        Some(kvs.last().1)
    } else {
        last_value_either(kvs.drop_last(), k1, k2)
    }
}

/// The value of the last pair whose key is `k`: later lines override
/// earlier ones.
pub open spec fn last_value(kvs: Seq<(Seq<char>, Seq<char>)>, k: Seq<char>) -> Option<Seq<char>> {
    last_value_either(kvs, k, k)
}

/// The pairs that `r` delimits in `cs`: key bounds, then value bounds.
pub open spec fn kv_pieces(cs: Seq<char>, r: Seq<(usize, usize, usize, usize)>) -> Seq<
    (Seq<char>, Seq<char>),
> {
    Seq::new(
        r.len(),
        |i: int|
            (
                cs.subrange(r[i].0 as int, r[i].1 as int),
                cs.subrange(r[i].2 as int, r[i].3 as int),
            ),
    )
}

/// Every bound lies inside a text of length `n`.
pub open spec fn kv_within(r: Seq<(usize, usize, usize, usize)>, n: int) -> bool {
    forall|i: int|
        0 <= i < r.len() ==> #[trigger] r[i].0 <= r[i].1 <= n && r[i].2 <= r[i].3 <= n
}

/// The pairs of the text `cs`, as bounds.
pub fn kv_ranges(cs: &Vec<char>) -> (r: Vec<(usize, usize, usize, usize)>)
    ensures
        kv_within(r@, cs.len() as int),
        kv_pieces(cs@, r@) == key_values(cs@),
{
    let ls = line_ranges(cs);
    let ghost all = lines(cs@);
    let mut r: Vec<(usize, usize, usize, usize)> = Vec::new();
    let mut i: usize = 0;
    while i < ls.len()
        invariant
            i <= ls.len(),
            ranges_within(ls@, 0, cs.len() as int),
            pieces(cs@, ls@) == all,
            all == lines(cs@),
            kv_within(r@, cs.len() as int),
            kv_pieces(cs@, r@) == kv_list(all.take(i as int)),
        decreases ls.len() - i,
    {
        let (a, b) = ls[i];
        assert(0 <= ls@[i as int].0 <= ls@[i as int].1 <= cs.len());
        let ghost line = cs@.subrange(a as int, b as int);
        assert(all[i as int] == line);
        assert(all.take(i + 1).drop_last() =~= all.take(i as int));
        assert(all.take(i + 1).last() == line);
        let ghost old_r = r@;
        match find_char(cs, a, b, ':') {
            Some(j) => {
                let (ka, kb) = trim_range(cs, a, j);
                let (va, vb) = trim_range(cs, j + 1, b);
                proof {
                    assert(line.take(j - a) =~= cs@.subrange(a as int, j as int));
                    assert(line.skip(j - a + 1) =~= cs@.subrange(j + 1, b as int));
                }
                r.push((ka, kb, va, vb));
                assert forall|k: int| 0 <= k < r@.len() implies #[trigger] r@[k].0 <= r@[k].1
                    <= cs.len() && r@[k].2 <= r@[k].3 <= cs.len() by {
                    if k < old_r.len() {
                        assert(r@[k] == old_r[k]);
                    }
                }
                assert(kv_pieces(cs@, r@) =~= kv_pieces(cs@, old_r).push(
                    (cs@.subrange(ka as int, kb as int), cs@.subrange(va as int, vb as int)),
                ));
            },
            None => {},
        }
        i = i + 1;
    }
    assert(all.take(ls.len() as int) =~= all);
    r
}

/// Bounds of the value of the last pair keyed `k1` or `k2`.
pub fn find_last_either(
    cs: &Vec<char>,
    kvs: &Vec<(usize, usize, usize, usize)>,
    k1: &str,
    k2: &str,
) -> (r: Option<(usize, usize)>)
    requires
        kv_within(kvs@, cs.len() as int),
    ensures
        match r {
            Some((a, b)) => a <= b <= cs.len() && last_value_either(
                kv_pieces(cs@, kvs@),
                k1@,
                k2@,
            ) == Some(cs@.subrange(a as int, b as int)),
            None => last_value_either(kv_pieces(cs@, kvs@), k1@, k2@) is None,
        },
{
    let ghost all = kv_pieces(cs@, kvs@);
    let mut i = kvs.len();
    assert(all.take(i as int) =~= all);
    while i > 0
        invariant
            i <= kvs.len(),
            kv_within(kvs@, cs.len() as int),
            all == kv_pieces(cs@, kvs@),
            last_value_either(all, k1@, k2@) == last_value_either(all.take(i as int), k1@, k2@),
        decreases i,
    {
        let (ka, kb, va, vb) = kvs[i - 1];
        assert(all.take(i as int).last() == all[i - 1]);
        assert(all.take(i as int).drop_last() =~= all.take(i - 1));
        if range_is(cs, ka, kb, k1) || range_is(cs, ka, kb, k2) {
            return Some((va, vb));
        }
        i = i - 1;
    }
    None
}

/// Bounds of the value of the last pair keyed `k`.
pub fn find_last(cs: &Vec<char>, kvs: &Vec<(usize, usize, usize, usize)>, k: &str) -> (r: Option<
    (usize, usize),
>)
    requires
        kv_within(kvs@, cs.len() as int),
    ensures
        match r {
            Some((a, b)) => a <= b <= cs.len() && last_value(kv_pieces(cs@, kvs@), k@) == Some(
                cs@.subrange(a as int, b as int),
            ),
            None => last_value(kv_pieces(cs@, kvs@), k@) is None,
        },
{
    find_last_either(cs, kvs, k, k)
}

} // verus!
