//! The `storage info <path>` reply: a snapshot of a storage volume.

use vstd::prelude::*;
use crate::device::{is_parse_error, text_field};
use crate::error::FlipperError;
use crate::kv::{find_last, find_last_either, key_values, kv_pieces, kv_ranges, last_value, last_value_either};
use crate::text::{
    all_digits, chars_of, concat, decimal_value, decoded, ends_with, is_digit, is_ws,
    lemma_trim_plain, owned, parse_decimal, parse_unsigned, range_ends_with, str_from_utf8,
    string_of, trim, trim_range, utf8_error_text,
};

verus! {

/// Snapshot of the SD card / `/ext` volume.
#[derive(Debug, Clone, PartialEq, Eq)]
pub struct StorageInfo {
    /// Volume label (`Label:`), empty if the firmware omits it.
    pub label: String,
    /// Free bytes (`Free:`), `0` if unknown.
    pub free_bytes: u64,
    /// Total bytes (`Total:`), `0` if unknown.
    pub total_bytes: u64,
    /// Volume type (`Type:`, e.g. `FAT`, `LFS`), empty if unknown.
    pub fs_type: String,
    /// `Storage:` / `Path:` line: the path the firmware was queried on.
    pub path: String,
}

impl Default for StorageInfo {
    fn default() -> (r: StorageInfo)
        ensures
            r.label@ == Seq::<char>::empty(),
            r.free_bytes == 0,
            r.total_bytes == 0,
            r.fs_type@ == Seq::<char>::empty(),
            r.path@ == Seq::<char>::empty(),
    {
        StorageInfo {
            label: String::new(),
            free_bytes: 0,
            total_bytes: 0,
            fs_type: String::new(),
            path: String::new(),
        }
    }
}

/// `t` without the suffix `p`, if it ends with it.
pub open spec fn strip_suffix(t: Seq<char>, p: Seq<char>) -> Option<Seq<char>> {
    if ends_with(t, p) {
        Some(t.take(t.len() - p.len()))
    } else {
        None
    }
}

/// The digits and the scale a size text carries: a `k`/`K`, `kB`/`KB`
/// or ` KiB` suffix scales by 1024, `MiB`/`MB` by 1024 * 1024, and no
/// suffix by 1; suffixes are tried in that order.
pub open spec fn size_parts(t: Seq<char>) -> (Seq<char>, nat) {
    if strip_suffix(t, "k"@) is Some {
        (trim(strip_suffix(t, "k"@)->0), 1024)
    } else if strip_suffix(t, "K"@) is Some {
        (trim(strip_suffix(t, "K"@)->0), 1024)
    } else if strip_suffix(t, "kB"@) is Some {
        (trim(strip_suffix(t, "kB"@)->0), 1024)
    } else if strip_suffix(t, "KB"@) is Some {
        (trim(strip_suffix(t, "KB"@)->0), 1024)
    } else if strip_suffix(t, " KiB"@) is Some {
        (trim(strip_suffix(t, " KiB"@)->0), 1024)
    } else if strip_suffix(t, "MiB"@) is Some {
        (trim(strip_suffix(t, "MiB"@)->0), 1048576)
    } else if strip_suffix(t, "MB"@) is Some {
        (trim(strip_suffix(t, "MB"@)->0), 1048576)
    } else {
        (t, 1)
    }
}

/// The byte count a size text gives: its number (0 if none) times its
/// scale, saturating at `u64::MAX`.
pub open spec fn size_of(raw: Seq<char>) -> u64 {
    let (digits, scale) = size_parts(trim(raw));
    let n = match parse_unsigned(digits, u64::MAX as nat) {
        Some(n) => n,
        None => 0,
    };
    if n * scale > u64::MAX {
        u64::MAX
    } else {
        (n * scale) as u64
    }
}

/// Where `cs[a..b]` ends once the suffix `lit` is removed, if it ends
/// with it.
fn strip_suffix_range(cs: &Vec<char>, a: usize, b: usize, lit: &str) -> (r: Option<usize>)
    requires
        a <= b <= cs.len(),
    ensures
        match strip_suffix(cs@.subrange(a as int, b as int), lit@) {
            Some(x) => r matches Some(e) && a <= e <= b && cs@.subrange(a as int, e as int) == x,
            None => r is None,
        },
{
    if range_ends_with(cs, a, b, lit) {
        let l = chars_of(lit);
        assert(cs@.subrange(a as int, b as int).take(b - a - l.len()) =~= cs@.subrange(
            a as int,
            b - l.len(),
        ));
        Some(b - l.len())
    } else {
        None
    }
}

/// The size that `cs[lo..hi]` gives.
pub fn parse_size(cs: &Vec<char>, lo: usize, hi: usize) -> (r: u64)
    requires
        lo <= hi <= cs.len(),
    ensures
        r == size_of(cs@.subrange(lo as int, hi as int)),
{
    let (a, b) = trim_range(cs, lo, hi);
    let ghost t = cs@.subrange(a as int, b as int);
    let (end, scale): (usize, u64) = if let Some(e) = strip_suffix_range(cs, a, b, "k") {
        (e, 1024)
    } else if let Some(e) = strip_suffix_range(cs, a, b, "K") {
        (e, 1024)
    } else if let Some(e) = strip_suffix_range(cs, a, b, "kB") {
        (e, 1024)
    } else if let Some(e) = strip_suffix_range(cs, a, b, "KB") {
        (e, 1024)
    } else if let Some(e) = strip_suffix_range(cs, a, b, " KiB") {
        (e, 1024)
    } else if let Some(e) = strip_suffix_range(cs, a, b, "MiB") {
        (e, 1048576)
    } else if let Some(e) = strip_suffix_range(cs, a, b, "MB") {
        (e, 1048576)
    } else {
        (b, 0)
    };
    let (da, db) = if scale == 0 {
        (a, b)
    } else {
        trim_range(cs, a, end)
    };
    let scale: u64 = if scale == 0 {
        1
    } else {
        scale
    };
    assert(size_parts(t).0 == cs@.subrange(da as int, db as int));
    assert(size_parts(t).1 == scale);
    let n = match parse_decimal(cs, da, db, u64::MAX) {
        Some(n) => n,
        None => 0,
    };
    if n > u64::MAX / scale {
        proof {
            assert(n * scale > u64::MAX) by (nonlinear_arith)
                requires
                    n > u64::MAX / scale,
                    scale > 0,
            ;
        }
        u64::MAX
    } else {
        proof {
            assert(n * scale <= u64::MAX) by (nonlinear_arith)
                requires
                    n <= u64::MAX / scale,
                    scale > 0,
            ;
        }
        n * scale
    }
}

impl StorageInfo {
    /// `self` holds what the pairs `kvs` of a `storage info` reply say,
    /// with `default_path` when no `Storage:` or `Path:` line names one.
    pub open spec fn describes(
        self,
        kvs: Seq<(Seq<char>, Seq<char>)>,
        default_path: Seq<char>,
    ) -> bool {
        &&& self.label@ == text_field(kvs, "Label"@)
        &&& self.fs_type@ == text_field(kvs, "Type"@)
        &&& self.path@ == match last_value_either(kvs, "Storage"@, "Path"@) {
            Some(v) => v,
            None => default_path,
        }
        &&& self.free_bytes == match last_value(kvs, "Free"@) {
            Some(v) => size_of(v),
            None => 0,
        }
        &&& self.total_bytes == match last_value(kvs, "Total"@) {
            Some(v) => size_of(v),
            None => 0,
        }
    }
}

/// Parses the multi-line output of `storage info <path>`.  Missing keys
/// keep their defaults; the last line for a key wins.
pub fn parse_storage_info(payload: &str, default_path: &str) -> (r: StorageInfo)
    ensures
        r.describes(key_values(payload@), default_path@),
{
    let cs = chars_of(payload);
    let kvs = kv_ranges(&cs);
    let label = match find_last(&cs, &kvs, "Label") {
        Some((a, b)) => string_of(&cs, a, b),
        None => String::new(),
    };
    let fs_type = match find_last(&cs, &kvs, "Type") {
        Some((a, b)) => string_of(&cs, a, b),
        None => String::new(),
    };
    let path = match find_last_either(&cs, &kvs, "Storage", "Path") {
        Some((a, b)) => string_of(&cs, a, b),
        None => owned(default_path),
    };
    let free_bytes = match find_last(&cs, &kvs, "Free") {
        Some((a, b)) => parse_size(&cs, a, b),
        None => 0,
    };
    let total_bytes = match find_last(&cs, &kvs, "Total") {
        Some((a, b)) => parse_size(&cs, a, b),
        None => 0,
    };
    StorageInfo { label, free_bytes, total_bytes, fs_type, path }
}

/// The snapshot a raw `storage info` reply gives; a reply that is not
/// UTF-8 is a parse error.
pub fn parse_storage_info_reply(reply: &[u8], path: &str) -> (r: Result<StorageInfo, FlipperError>)
    ensures
        match decoded(reply@) {
            Some(text) => r matches Ok(i) && i.describes(key_values(text), path@),
            None => r matches Err(e) && is_parse_error(
                e,
                "storage info not utf-8: "@ + utf8_error_text(reply@),
            ),
        },
{
    match str_from_utf8(reply) {
        Ok(text) => Ok(parse_storage_info(text, path)),
        Err(m) => Err(FlipperError::Parse(concat("storage info not utf-8: ", m.as_str()))),
    }
}

/// `x` bytes, saturating at `u64::MAX`.
pub open spec fn saturated(x: nat) -> u64 {
    if x > u64::MAX {
        u64::MAX
    } else {
        x as u64
    }
}

/// `t` does not end with `p`: they differ at position `j` of `p`.
proof fn lemma_not_ends(t: Seq<char>, p: Seq<char>, j: int)
    requires
        0 <= j < p.len(),
        p.len() > t.len() || t[t.len() - p.len() + j] != p[j],
    ensures
        !ends_with(t, p),
{
    if ends_with(t, p) {
        assert(t.skip(t.len() - p.len())[j] == t[t.len() - p.len() + j]);
    }
}

/// `t` ends with `p` when it is some text followed by `p`.
proof fn lemma_ends(ds: Seq<char>, p: Seq<char>)
    ensures
        ends_with(ds + p, p),
        strip_suffix(ds + p, p) == Some(ds),
{
    assert((ds + p).skip((ds + p).len() - p.len()) =~= p);
    assert((ds + p).take((ds + p).len() - p.len()) =~= ds);
}

/// The sizes a `storage info` line gives, by unit: a number of decimal
/// digits `n` alone is `n` bytes; followed by `k`, `K`, `kB`, `KB` or
/// ` KiB` it is `n` KiB, and by `MiB` or `MB` it is `n` MiB, saturating
/// at `u64::MAX`.  A number too large for a `u64` gives 0.
pub proof fn lemma_size_units(ds: Seq<char>)
    requires
        ds.len() > 0,
        all_digits(ds),
    ensures
        size_of(ds) == (if decimal_value(ds) <= u64::MAX { saturated(decimal_value(ds)) } else { 0 }),
        size_of(ds + "k"@) == (if decimal_value(ds) <= u64::MAX { saturated(decimal_value(ds) * 1024) } else { 0 }),
        size_of(ds + "K"@) == (if decimal_value(ds) <= u64::MAX { saturated(decimal_value(ds) * 1024) } else { 0 }),
        size_of(ds + "kB"@) == (if decimal_value(ds) <= u64::MAX { saturated(decimal_value(ds) * 1024) } else { 0 }),
        size_of(ds + "KB"@) == (if decimal_value(ds) <= u64::MAX { saturated(decimal_value(ds) * 1024) } else { 0 }),
        size_of(ds + " KiB"@) == (if decimal_value(ds) <= u64::MAX { saturated(decimal_value(ds) * 1024) } else { 0 }),
        size_of(ds + "MiB"@) == (if decimal_value(ds) <= u64::MAX { saturated(decimal_value(ds) * 1048576) } else { 0 }),
        size_of(ds + "MB"@) == (if decimal_value(ds) <= u64::MAX { saturated(decimal_value(ds) * 1048576) } else { 0 }),
{
    reveal_strlit("k");
    reveal_strlit("K");
    reveal_strlit("kB");
    reveal_strlit("KB");
    reveal_strlit(" KiB");
    reveal_strlit("MiB");
    reveal_strlit("MB");
    let n = ds.len();
    assert(is_digit(ds[0]) && is_digit(ds[n - 1]));
    assert(!is_ws(ds[0]) && !is_ws(ds.last()));
    lemma_trim_plain(ds);
    // The digits parse to their value.
    assert(!(ds.len() > 0 && ds[0] == '+'));
    // No suffix.
    lemma_not_ends(ds, "k"@, 0);
    lemma_not_ends(ds, "K"@, 0);
    lemma_not_ends(ds, "kB"@, 1);
    lemma_not_ends(ds, "KB"@, 1);
    lemma_not_ends(ds, " KiB"@, 3);
    lemma_not_ends(ds, "MiB"@, 2);
    lemma_not_ends(ds, "MB"@, 1);
    assert(strip_suffix(ds, "k"@) is None);
    assert(strip_suffix(ds, "MB"@) is None);
    assert(size_parts(ds) == (ds, 1nat));
    assert(size_parts(trim(ds)) == (ds, 1nat));
    assert(decimal_value(ds) * 1 == decimal_value(ds));
    // `k`.
    let t = ds + "k"@;
    assert(t[0] == ds[0] && t.last() == 'k');
    lemma_trim_plain(t);
    lemma_ends(ds, "k"@);
    // `K`.
    let t = ds + "K"@;
    assert(t[0] == ds[0] && t.last() == 'K');
    lemma_trim_plain(t);
    lemma_ends(ds, "K"@);
    lemma_not_ends(t, "k"@, 0);
    // `kB`.
    let t = ds + "kB"@;
    assert(t[0] == ds[0] && t.last() == 'B' && t[t.len() - 2] == 'k');
    lemma_trim_plain(t);
    lemma_ends(ds, "kB"@);
    lemma_not_ends(t, "k"@, 0);
    lemma_not_ends(t, "K"@, 0);
    // `KB`.
    let t = ds + "KB"@;
    assert(t[0] == ds[0] && t.last() == 'B' && t[t.len() - 2] == 'K');
    lemma_trim_plain(t);
    lemma_ends(ds, "KB"@);
    lemma_not_ends(t, "k"@, 0);
    lemma_not_ends(t, "K"@, 0);
    lemma_not_ends(t, "kB"@, 0);
    // ` KiB`.
    let t = ds + " KiB"@;
    assert(t[0] == ds[0] && t.last() == 'B' && t[t.len() - 2] == 'i');
    lemma_trim_plain(t);
    lemma_ends(ds, " KiB"@);
    lemma_not_ends(t, "k"@, 0);
    lemma_not_ends(t, "K"@, 0);
    lemma_not_ends(t, "kB"@, 0);
    lemma_not_ends(t, "KB"@, 0);
    // `MiB`.
    let t = ds + "MiB"@;
    assert(t[0] == ds[0] && t.last() == 'B' && t[t.len() - 2] == 'i' && t[t.len() - 4] == ds[n - 1]);
    lemma_trim_plain(t);
    lemma_ends(ds, "MiB"@);
    lemma_not_ends(t, "k"@, 0);
    lemma_not_ends(t, "K"@, 0);
    lemma_not_ends(t, "kB"@, 0);
    lemma_not_ends(t, "KB"@, 0);
    lemma_not_ends(t, " KiB"@, 0);
    // `MB`.
    let t = ds + "MB"@;
    assert(t[0] == ds[0] && t.last() == 'B' && t[t.len() - 2] == 'M');
    lemma_trim_plain(t);
    lemma_ends(ds, "MB"@);
    lemma_not_ends(t, "k"@, 0);
    lemma_not_ends(t, "K"@, 0);
    lemma_not_ends(t, "kB"@, 0);
    lemma_not_ends(t, "KB"@, 0);
    lemma_not_ends(t, " KiB"@, 2);
    lemma_not_ends(t, "MiB"@, 1);
}

} // verus!
