//! Storage operations against the Flipper's filesystem: the `storage
//! stat` reply and the payload of `storage write`.

use vstd::prelude::*;
use crate::device::is_parse_error;
use crate::error::FlipperError;
use crate::kv::{find_last, key_values, kv_pieces, kv_ranges, last_value};
use crate::text::{
    chars_of, concat, decoded, owned, parse_decimal, parse_unsigned, push_char, str_from_utf8,
    utf8_error_text,
};

verus! {

/// Optional flags for a stat request.
#[derive(Debug, Clone, Copy)]
pub struct StatFlags {
    pub follow_symlinks: bool,
}

impl Default for StatFlags {
    fn default() -> (r: StatFlags)
        ensures
            !r.follow_symlinks,
    {
        StatFlags { follow_symlinks: false }
    }
}

/// Result of `storage stat`.
#[derive(Debug, Clone, PartialEq, Eq)]
pub struct FileStat {
    pub path: String,
    pub size_bytes: u64,
    pub is_dir: bool,
}

/// ASCII lower case of `c`.
pub open spec fn ascii_lower(c: char) -> char {
    if 'A' <= c && c <= 'Z' {
        ((c as u32) + 32) as char
    } else {
        c
    }
}

/// `str::eq_ignore_ascii_case`.
pub open spec fn eq_ignore_ascii_case(a: Seq<char>, b: Seq<char>) -> bool {
    a.len() == b.len() && forall|i: int| 0 <= i < a.len() ==> ascii_lower(#[trigger] a[i])
        == ascii_lower(b[i])
}

/// Executable `ascii_lower`.
fn to_ascii_lower(c: char) -> (r: char)
    ensures
        r == ascii_lower(c),
{
    if 'A' <= c && c <= 'Z' {
        ((c as u8) + 32) as char
    } else {
        c
    }
}

/// Whether `cs[lo..hi]` equals `lit` up to ASCII case.
pub(crate) fn range_eq_ignore_case(cs: &Vec<char>, lo: usize, hi: usize, lit: &str) -> (r: bool)
    requires
        lo <= hi <= cs.len(),
    ensures
        r == eq_ignore_ascii_case(cs@.subrange(lo as int, hi as int), lit@),
{
    let l = chars_of(lit);
    if hi - lo != l.len() {
        return false;
    }
    let ghost s = cs@.subrange(lo as int, hi as int);
    let mut i: usize = 0;
    while i < l.len()
        invariant
            lo <= hi <= cs.len(),
            hi - lo == l.len(),
            l@ == lit@,
            s == cs@.subrange(lo as int, hi as int),
            i <= l.len(),
            forall|k: int| 0 <= k < i ==> ascii_lower(#[trigger] s[k]) == ascii_lower(l@[k]),
        decreases l.len() - i,
    {
        assert(s[i as int] == cs@[lo + i]);
        if to_ascii_lower(cs[lo + i]) != to_ascii_lower(l[i]) {
            return false;
        }
        i = i + 1;
    }
    true
}

impl FileStat {
    /// `self` is what the pairs `kvs` of a `storage stat` reply say about
    /// `path`: the last `size` line's number (0 if none or not a number)
    /// and whether the last `type` line says `dir`, in any case.
    pub open spec fn describes(self, kvs: Seq<(Seq<char>, Seq<char>)>, path: Seq<char>) -> bool {
        &&& self.path@ == path
        &&& self.size_bytes == match last_value(kvs, "size"@) {
            Some(v) => match parse_unsigned(v, u64::MAX as nat) {
                Some(n) => n,
                None => 0,
            },
            None => 0,
        }
        &&& self.is_dir == match last_value(kvs, "type"@) {
            Some(v) => eq_ignore_ascii_case(v, "dir"@),
            None => false,
        }
    }
}

/// Parses the `storage stat` text for `default_path`.
pub fn parse_stat(text: &str, default_path: &str) -> (r: FileStat)
    ensures
        r.describes(key_values(text@), default_path@),
{
    let cs = chars_of(text);
    let kvs = kv_ranges(&cs);
    let size_bytes = match find_last(&cs, &kvs, "size") {
        Some((a, b)) => match parse_decimal(&cs, a, b, u64::MAX) {
            Some(n) => n,
            None => 0,
        },
        None => 0,
    };
    let is_dir = match find_last(&cs, &kvs, "type") {
        Some((a, b)) => range_eq_ignore_case(&cs, a, b, "dir"),
        None => false,
    };
    FileStat { path: owned(default_path), size_bytes, is_dir }
}

/// The stat a raw `storage stat` reply gives; a reply that is not UTF-8
/// is a parse error.
pub fn parse_stat_reply(reply: &[u8], path: &str) -> (r: Result<FileStat, FlipperError>)
    ensures
        match decoded(reply@) {
            Some(text) => r matches Ok(s) && s.describes(key_values(text), path@),
            None => r matches Err(e) && is_parse_error(
                e,
                "storage stat not utf-8: "@ + utf8_error_text(reply@),
            ),
        },
{
    match str_from_utf8(reply) {
        Ok(text) => Ok(parse_stat(text, path)),
        Err(m) => Err(FlipperError::Parse(concat("storage stat not utf-8: ", m.as_str()))),
    }
}

/// The lower-case hexadecimal digit of `d < 16`.
pub open spec fn hex_digit(d: nat) -> char {
    if d < 10 {
        (d + '0' as nat) as char
    } else {
        (d - 10 + 'a' as nat) as char
    }
}

/// `bytes` as lower-case hexadecimal, two digits per byte.
pub open spec fn hex(bytes: Seq<u8>) -> Seq<char>
    decreases bytes.len(),
{
    if bytes.len() == 0 {
        seq![]
    } else {
        hex(bytes.drop_last()).push(hex_digit(bytes.last() as nat / 16)).push(
            hex_digit(bytes.last() as nat % 16),
        )
    }
}

/// Executable `hex_digit`.
fn hex_char(d: u8) -> (r: char)
    requires
        d < 16,
    ensures
        r == hex_digit(d as nat),
{
    if d < 10 {
        (48u8 + d) as char
    } else {
        (87u8 + d) as char
    }
}

/// The payload of `storage write`: the data as lower-case hexadecimal,
/// two digits per byte.
pub fn hex_encode(data: &[u8]) -> (r: String)
    ensures
        r@ == hex(data@),
{
    let mut r = String::new();
    let mut i: usize = 0;
    while i < data.len()
        invariant
            i <= data.len(),
            r@ == hex(data@.take(i as int)),
        decreases data.len() - i,
    {
        let b = data[i];
        push_char(&mut r, hex_char(b / 16));
        push_char(&mut r, hex_char(b % 16));
        assert(data@.take(i + 1).drop_last() =~= data@.take(i as int));
        i = i + 1;
    }
    assert(data@.take(data.len() as int) =~= data@);
    r
}

} // verus!
