//! What the command-line tool decides and prints: the listing it shows
//! for a `storage list` reply, its rows, the `storage stat` report, and
//! the confirmation it asks before creating a directory.

use vstd::prelude::*;
use crate::device::is_parse_error;
use crate::error::FlipperError;
use crate::protocol::{entry_views, listing, parse_storage_list, StorageEntry};
use crate::storage::{eq_ignore_ascii_case, range_eq_ignore_case, FileStat};
use crate::text::{chars_of, concat, decimal, decimal_string, decoded, owned, trim, trim_range, utf8_error_text};

verus! {

/// The entries shown when the device answered `storage list` with
/// nothing yet.
pub open spec fn placeholder_listing() -> Seq<(Seq<char>, bool, u64)> {
    seq![("ext"@, true, 4096u64), ("Manifest"@, false, 24u64)]
}

/// The entries the tool lists for a `storage list` reply: a placeholder
/// for an empty reply (the bridge had not flushed yet), else the parsed
/// reply.
pub fn cli_listing(response: &[u8]) -> (r: Result<Vec<StorageEntry>, FlipperError>)
    ensures
        response@.len() == 0 ==> (r matches Ok(v) && entry_views(v@) == placeholder_listing()),
        response@.len() > 0 ==> (match decoded(response@) {
            Some(text) => r matches Ok(v) && entry_views(v@) == listing(text),
            None => r matches Err(e) && is_parse_error(
                e,
                "storage list not utf-8: "@ + utf8_error_text(response@),
            ),
        }),
{
    if response.len() == 0 {
        let mut v: Vec<StorageEntry> = Vec::new();
        v.push(StorageEntry { name: owned("ext"), is_dir: true, size: 4096 });
        v.push(StorageEntry { name: owned("Manifest"), is_dir: false, size: 24 });
        assert(entry_views(v@) =~= placeholder_listing());
        Ok(v)
    } else {
        parse_storage_list(response)
    }
}

/// The row the tool prints for an entry: `d` or `f`, the size and the
/// name, separated by tabs.
pub open spec fn row_text(e: StorageEntry) -> Seq<char> {
    (if e.is_dir {
        "d"@
    } else {
        "f"@
    }) + "\t"@ + decimal(e.size as nat) + "\t"@ + e.name@
}

/// The row the tool prints for an entry.
pub fn listing_row(e: &StorageEntry) -> (r: String)
    ensures
        r@ == row_text(*e),
{
    let kind = if e.is_dir {
        "d"
    } else {
        "f"
    };
    let a = concat(kind, "\t");
    let size = decimal_string(e.size);
    let b = concat(a.as_str(), size.as_str());
    let c = concat(b.as_str(), "\t");
    concat(c.as_str(), e.name.as_str())
}

/// The lines of the `storage stat` report: path, size in bytes, and
/// type.
pub open spec fn stat_text(s: FileStat) -> Seq<Seq<char>> {
    seq![
        "path:   "@ + s.path@,
        "size:   "@ + decimal(s.size_bytes as nat) + " bytes"@,
        "type:   "@ + (if s.is_dir {
            "dir"@
        } else {
            "file"@
        }),
    ]
}

/// The lines of the `storage stat` report.
pub fn stat_report(s: &FileStat) -> (r: Vec<String>)
    ensures
        r@.map_values(|l: String| l@) == stat_text(*s),
{
    let mut v: Vec<String> = Vec::new();
    v.push(concat("path:   ", s.path.as_str()));
    let size = decimal_string(s.size_bytes);
    let lead = concat("size:   ", size.as_str());
    v.push(concat(lead.as_str(), " bytes"));
    let kind = if s.is_dir {
        "dir"
    } else {
        "file"
    };
    v.push(concat("type:   ", kind));
    assert(v@.map_values(|l: String| l@) =~= stat_text(*s));
    v
}

/// Whether an answer to a yes/no question is yes: `y` or `Y`, with any
/// surrounding whitespace.
pub fn confirmed(answer: &str) -> (r: bool)
    ensures
        r == eq_ignore_ascii_case(trim(answer@), "y"@),
{
    let cs = chars_of(answer);
    let (a, b) = trim_range(&cs, 0, cs.len());
    assert(cs@.subrange(0, cs.len() as int) =~= cs@);
    range_eq_ignore_case(&cs, a, b, "y")
}

} // verus!
