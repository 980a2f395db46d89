//! The `storage list` reply: one `[D]` or `[F]` line per entry.

use vstd::prelude::*;
use crate::device::is_parse_error;
use crate::error::FlipperError;
use crate::text::{
    chars_of, concat, decoded, is_ws, lead, lemma_decoded_join, lemma_tokens_word, lemma_tokens_word_then, lemma_trim_plain, lemma_lead, lemma_lead_at, lemma_trim_strip_cr, line_ranges,
    lines, not_char, parse_decimal, parse_unsigned, pieces, range_starts_with, ranges_within,
    starts_with, str_from_utf8, string_of, strip_cr, token_ranges, tokens, trim, trim_range,
    utf8_error_text,
};

verus! {

/// One entry from `storage list`.
#[derive(Debug, Clone, PartialEq, Eq)]
pub struct StorageEntry {
    /// Always present.
    pub name: String,
    /// `true` for a `[D]` line.
    pub is_dir: bool,
    /// Size in bytes for files, as printed; `0` when absent.
    pub size: u64,
}

impl View for StorageEntry {
    type V = (Seq<char>, bool, u64);

    open spec fn view(&self) -> (Seq<char>, bool, u64) {
        (self.name@, self.is_dir, self.size)
    }
}

/// The entry a listing line describes: after the `[D]` or `[F]` flag,
/// the first word is the name and the last word, if there are two or
/// more, the size (0 when it is not a number).  Other lines describe
/// nothing.
pub open spec fn entry_of(line: Seq<char>) -> Option<(Seq<char>, bool, u64)> {
    let t = trim(line);
    let flagged = if starts_with(t, "[D]"@) {
        Some((true, t.skip("[D]"@.len() as int)))
    } else if starts_with(t, "[F]"@) {
        Some((false, t.skip("[F]"@.len() as int)))
    } else {
        None
    };
    match flagged {
        None => None,
        Some((is_dir, rest)) => {
            let words = tokens(rest);
            if words.len() == 0 {
                None
            } else {
                let size = if words.len() >= 2 {
                    match parse_unsigned(words.last(), u64::MAX as nat) {
                        Some(n) => n as u64,
                        None => 0,
                    }
                } else {
                    0
                };
                Some((words[0], is_dir, size))
            }
        },
    }
}

/// The entries of a sequence of lines, in order.
pub open spec fn entries_of(ls: Seq<Seq<char>>) -> Seq<(Seq<char>, bool, u64)>
    decreases ls.len(),
{
    if ls.len() == 0 {
        seq![]
    } else {
        let rest = entries_of(ls.drop_last());
        match entry_of(ls.last()) {
            Some(e) => rest.push(e),
            None => rest,
        }
    }
}

/// The entries a listing text describes.
pub open spec fn listing(text: Seq<char>) -> Seq<(Seq<char>, bool, u64)> {
    entries_of(lines(text))
}

/// The views of `v`, in order.
pub open spec fn entry_views(v: Seq<StorageEntry>) -> Seq<(Seq<char>, bool, u64)> {
    v.map_values(|e: StorageEntry| e@)
}

/// The entry that the line `cs[lo..hi]` describes.
fn flipper_line_to_entry(cs: &Vec<char>, lo: usize, hi: usize) -> (r: Option<StorageEntry>)
    requires
        lo <= hi <= cs.len(),
    ensures
        match entry_of(cs@.subrange(lo as int, hi as int)) {
            Some(e) => r matches Some(x) && x@ == e,
            None => r is None,
        },
{
    let (a, b) = trim_range(cs, lo, hi);
    let ghost t = cs@.subrange(a as int, b as int);
    let d = chars_of("[D]");
    let f = chars_of("[F]");
    let is_dir = if range_starts_with(cs, a, b, "[D]") {
        true
    } else if range_starts_with(cs, a, b, "[F]") {
        false
    } else {
        return None;
    };
    let start = if is_dir {
        a + d.len()
    } else {
        a + f.len()
    };
    assert(t.skip(start - a) =~= cs@.subrange(start as int, b as int));
    let words = token_ranges(cs, start, b);
    if words.len() == 0 {
        return None;
    }
    let ghost ws = pieces(cs@, words@);
    let (na, nb) = words[0];
    assert(ws[0] == cs@.subrange(na as int, nb as int));
    let size = if words.len() >= 2 {
        let (sa, sb) = words[words.len() - 1];
        assert(ws.last() == cs@.subrange(sa as int, sb as int));
        match parse_decimal(cs, sa, sb, u64::MAX) {
            Some(n) => n,
            None => 0,
        }
    } else {
        0
    };
    Some(StorageEntry { name: string_of(cs, na, nb), is_dir, size })
}

/// The entries of the text `cs`.
fn entries_in(cs: &Vec<char>) -> (r: Vec<StorageEntry>)
    ensures
        entry_views(r@) == listing(cs@),
{
    let ls = line_ranges(cs);
    let ghost all = lines(cs@);
    let mut r: Vec<StorageEntry> = Vec::new();
    let mut i: usize = 0;
    while i < ls.len()
        invariant
            i <= ls.len(),
            ranges_within(ls@, 0, cs.len() as int),
            pieces(cs@, ls@) == all,
            all == lines(cs@),
            entry_views(r@) == entries_of(all.take(i as int)),
        decreases ls.len() - i,
    {
        let (a, b) = ls[i];
        assert(all[i as int] == cs@.subrange(a as int, b as int));
        assert(all.take(i + 1).drop_last() =~= all.take(i as int));
        assert(all.take(i + 1).last() == all[i as int]);
        let ghost old_r = r@;
        match flipper_line_to_entry(cs, a, b) {
            Some(e) => {
                r.push(e);
                assert(entry_views(r@) =~= entry_views(old_r).push(e@));
            },
            None => {},
        }
        i = i + 1;
    }
    assert(all.take(ls.len() as int) =~= all);
    r
}

/// Parses the multi-line output of `storage list <path>`.  Lines that
/// describe no entry (blank lines, prompts) are skipped; a reply that is
/// not UTF-8 is a parse error.
pub fn parse_storage_list(payload: &[u8]) -> (r: Result<Vec<StorageEntry>, FlipperError>)
    ensures
        match decoded(payload@) {
            Some(text) => r matches Ok(v) && entry_views(v@) == listing(text),
            None => r matches Err(e) && is_parse_error(
                e,
                "storage list not utf-8: "@ + utf8_error_text(payload@),
            ),
        },
{
    match str_from_utf8(payload) {
        Ok(text) => {
            let cs = chars_of(text);
            Ok(entries_in(&cs))
        },
        Err(m) => Err(FlipperError::Parse(concat("storage list not utf-8: ", m.as_str()))),
    }
}

/// The entries of two runs of lines, one after the other, are the
/// entries of each, in order.
pub proof fn lemma_entries_of_add(x: Seq<Seq<char>>, y: Seq<Seq<char>>)
    ensures
        entries_of(x + y) == entries_of(x) + entries_of(y),
    decreases y.len(),
{
    if y.len() == 0 {
        assert(x + y =~= x);
        assert(entries_of(x) + entries_of(y) =~= entries_of(x));
    } else {
        assert((x + y).drop_last() =~= x + y.drop_last());
        assert((x + y).last() == y.last());
        lemma_entries_of_add(x, y.drop_last());
        match entry_of(y.last()) {
            Some(e) => {
                assert(entries_of(x) + entries_of(y) =~= (entries_of(x) + entries_of(
                    y.drop_last(),
                )).push(e));
            },
            None => {},
        }
    }
}

/// The entries of a single line.
proof fn lemma_entries_of_one(l: Seq<char>)
    ensures
        entries_of(seq![l]) == (match entry_of(l) {
            Some(e) => seq![e],
            None => Seq::<(Seq<char>, bool, u64)>::empty(),
        }),
{
    assert(seq![l].drop_last() =~= Seq::<Seq<char>>::empty());
    assert(seq![l].last() == l);
    assert(entries_of(Seq::<Seq<char>>::empty()) =~= Seq::<(Seq<char>, bool, u64)>::empty());
    match entry_of(l) {
        Some(e) => {
            assert(Seq::<(Seq<char>, bool, u64)>::empty().push(e) =~= seq![e]);
        },
        None => {},
    }
}

/// Joining two `storage list` replies with a line break joins their
/// listings: entries come line by line, in line order, and lines that
/// describe no entry add nothing.
pub proof fn lemma_listing_join(ta: Seq<char>, tb: Seq<char>)
    ensures
        listing(ta + "\n"@ + tb) == listing(ta) + listing(tb),
    decreases ta.len(),
{
    reveal_strlit("\n");
    let s = ta + "\n"@ + tb;
    let p = not_char('\n');
    let i = lead(ta, p) as int;
    lemma_lead(ta, p);
    assert forall|k: int| 0 <= k < i implies p(#[trigger] s[k]) by {
        assert(s[k] == ta[k]);
    }
    if i < ta.len() {
        assert(s[i] == ta[i]);
        lemma_lead_at(s, p, i);
        let rest = ta.skip(i + 1);
        assert(s.take(i) =~= ta.take(i));
        assert(s.skip(i + 1) =~= rest + "\n"@ + tb);
        let x = strip_cr(ta.take(i));
        assert(lines(s) == seq![x] + lines(rest + "\n"@ + tb));
        assert(lines(ta) == seq![x] + lines(rest));
        lemma_listing_join(rest, tb);
        lemma_entries_of_add(seq![x], lines(rest + "\n"@ + tb));
        lemma_entries_of_add(seq![x], lines(rest));
        assert(listing(s) =~= entries_of(seq![x]) + listing(rest) + listing(tb));
        assert(listing(ta) == entries_of(seq![x]) + listing(rest));
    } else {
        assert(s[i] == '\n');
        lemma_lead_at(s, p, i);
        assert(s.take(i) =~= ta);
        assert(s.skip(i + 1) =~= tb);
        assert(lines(s) == seq![strip_cr(ta)] + lines(tb));
        lemma_entries_of_add(seq![strip_cr(ta)], lines(tb));
        lemma_entries_of_one(strip_cr(ta));
        lemma_trim_strip_cr(ta);
        assert(entry_of(strip_cr(ta)) == entry_of(ta));
        if ta.len() == 0 {
            assert(lines(ta) =~= Seq::<Seq<char>>::empty());
            assert(!starts_with(trim(ta), "[D]"@) && !starts_with(trim(ta), "[F]"@)) by {
                assert(strip_cr(ta) == ta);
                reveal_strlit("[D]");
                reveal_strlit("[F]");
            }
            assert(entry_of(ta) is None);
            assert(listing(ta) =~= Seq::<(Seq<char>, bool, u64)>::empty());
            assert(listing(s) =~= listing(ta) + listing(tb));
        } else {
            assert(lines(ta) == seq![ta]);
            lemma_entries_of_one(ta);
            assert(listing(s) =~= listing(ta) + listing(tb));
        }
    }
}

/// Joining two UTF-8 `storage list` replies with a line break joins
/// their listings, so `parse_storage_list` of the joined reply lists the
/// entries of the first reply, then those of the second.
pub proof fn lemma_joined_replies(a: Seq<u8>, b: Seq<u8>)
    requires
        decoded(a) is Some,
        decoded(b) is Some,
    ensures
        decoded(a + seq![10u8] + b) is Some,
        listing(decoded(a + seq![10u8] + b)->0) == listing(decoded(a)->0) + listing(decoded(b)->0),
{
    lemma_decoded_join(a, b);
    lemma_listing_join(decoded(a)->0, decoded(b)->0);
}

/// A `[D]` or `[F]` line with a single word after the flag describes an
/// entry of that name and size 0: a missing size column defaults to 0
/// and does not drop the entry.  Alone, such a line is the whole
/// listing.
pub proof fn lemma_single_word_entry(name: Seq<char>)
    requires
        name.len() > 0,
        forall|k: int| 0 <= k < name.len() ==> !is_ws(#[trigger] name[k]),
    ensures
        entry_of("[D] "@ + name) == Some((name, true, 0u64)),
        entry_of("[F] "@ + name) == Some((name, false, 0u64)),
        listing("[D] "@ + name) == seq![(name, true, 0u64)],
        listing("[F] "@ + name) == seq![(name, false, 0u64)],
{
    reveal_strlit("[D] ");
    reveal_strlit("[F] ");
    reveal_strlit("[D]");
    reveal_strlit("[F]");
    reveal_strlit(" ");
    lemma_tokens_word(name);
    assert(" "@ =~= seq![' ']);
    assert("[D] "@ =~= "[D]"@ + " "@);
    assert("[F] "@ =~= "[F]"@ + " "@);
    lemma_single_word_line(name, "[D] "@, "[D]"@, true);
    lemma_single_word_line(name, "[F] "@, "[F]"@, false);
    assert(!starts_with("[F] "@ + name, "[D]"@)) by {
        assert(("[F] "@ + name).take(3)[1] == 'F');
    }
    lemma_entries_of_one("[D] "@ + name);
    lemma_entries_of_one("[F] "@ + name);
}

proof fn lemma_single_word_line(name: Seq<char>, lead_in: Seq<char>, flag: Seq<char>, is_dir: bool)
    requires
        name.len() > 0,
        forall|k: int| 0 <= k < name.len() ==> !is_ws(#[trigger] name[k]),
        tokens(name) == seq![name],
        flag.len() == 3,
        flag[0] == '[',
        lead_in == flag + " "@,
        " "@ == seq![' '],
        !flag.contains('\n'),
    ensures
        trim(lead_in + name) == lead_in + name,
        starts_with(lead_in + name, flag),
        tokens((lead_in + name).skip(3)) == seq![name],
        lines(lead_in + name) == seq![lead_in + name],
{
    let t = lead_in + name;
    assert(t[0] == '[');
    assert(t.last() == name.last());
    assert(!is_ws(name[name.len() - 1]));
    lemma_trim_plain(t);
    assert(t.take(3) =~= flag);
    let rest = t.skip(3);
    assert(rest[0] == ' ');
    assert(rest.drop_first() =~= name);
    reveal_strlit("\n");
    assert forall|k: int| 0 <= k < t.len() implies not_char('\n')(#[trigger] t[k]) by {
        if k < 3 {
            assert(t[k] == flag[k]);
            if t[k] == '\n' {
                assert(flag.contains('\n'));
            }
        } else if k > 3 {
            assert(t[k] == name[k - 4]);
        }
    }
    lemma_lead_at(t, not_char('\n'), t.len() as int);
}

/// A `[D]` or `[F]` line with a name and a size column describes an
/// entry of that name whose size is the column's number, or 0 when the
/// column is not one (such as `-`).
pub proof fn lemma_sized_entry(name: Seq<char>, size: Seq<char>)
    requires
        name.len() > 0,
        forall|k: int| 0 <= k < name.len() ==> !is_ws(#[trigger] name[k]),
        size.len() > 0,
        forall|k: int| 0 <= k < size.len() ==> !is_ws(#[trigger] size[k]),
    ensures
        entry_of("[D] "@ + name + " "@ + size) == Some(
            (
                name,
                true,
                match parse_unsigned(size, u64::MAX as nat) {
                    Some(n) => n as u64,
                    None => 0u64,
                },
            ),
        ),
        entry_of("[F] "@ + name + " "@ + size) == Some(
            (
                name,
                false,
                match parse_unsigned(size, u64::MAX as nat) {
                    Some(n) => n as u64,
                    None => 0u64,
                },
            ),
        ),
{
    reveal_strlit("[D] ");
    reveal_strlit("[F] ");
    reveal_strlit("[D]");
    reveal_strlit("[F]");
    reveal_strlit(" ");
    assert(" "@ =~= seq![' ']);
    lemma_tokens_word(size);
    lemma_tokens_word_then(name, size);
    assert(seq![name] + seq![size] =~= seq![name, size]);
    lemma_sized_line(name, size, "[D]"@);
    lemma_sized_line(name, size, "[F]"@);
    assert("[D] "@ + name + " "@ + size =~= "[D]"@ + " "@ + (name + " "@ + size));
    assert("[F] "@ + name + " "@ + size =~= "[F]"@ + " "@ + (name + " "@ + size));
    assert(!starts_with("[F] "@ + name + " "@ + size, "[D]"@)) by {
        assert(("[F] "@ + name + " "@ + size).take(3)[1] == 'F');
    }
}

proof fn lemma_sized_line(name: Seq<char>, size: Seq<char>, flag: Seq<char>)
    requires
        size.len() > 0,
        !is_ws(size.last()),
        flag.len() == 3,
        flag[0] == '[',
        " "@ == seq![' '],
        tokens(name + " "@ + size) == seq![name, size],
    ensures
        ({
            let t = flag + " "@ + (name + " "@ + size);
            &&& trim(t) == t
            &&& starts_with(t, flag)
            &&& tokens(t.skip(3)) == seq![name, size]
        }),
{
    let t = flag + " "@ + (name + " "@ + size);
    assert(t[0] == '[');
    assert(t.last() == size.last());
    lemma_trim_plain(t);
    assert(t.take(3) =~= flag);
    let rest = t.skip(3);
    assert(rest[0] == ' ');
    assert(rest.drop_first() =~= name + " "@ + size);
}

} // verus!
