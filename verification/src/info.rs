//! Boot-banner / firmware-version parser.
//!
//! The firmware's CLI bridge emits a boot banner on connect that holds a
//! `Firmware version:` line of the form
//! `Firmware version: mntm-012 mntm-012 (e1784e74 built on 31-12-2025)`.

use vstd::prelude::*;
use crate::device::is_parse_error;
use crate::error::FlipperError;
use crate::text::{
    chars_of, concat, decoded, is_first_word, lemma_tokens_first, str_from_utf8, utf8_error_text, ends_with, find_char, line_ranges, lines, owned, pieces, range_is,
    range_starts_with, ranges_within, split_once, starts_with, string_of, token_ranges, tokens,
    trim, trim_range,
};

verus! {

/// Fields extracted from the `Firmware version:` line of the boot banner.
#[derive(Debug, Clone, PartialEq, Eq)]
pub struct Info {
    /// Branch and commit, e.g. `mntm-012 e1784e74`.
    pub firmware_version: String,
    /// Branch, e.g. `mntm-012`.
    pub firmware_branch: String,
    /// Short commit SHA, e.g. `e1784e74`.
    pub firmware_commit: String,
    /// Build date, e.g. `31-12-2025`.
    pub firmware_build_date: String,
}

/// The marker that opens the firmware line.
pub open spec fn marker() -> Seq<char> {
    "Firmware version:"@
}

/// The first line that, trimmed, begins with the marker; trimmed.
pub open spec fn firmware_line(ls: Seq<Seq<char>>) -> Option<Seq<char>>
    decreases ls.len(),
{
    if ls.len() == 0 {
        None
    } else if starts_with(trim(ls[0]), marker()) {
        Some(trim(ls[0]))
    } else {
        firmware_line(ls.drop_first())
    }
}

/// The word that follows the first `w` among `ts`.
pub open spec fn word_after(ts: Seq<Seq<char>>, w: Seq<char>) -> Option<Seq<char>>
    decreases ts.len(),
{
    if ts.len() == 0 {
        None
    } else if ts[0] == w {
        if ts.len() > 1 {
            Some(ts[1])
        } else {
            None
        }
    } else {
        word_after(ts.drop_first(), w)
    }
}

/// What the text after the marker says: branch, commit and build date,
/// or the message of the first thing that is missing.
pub open spec fn rest_fields(rest: Seq<char>) -> Result<(Seq<char>, Seq<char>, Seq<char>), Seq<char>> {
    match split_once(rest, '(') {
        None => Err("firmware version missing `(`"@),
        Some((head, tail)) => {
            if !(tail.len() > 0 && tail.last() == ')') {
                Err("firmware version missing `)`"@)
            } else {
                let words = tokens(head);
                let inner = tokens(tail.drop_last());
                if words.len() == 0 {
                    Err("firmware version missing branch"@)
                } else if inner.len() == 0 {
                    Err("firmware version missing sha"@)
                } else {
                    match word_after(inner, "on"@) {
                        None => Err("firmware version missing build date"@),
                        Some(date) => Ok((words[0], inner[0], date)),
                    }
                }
            }
        },
    }
}

/// What a banner says: branch, commit and build date, or the message of
/// the first thing that is missing.
pub open spec fn banner_fields(banner: Seq<char>) -> Result<
    (Seq<char>, Seq<char>, Seq<char>),
    Seq<char>,
> {
    match firmware_line(lines(banner)) {
        None => Err("boot banner missing `Firmware version:`"@),
        Some(line) => rest_fields(trim(line.skip(marker().len() as int))),
    }
}

impl Info {
    /// `self` holds branch `b`, commit `c` and date `d`, and a version of
    /// `b`, a space, then `c`.
    pub open spec fn holds(self, b: Seq<char>, c: Seq<char>, d: Seq<char>) -> bool {
        &&& self.firmware_branch@ == b
        &&& self.firmware_commit@ == c
        &&& self.firmware_build_date@ == d
        &&& self.firmware_version@ == b + " "@ + c
    }
}

/// The position of the first line of `ls` (from `i` on) that, trimmed,
/// begins with the marker.
fn find_firmware_line(cs: &Vec<char>, ls: &Vec<(usize, usize)>) -> (r: Option<(usize, usize)>)
    requires
        ranges_within(ls@, 0, cs.len() as int),
    ensures
        match r {
            Some((a, b)) => a <= b <= cs.len() && firmware_line(pieces(cs@, ls@)) == Some(
                cs@.subrange(a as int, b as int),
            ) && starts_with(cs@.subrange(a as int, b as int), marker()),
            None => firmware_line(pieces(cs@, ls@)) is None,
        },
{
    let ghost all = pieces(cs@, ls@);
    let mut i: usize = 0;
    assert(all.skip(0) =~= all);
    while i < ls.len()
        invariant
            i <= ls.len(),
            ranges_within(ls@, 0, cs.len() as int),
            all == pieces(cs@, ls@),
            firmware_line(all) == firmware_line(all.skip(i as int)),
        decreases ls.len() - i,
    {
        let (a, b) = ls[i];
        let (ta, tb) = trim_range(cs, a, b);
        assert(all.skip(i as int)[0] == cs@.subrange(a as int, b as int));
        assert(all.skip(i as int).drop_first() =~= all.skip(i + 1));
        if range_starts_with(cs, ta, tb, "Firmware version:") {
            return Some((ta, tb));
        }
        i = i + 1;
    }
    assert(all.skip(i as int) =~= Seq::<Seq<char>>::empty());
    None
}

/// The word after the first `on` among the tokens `ts` of `cs`.
fn find_word_after_on(cs: &Vec<char>, ts: &Vec<(usize, usize)>, lo: usize, hi: usize) -> (r: Option<
    (usize, usize),
>)
    requires
        ranges_within(ts@, lo as int, hi as int),
        hi <= cs.len(),
    ensures
        match r {
            Some((a, b)) => a <= b <= cs.len() && word_after(pieces(cs@, ts@), "on"@) == Some(
                cs@.subrange(a as int, b as int),
            ),
            None => word_after(pieces(cs@, ts@), "on"@) is None,
        },
{
    let ghost all = pieces(cs@, ts@);
    let mut i: usize = 0;
    assert(all.skip(0) =~= all);
    while i < ts.len()
        invariant
            i <= ts.len(),
            ranges_within(ts@, lo as int, hi as int),
            hi <= cs.len(),
            all == pieces(cs@, ts@),
            word_after(all, "on"@) == word_after(all.skip(i as int), "on"@),
        decreases ts.len() - i,
    {
        let (a, b) = ts[i];
        assert(all.skip(i as int)[0] == cs@.subrange(a as int, b as int));
        assert(all.skip(i as int).drop_first() =~= all.skip(i + 1));
        if range_is(cs, a, b, "on") {
            if i + 1 < ts.len() {
                let (c, d) = ts[i + 1];
                assert(all.skip(i as int)[1] == cs@.subrange(c as int, d as int));
                return Some((c, d));
            } else {
                return None;
            }
        }
        i = i + 1;
    }
    assert(all.skip(i as int) =~= Seq::<Seq<char>>::empty());
    None
}

/// The fields that the text `cs[ra..rb]` after the marker gives.
#[verifier::spinoff_prover]
fn parse_rest(cs: &Vec<char>, ra: usize, rb: usize) -> (r: Result<Info, FlipperError>)
    requires
        ra <= rb <= cs.len(),
    ensures
        match rest_fields(cs@.subrange(ra as int, rb as int)) {
            Ok((b, c, d)) => r matches Ok(i) && i.holds(b, c, d),
            Err(m) => r matches Err(e) && is_parse_error(e, m),
        },
{
    let ghost rest = cs@.subrange(ra as int, rb as int);
    let open = match find_char(cs, ra, rb, '(') {
        Some(j) => j,
        None => {
            return Err(FlipperError::Parse(owned("firmware version missing `(`")));
        },
    };
    assert(rest.take(open - ra) =~= cs@.subrange(ra as int, open as int));
    assert(rest.skip(open - ra + 1) =~= cs@.subrange(open + 1, rb as int));
    if !(open + 1 < rb && cs[rb - 1] == ')') {
        return Err(FlipperError::Parse(owned("firmware version missing `)`")));
    }
    assert(cs@.subrange(open + 1, rb as int).drop_last() =~= cs@.subrange(open + 1, rb - 1));
    let words = token_ranges(cs, ra, open);
    let inner = token_ranges(cs, open + 1, rb - 1);
    if words.len() == 0 {
        return Err(FlipperError::Parse(owned("firmware version missing branch")));
    }
    if inner.len() == 0 {
        return Err(FlipperError::Parse(owned("firmware version missing sha")));
    }
    let date = match find_word_after_on(cs, &inner, open + 1, rb - 1) {
        Some((a, b)) => string_of(cs, a, b),
        None => {
            return Err(FlipperError::Parse(owned("firmware version missing build date")));
        },
    };
    let (wa, wb) = words[0];
    let (ia, ib) = inner[0];
    assert(pieces(cs@, words@)[0] == cs@.subrange(wa as int, wb as int));
    assert(pieces(cs@, inner@)[0] == cs@.subrange(ia as int, ib as int));
    let branch = string_of(cs, wa, wb);
    let commit = string_of(cs, ia, ib);
    let spaced = concat(branch.as_str(), " ");
    let version = concat(spaced.as_str(), commit.as_str());
    Ok(
        Info {
            firmware_version: version,
            firmware_branch: branch,
            firmware_commit: commit,
            firmware_build_date: date,
        },
    )
}

impl Info {
    /// Parses the boot banner's `Firmware version:` line, tolerating
    /// any surrounding text.  A missing line, or one without the
    /// `<branch> <commit-ish> (<sha> built on <date>)` shape, is a parse
    /// error that names what is missing.
    pub fn parse(banner: &str) -> (r: Result<Info, FlipperError>)
        ensures
            match banner_fields(banner@) {
                Ok((b, c, d)) => r matches Ok(i) && i.holds(b, c, d),
                Err(m) => r matches Err(e) && is_parse_error(e, m),
            },
    {
        let cs = chars_of(banner);
        let ls = line_ranges(&cs);
        let (la, lb) = match find_firmware_line(&cs, &ls) {
            Some(p) => p,
            None => {
                return Err(
                    FlipperError::Parse(owned("boot banner missing `Firmware version:`")),
                );
            },
        };
        let ghost line = cs@.subrange(la as int, lb as int);
        let m = chars_of("Firmware version:");
        let (ra, rb) = trim_range(&cs, la + m.len(), lb);
        assert(line.skip(m.len() as int) =~= cs@.subrange(la + m.len(), lb as int));
        parse_rest(&cs, ra, rb)
    }
}

/// The firmware info a raw boot banner gives; a banner that is not UTF-8
/// is a parse error.
pub fn parse_banner_reply(banner: &[u8]) -> (r: Result<Info, FlipperError>)
    ensures
        match decoded(banner@) {
            Some(text) => match banner_fields(text) {
                Ok((b, c, d)) => r matches Ok(i) && i.holds(b, c, d),
                Err(m) => r matches Err(e) && is_parse_error(e, m),
            },
            None => r matches Err(e) && is_parse_error(
                e,
                "banner not utf-8: "@ + utf8_error_text(banner@),
            ),
        },
{
    match str_from_utf8(banner) {
        Ok(text) => Info::parse(text),
        Err(m) => Err(FlipperError::Parse(concat("banner not utf-8: ", m.as_str()))),
    }
}

/// The text after `Firmware version:` on the banner's firmware line,
/// trimmed.
pub open spec fn version_text(banner: Seq<char>) -> Seq<char> {
    trim(firmware_line(lines(banner))->0.skip(marker().len() as int))
}

/// What the fields of a parsed firmware line are: for a line
/// `Firmware version: <head> (<inner>)`, the branch is the first word of
/// `<head>` (whatever words follow it), the commit is the first word of
/// `<inner>`, and the build date is the word right after the first `on`
/// in `<inner>`.
pub proof fn lemma_banner_fields_are_words(banner: Seq<char>)
    requires
        banner_fields(banner) is Ok,
    ensures
        firmware_line(lines(banner)) is Some,
        split_once(version_text(banner), '(') is Some,
        ({
            let (b, c, d) = banner_fields(banner)->Ok_0;
            let (head, tail) = split_once(version_text(banner), '(')->0;
            let inner = tokens(tail.drop_last());
            &&& is_first_word(head, b)
            &&& tail.len() > 0
            &&& tail.last() == ')'
            &&& is_first_word(tail.drop_last(), c)
            &&& exists|j: int|
                #![trigger inner[j]]
                0 <= j && j + 1 < inner.len() && inner[j] == "on"@ && inner[j + 1] == d
                    && forall|i: int| 0 <= i < j ==> #[trigger] inner[i] != "on"@
        }),
{
    let rest = version_text(banner);
    let (head, tail) = split_once(rest, '(')->0;
    let words = tokens(head);
    let inner = tokens(tail.drop_last());
    lemma_tokens_first(head);
    lemma_tokens_first(tail.drop_last());
    lemma_word_after(inner, "on"@);
}

/// `word_after` finds the word right after the first occurrence of `w`.
proof fn lemma_word_after(ts: Seq<Seq<char>>, w: Seq<char>)
    requires
        word_after(ts, w) is Some,
    ensures
        exists|j: int|
            #![trigger ts[j]]
            0 <= j && j + 1 < ts.len() && ts[j] == w && ts[j + 1] == word_after(ts, w)->0
                && forall|i: int| 0 <= i < j ==> #[trigger] ts[i] != w,
    decreases ts.len(),
{
    if ts[0] == w {
        assert(0 + 1 < ts.len() && ts[0] == w && ts[1] == word_after(ts, w)->0);
    } else {
        let rest = ts.drop_first();
        lemma_word_after(rest, w);
        let j = choose|j: int|
            #![trigger rest[j]]
            0 <= j && j + 1 < rest.len() && rest[j] == w && rest[j + 1] == word_after(rest, w)->0
                && forall|i: int| 0 <= i < j ==> #[trigger] rest[i] != w;
        assert(ts[j + 1] == w && ts[j + 2] == word_after(ts, w)->0);
        assert forall|i: int| 0 <= i < j + 1 implies #[trigger] ts[i] != w by {
            if i > 0 {
                assert(ts[i] == rest[i - 1]);
            }
        }
    }
}

} // verus!
