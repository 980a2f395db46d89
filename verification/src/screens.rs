//! What the screens compute: where the storage browsers point, and the
//! sizes, usage and status lines they show.

use vstd::prelude::*;
use crate::protocol::StorageEntry;
use crate::settings::StorageInfo;
use crate::text::{
    chars_of, concat, decimal, decimal_string, ends_with, not_char, owned, range_ends_with,
    string_of, trail, lemma_trail, lemma_trail_at, trim_end_matches, trim_end_matches_range,
};
use crate::updates::UpdateState;

verus! {

/// Where a storage browser points: the path last sent to the device.
#[derive(Debug, Clone, PartialEq, Eq)]
pub struct StorageLocation {
    pub path: String,
}

impl View for StorageLocation {
    type V = Seq<char>;

    open spec fn view(&self) -> Seq<char> {
        self.path@
    }
}

/// The path of `child` inside `path`, joined by a single `/`.
pub open spec fn joined(path: Seq<char>, child: Seq<char>) -> Seq<char> {
    if ends_with(path, "/"@) {
        path + child
    } else {
        path + "/"@ + child
    }
}

/// The position of the last `/` in `t`, if any.
pub open spec fn last_slash(t: Seq<char>) -> Option<int> {
    let k = trail(t, not_char('/'));
    if k < t.len() {
        Some(t.len() - k - 1)
    } else {
        None
    }
}

/// The parent of `path`: trailing `/`s dropped, then everything before
/// the last `/`; none when there is no `/` or the parent would be empty.
pub open spec fn parent_of(path: Seq<char>) -> Option<Seq<char>> {
    let t = trim_end_matches(path, "/"@);
    match last_slash(t) {
        Some(i) => if i == 0 {
            None
        } else {
            Some(t.take(i))
        },
        None => None,
    }
}

/// Position of the last `/` in `cs[0..hi]`.
fn rfind_slash(cs: &Vec<char>, hi: usize) -> (r: Option<usize>)
    requires
        hi <= cs.len(),
    ensures
        match last_slash(cs@.subrange(0, hi as int)) {
            Some(i) => r == Some(i as usize),
            None => r is None,
        },
{
    let ghost t = cs@.subrange(0, hi as int);
    let mut j = hi;
    while j > 0 && cs[j - 1] != '/'
        invariant
            j <= hi <= cs.len(),
            t == cs@.subrange(0, hi as int),
            forall|k: int| j <= k < hi ==> not_char('/')(#[trigger] t[k]),
        decreases j,
    {
        assert(t[j - 1] == cs@[j - 1]);
        j = j - 1;
    }
    proof {
        if j > 0 {
            assert(t[j - 1] == cs@[j - 1]);
        }
        lemma_trail_at(t, not_char('/'), j as int);
    }
    if j > 0 {
        Some(j - 1)
    } else {
        None
    }
}

impl StorageLocation {
    /// The root every Storage browser starts at.
    pub fn root() -> (r: StorageLocation)
        ensures
            r@ == "/ext"@,
    {
        StorageLocation { path: owned("/ext") }
    }

    /// `cd` into a child directory: the current path and `child`, joined
    /// by a single `/`.
    pub fn descend(&self, child: &str) -> (r: StorageLocation)
        ensures
            r@ == joined(self@, child@),
    {
        let cs = chars_of(self.path.as_str());
        let path = if range_ends_with(&cs, 0, cs.len(), "/") {
            assert(cs@.subrange(0, cs.len() as int) =~= cs@);
            concat(self.path.as_str(), child)
        } else {
            assert(cs@.subrange(0, cs.len() as int) =~= cs@);
            let with_slash = concat(self.path.as_str(), "/");
            concat(with_slash.as_str(), child)
        };
        StorageLocation { path }
    }

    /// Pops one directory component off the end; none at the top, where
    /// the caller leaves the screen rather than wrap around.
    pub fn ascend(&self) -> (r: Option<StorageLocation>)
        ensures
            match parent_of(self@) {
                Some(p) => r matches Some(l) && l@ == p,
                None => r is None,
            },
    {
        let cs = chars_of(self.path.as_str());
        let e = trim_end_matches_range(&cs, 0, cs.len(), "/");
        assert(cs@.subrange(0, cs.len() as int) =~= cs@);
        match rfind_slash(&cs, e) {
            Some(i) => {
                if i == 0 {
                    None
                } else {
                    assert(cs@.subrange(0, e as int).take(i as int) =~= cs@.subrange(0, i as int));
                    Some(StorageLocation { path: string_of(&cs, 0, i) })
                }
            },
            None => None,
        }
    }
}

/// Backing out of a directory entered from a location returns to that
/// location: for a nonempty path that does not end in `/` and a nonempty
/// child name without `/`, the parent of the joined path is the path.
pub proof fn lemma_ascend_undoes_descend(path: Seq<char>, child: Seq<char>)
    requires
        path.len() > 0,
        !ends_with(path, "/"@),
        child.len() > 0,
        forall|i: int| 0 <= i < child.len() ==> child[i] != '/',
    ensures
        parent_of(joined(path, child)) == Some(path),
{
    reveal_strlit("/");
    let q = path + "/"@ + child;
    assert(joined(path, child) == q);
    assert(q.last() == child.last());
    assert(!ends_with(q, "/"@)) by {
        if ends_with(q, "/"@) {
            assert(q.skip(q.len() - 1)[0] == q.last());
        }
    }
    assert(trim_end_matches(q, "/"@) == q);
    lemma_trail_at(q, not_char('/'), (path.len() + 1) as int);
    assert(q.take(path.len() as int) =~= path);
}

/// `/ext`, the Storage browser's root, has no parent: `Esc` there
/// leaves the browser.
pub proof fn lemma_storage_root_has_no_parent()
    ensures
        parent_of("/ext"@) is None,
{
    reveal_strlit("/ext");
    reveal_strlit("/");
    let t = "/ext"@;
    assert(!ends_with(t, "/"@)) by {
        assert(t.skip(t.len() - 1)[0] == t[3]);
    }
    assert(trim_end_matches(t, "/"@) == t);
    lemma_trail_at(t, not_char('/'), 1);
}

/// `/ext/apps`, the Apps browser's root, has `/ext` as its parent: `Esc`
/// there moves the browser up rather than leave it.
pub proof fn lemma_apps_root_parent()
    ensures
        parent_of("/ext/apps"@) == Some("/ext"@),
{
    reveal_strlit("/ext/apps");
    reveal_strlit("/ext");
    reveal_strlit("/");
    let t = "/ext/apps"@;
    assert(!ends_with(t, "/"@)) by {
        assert(t.skip(t.len() - 1)[0] == t[8]);
    }
    assert(trim_end_matches(t, "/"@) == t);
    lemma_trail_at(t, not_char('/'), 5);
    assert(t.take(4) =~= "/ext"@);
}

/// The Apps browser: the listing of `/ext/apps`.
#[derive(Debug)]
pub struct Apps;

impl Apps {
    pub fn new() -> (r: Apps) {
        Apps
    }

    /// The root every Apps browser starts at.
    pub fn root() -> (r: StorageLocation)
        ensures
            r@ == "/ext/apps"@,
    {
        StorageLocation { path: owned("/ext/apps") }
    }
}

impl Default for Apps {
    fn default() -> (r: Apps) {
        Apps
    }
}

/// The Dashboard: hardware, firmware, radio and flash metadata.
#[derive(Debug)]
pub struct Dashboard;

impl Dashboard {
    pub fn new() -> (r: Dashboard) {
        Dashboard
    }
}

impl Default for Dashboard {
    fn default() -> (r: Dashboard) {
        Dashboard
    }
}

/// The device picker.
#[derive(Debug)]
pub struct Devices;

impl Devices {
    pub fn new() -> (r: Devices) {
        Devices
    }
}

impl Default for Devices {
    fn default() -> (r: Devices) {
        Devices
    }
}

/// The cheat sheet of every binding.
#[derive(Debug)]
pub struct Help;

impl Help {
    pub fn new() -> (r: Help) {
        Help
    }
}

impl Default for Help {
    fn default() -> (r: Help) {
        Help
    }
}

/// The device and storage-volume settings.
#[derive(Debug)]
pub struct Settings;

impl Settings {
    pub fn new() -> (r: Settings) {
        Settings
    }
}

impl Default for Settings {
    fn default() -> (r: Settings) {
        Settings
    }
}

/// The storage browser.
#[derive(Debug)]
pub struct Storage;

impl Storage {
    pub fn new() -> (r: Storage) {
        Storage
    }
}

impl Default for Storage {
    fn default() -> (r: Storage) {
        Storage
    }
}

/// The update status screen.
#[derive(Debug)]
pub struct Updates;

impl Updates {
    pub fn new() -> (r: Updates) {
        Updates
    }
}

impl Default for Updates {
    fn default() -> (r: Updates) {
        Updates
    }
}

pub open spec fn kib() -> nat {
    1024
}

pub open spec fn mib() -> nat {
    1024 * 1024
}

pub open spec fn gib() -> nat {
    1024 * 1024 * 1024
}

/// A byte count as whole `MiB`, `KiB` or `B`.
pub open spec fn size_text(bytes: nat) -> Seq<char> {
    if bytes >= mib() {
        decimal(bytes / mib()) + " MiB"@
    } else if bytes >= kib() {
        decimal(bytes / kib()) + " KiB"@
    } else {
        decimal(bytes) + " B"@
    }
}

/// A byte count as whole `GiB`, `MiB`, `KiB` or `B`.
pub open spec fn bytes_text(bytes: nat) -> Seq<char> {
    if bytes >= gib() {
        decimal(bytes / gib()) + " GiB"@
    } else {
        size_text(bytes)
    }
}

/// `n` followed by `unit`.
fn with_unit(n: u64, unit: &str) -> (r: String)
    ensures
        r@ == decimal(n as nat) + unit@,
{
    let d = decimal_string(n);
    concat(d.as_str(), unit)
}

/// The size column of the storage browser.
pub fn human_size(bytes: u64) -> (r: String)
    ensures
        r@ == size_text(bytes as nat),
{
    if bytes >= 1024 * 1024 {
        with_unit(bytes / (1024 * 1024), " MiB")
    } else if bytes >= 1024 {
        with_unit(bytes / 1024, " KiB")
    } else {
        with_unit(bytes, " B")
    }
}

/// The byte counts of the settings screen.
pub fn human_bytes(bytes: u64) -> (r: String)
    ensures
        r@ == bytes_text(bytes as nat),
{
    if bytes >= 1024 * 1024 * 1024 {
        with_unit(bytes / (1024 * 1024 * 1024), " GiB")
    } else {
        human_size(bytes)
    }
}

/// The flag column of a browser row: `[D] ` for directories, `[F] ` for
/// files.
pub fn entry_flag(e: &StorageEntry) -> (r: &'static str)
    ensures
        r@ == (if e.is_dir {
            "[D] "@
        } else {
            "[F] "@
        }),
{
    if e.is_dir {
        "[D] "
    } else {
        "[F] "
    }
}

/// The size column of a storage browser row: `<dir>` for directories.
pub fn entry_size(e: &StorageEntry) -> (r: String)
    ensures
        r@ == (if e.is_dir {
            "<dir>"@
        } else {
            size_text(e.size as nat)
        }),
{
    if e.is_dir {
        owned("<dir>")
    } else {
        human_size(e.size)
    }
}

/// How full a volume is: the used bytes (total minus free, at least 0),
/// and the used share in whole percent when the total is nonzero and
/// `used * 100` fits in a `u64`.
pub fn storage_usage(s: &StorageInfo) -> (r: (u64, Option<u64>))
    ensures
        r.0 == (if s.total_bytes >= s.free_bytes {
            s.total_bytes - s.free_bytes
        } else {
            0
        }),
        r.1 == (if r.0 * 100 <= u64::MAX && s.total_bytes > 0 {
            Some(((r.0 * 100) / (s.total_bytes as int)) as u64)
        } else {
            None::<u64>
        }),
{
    let used = if s.total_bytes >= s.free_bytes {
        s.total_bytes - s.free_bytes
    } else {
        0
    };
    let pct = if used <= u64::MAX / 100 && s.total_bytes > 0 {
        Some((used * 100) / s.total_bytes)
    } else {
        None
    };
    proof {
        if used <= u64::MAX / 100 {
            assert(used * 100 <= u64::MAX);
        } else {
            assert(used * 100 > u64::MAX);
        }
    }
    (used, pct)
}

/// The colour a status line is shown in.
#[derive(Debug, Clone, Copy, PartialEq, Eq)]
pub enum Tone {
    DarkGray,
    Yellow,
    Cyan,
    Green,
    Red,
}

/// The status line of the Updates screen for a check state, and its
/// colour.
pub fn state_line(state: &UpdateState) -> (r: (&'static str, Tone))
    ensures
        r == match state {
            UpdateState::Unknown => ("unknown — press c to check", Tone::DarkGray),
            UpdateState::NotSupported => (
                "not supported on this firmware — v0.2 will add protobuf RPC",
                Tone::Yellow,
            ),
            UpdateState::Checking => ("checking…", Tone::Cyan),
            UpdateState::NoUpdates => ("up to date", Tone::Green),
            UpdateState::UpdateAvailable { .. } => ("update available", Tone::Green),
            UpdateState::Error(_) => ("error", Tone::Red),
        },
{
    match state {
        UpdateState::Unknown => ("unknown — press c to check", Tone::DarkGray),
        UpdateState::NotSupported => (
            "not supported on this firmware — v0.2 will add protobuf RPC",
            Tone::Yellow,
        ),
        UpdateState::Checking => ("checking…", Tone::Cyan),
        UpdateState::NoUpdates => ("up to date", Tone::Green),
        UpdateState::UpdateAvailable { .. } => ("update available", Tone::Green),
        UpdateState::Error(_) => ("error", Tone::Red),
    }
}

} // verus!
