//! The TUI's state machine: which screen is shown, where the browsers
//! point, and which refreshes a key press asks for.  The event loop
//! performs the refreshes and hands their replies back.

use vstd::prelude::*;
use crate::device::DeviceInfo;
use crate::error::FlipperError;
use crate::info::Info;
use crate::keymap::{dashboard_nav, first_target, is_upper, normalized, same_key, upper, KeyCode, KeyEvent};
use crate::kv::key_values;
use crate::protocol::{entry_views, listing, parse_storage_list, StorageEntry};
use crate::screens::{
    joined, lemma_apps_root_parent, lemma_ascend_undoes_descend, lemma_storage_root_has_no_parent,
    parent_of, Apps, StorageLocation,
};
use crate::settings::{parse_storage_info, StorageInfo};
use crate::text::{chars_of, decoded, ends_with, owned, str_from_utf8, trim, trim_range};
use crate::updates::{UpdateState, UpdateStatus};

verus! {

/// The screens of the TUI.
#[derive(Debug, Clone, Copy, PartialEq, Eq, Structural)]
pub enum Screen {
    Devices,
    Dashboard,
    Storage,
    Apps,
    Settings,
    Updates,
    Help,
}

/// The TUI's local state.
#[derive(Debug)]
pub struct AppState {
    /// The screen shown.
    pub screen: Screen,
    /// The cached device info.
    pub info: DeviceInfo,
    /// The serial endpoints last detected.
    pub devices: Vec<String>,
    /// Where the Storage browser points.
    pub storage_location: StorageLocation,
    /// The listing of `storage_location`.
    pub storage_entries: Vec<StorageEntry>,
    /// The Storage listing must be fetched again.
    pub storage_dirty: bool,
    /// Where the Apps browser points, independent of Storage.
    pub apps_location: StorageLocation,
    /// The listing of `apps_location`.
    pub apps_entries: Vec<StorageEntry>,
    /// The Apps listing must be fetched again.
    pub apps_dirty: bool,
    /// The last `storage info /ext` snapshot, if one arrived.
    pub settings_storage: Option<StorageInfo>,
    /// The Settings snapshot must be fetched again.
    pub settings_dirty: bool,
    /// The Updates screen's status.
    pub updates: UpdateStatus,
    /// An update check must be run.
    pub updates_dirty: bool,
}

/// What the event loop must do after a key press: quit, rescan the
/// serial endpoints, then fetch again the views marked here, in the
/// order Storage, Apps, Settings, Updates.
#[derive(Debug, Clone, Copy, PartialEq, Eq)]
pub struct KeyOutcome {
    pub quit: bool,
    pub rescan_devices: bool,
    pub refresh_storage: bool,
    pub refresh_apps: bool,
    pub refresh_settings: bool,
    pub refresh_updates: bool,
}

/// The installed-firmware record the Updates screen derives from the
/// device info: its version, branch and build, and no commit.
pub open spec fn firmware_of(i: Info, d: DeviceInfo) -> bool {
    &&& i.firmware_version@ == d.firmware_version@
    &&& i.firmware_branch@ == d.firmware_branch@
    &&& i.firmware_commit@ == Seq::<char>::empty()
    &&& i.firmware_build_date@ == d.firmware_build@
}

/// The screen after a key press (other than `q`).
pub open spec fn screen_after(s: AppState, code: KeyCode) -> Screen {
    match code {
        KeyCode::Char('?') => if s.screen == Screen::Help {
            Screen::Dashboard
        } else {
            Screen::Help
        },
        KeyCode::Esc => match s.screen {
            Screen::Help | Screen::Settings | Screen::Updates => Screen::Dashboard,
            Screen::Dashboard => Screen::Devices,
            Screen::Storage => if parent_of(s.storage_location@) is Some {
                Screen::Storage
            } else {
                Screen::Dashboard
            },
            Screen::Apps => if parent_of(s.apps_location@) is Some {
                Screen::Apps
            } else {
                Screen::Dashboard
            },
            Screen::Devices => Screen::Devices,
        },
        KeyCode::Enter => if s.screen == Screen::Devices {
            Screen::Dashboard
        } else {
            s.screen
        },
        KeyCode::Char('s') if s.screen == Screen::Dashboard => Screen::Storage,
        KeyCode::Char('a') if s.screen == Screen::Dashboard => Screen::Apps,
        KeyCode::Char('S') if s.screen == Screen::Dashboard => Screen::Settings,
        KeyCode::Char('u') if s.screen == Screen::Dashboard => Screen::Updates,
        _ => s.screen,
    }
}

/// The directory entry `selected` names, if it is one.
pub open spec fn selected_dir(entries: Seq<StorageEntry>, selected: Option<usize>) -> Option<
    Seq<char>,
> {
    match selected {
        Some(i) => if i < entries.len() && entries[i as int].is_dir {
            Some(entries[i as int].name@)
        } else {
            None
        },
        None => None,
    }
}

/// Where a browser points after a key press on its own screen
/// `own`, and whether its listing must be fetched again: `Esc` goes up
/// a level, `Enter` on a directory goes into it, `r` refetches, and the
/// Dashboard shortcut `open` resets it to `root`.
pub open spec fn browser_after(
    screen: Screen,
    own: Screen,
    open: char,
    root: Seq<char>,
    loc: Seq<char>,
    dirty: bool,
    entries: Seq<StorageEntry>,
    code: KeyCode,
    selected: Option<usize>,
) -> (Seq<char>, bool) {
    if screen == own {
        match code {
            KeyCode::Esc => match parent_of(loc) {
                Some(p) => (p, true),
                None => (loc, dirty),
            },
            KeyCode::Enter => match selected_dir(entries, selected) {
                Some(name) => (joined(loc, name), true),
                None => (loc, dirty),
            },
            KeyCode::Char('r') => (loc, true),
            _ => (loc, dirty),
        }
    } else if screen == Screen::Dashboard && code == KeyCode::Char(open) {
        (root, true)
    } else {
        (loc, dirty)
    }
}

/// Whether the Settings snapshot must be fetched after a key press.
pub open spec fn settings_dirty_after(s: AppState, code: KeyCode) -> bool {
    (s.screen == Screen::Dashboard && code == KeyCode::Char('S')) || (s.screen
        == Screen::Settings && code == KeyCode::Char('r')) || s.settings_dirty
}

/// Whether an update check must run after a key press.
pub open spec fn updates_dirty_after(s: AppState, code: KeyCode) -> bool {
    (s.screen == Screen::Dashboard && code == KeyCode::Char('u')) || (s.screen == Screen::Updates
        && (code == KeyCode::Char('c') || code == KeyCode::Char('r'))) || s.updates_dirty
}

/// `post` and `out` are what a press of `code`, with list row
/// `selected` highlighted, makes of `pre`.  `q` quits and changes
/// nothing; any other key moves between screens and browser locations
/// and then hands every pending refresh to the event loop, leaving none
/// pending.
pub open spec fn key_step(
    pre: AppState,
    code: KeyCode,
    selected: Option<usize>,
    post: AppState,
    out: KeyOutcome,
) -> bool {
    if code == KeyCode::Char('q') {
        &&& out.quit
        &&& !out.rescan_devices
        &&& !out.refresh_storage && !out.refresh_apps && !out.refresh_settings
            && !out.refresh_updates
        &&& post == pre
    } else {
        let storage = browser_after(
            pre.screen,
            Screen::Storage,
            's',
            "/ext"@,
            pre.storage_location@,
            pre.storage_dirty,
            pre.storage_entries@,
            code,
            selected,
        );
        let apps = browser_after(
            pre.screen,
            Screen::Apps,
            'a',
            "/ext/apps"@,
            pre.apps_location@,
            pre.apps_dirty,
            pre.apps_entries@,
            code,
            selected,
        );
        &&& !out.quit
        &&& out.rescan_devices == (pre.screen == Screen::Devices && code == KeyCode::Char('r'))
        &&& post.screen == screen_after(pre, code)
        &&& post.storage_location@ == storage.0
        &&& out.refresh_storage == storage.1
        &&& post.apps_location@ == apps.0
        &&& out.refresh_apps == apps.1
        &&& out.refresh_settings == settings_dirty_after(pre, code)
        &&& out.refresh_updates == updates_dirty_after(pre, code)
        &&& !post.storage_dirty && !post.apps_dirty && !post.settings_dirty
            && !post.updates_dirty
        &&& post.info == pre.info
        &&& post.devices == pre.devices
        &&& post.storage_entries == pre.storage_entries
        &&& post.apps_entries == pre.apps_entries
        &&& post.settings_storage == pre.settings_storage
        &&& post.updates == pre.updates
    }
}

/// The installed-firmware record for the Updates screen.
fn installed_firmware(d: &DeviceInfo) -> (r: Info)
    ensures
        firmware_of(r, *d),
{
    Info {
        firmware_version: d.firmware_version.clone(),
        firmware_branch: d.firmware_branch.clone(),
        firmware_commit: String::new(),
        firmware_build_date: d.firmware_build.clone(),
    }
}

/// A browser after `Esc` on its screen: up one level, or `None` at its
/// top.
fn up(loc: &StorageLocation) -> (r: Option<StorageLocation>)
    ensures
        match parent_of(loc@) {
            Some(p) => r matches Some(l) && l@ == p,
            None => r is None,
        },
{
    loc.ascend()
}

/// The directory entry the highlighted row names, if it is one.
fn selected_entry(entries: &Vec<StorageEntry>, selected: Option<usize>) -> (r: Option<&StorageEntry>)
    ensures
        match selected_dir(entries@, selected) {
            Some(name) => r matches Some(e) && e.name@ == name,
            None => r is None,
        },
{
    match selected {
        Some(i) => if i < entries.len() && entries[i].is_dir {
            Some(&entries[i])
        } else {
            None
        },
        None => None,
    }
}

impl AppState {
    /// The state on launch: the Devices screen, both browsers at their
    /// roots with nothing listed, the Settings snapshot due on the first
    /// key press, and the Updates screen showing the installed firmware
    /// with checks unsupported.
    pub fn new(info: DeviceInfo) -> (r: AppState)
        ensures
            r.screen == Screen::Devices,
            r.info == info,
            r.devices@.len() == 0,
            r.storage_location@ == "/ext"@,
            r.storage_entries@.len() == 0,
            !r.storage_dirty,
            r.apps_location@ == "/ext/apps"@,
            r.apps_entries@.len() == 0,
            !r.apps_dirty,
            r.settings_storage is None,
            r.settings_dirty,
            firmware_of(r.updates.installed, info),
            r.updates.state == UpdateState::NotSupported,
            !r.updates_dirty,
    {
        let firmware = installed_firmware(&info);
        AppState {
            screen: Screen::Devices,
            info,
            devices: Vec::new(),
            storage_location: StorageLocation::root(),
            storage_entries: Vec::new(),
            storage_dirty: false,
            apps_location: Apps::root(),
            apps_entries: Vec::new(),
            apps_dirty: false,
            settings_storage: None,
            settings_dirty: true,
            updates: UpdateStatus::unsupported(firmware),
            updates_dirty: false,
        }
    }

    /// Handles one key press; `selected` is the highlighted list row.
    pub fn on_key(&mut self, key: KeyEvent, selected: Option<usize>) -> (r: KeyOutcome)
        ensures
            key_step(*old(self), key.code, selected, *final(self), r),
    {
        let ghost pre = *self;
        let mut rescan = false;
        match (key.code, self.screen) {
            (KeyCode::Char('q'), _) => {
                return KeyOutcome {
                    quit: true,
                    rescan_devices: false,
                    refresh_storage: false,
                    refresh_apps: false,
                    refresh_settings: false,
                    refresh_updates: false,
                };
            },
            (KeyCode::Char('?'), Screen::Help)
            | (KeyCode::Esc, Screen::Help)
            | (KeyCode::Enter, Screen::Devices)
            | (KeyCode::Esc, Screen::Settings)
            | (KeyCode::Esc, Screen::Updates) => {
                self.screen = Screen::Dashboard;
            },
            (KeyCode::Char('?'), _) => {
                self.screen = Screen::Help;
            },
            (KeyCode::Esc, Screen::Dashboard) => {
                self.screen = Screen::Devices;
            },
            (KeyCode::Esc, Screen::Storage) => {
                match up(&self.storage_location) {
                    Some(parent) => {
                        self.storage_location = parent;
                        self.storage_dirty = true;
                    },
                    None => {
                        self.screen = Screen::Dashboard;
                    },
                }
            },
            (KeyCode::Esc, Screen::Apps) => {
                match up(&self.apps_location) {
                    Some(parent) => {
                        self.apps_location = parent;
                        self.apps_dirty = true;
                    },
                    None => {
                        self.screen = Screen::Dashboard;
                    },
                }
            },
            (KeyCode::Char('s'), Screen::Dashboard) => {
                self.screen = Screen::Storage;
                self.storage_location = StorageLocation::root();
                self.storage_dirty = true;
            },
            (KeyCode::Char('a'), Screen::Dashboard) => {
                self.screen = Screen::Apps;
                self.apps_location = Apps::root();
                self.apps_dirty = true;
            },
            (KeyCode::Char('S'), Screen::Dashboard) => {
                self.screen = Screen::Settings;
                self.settings_dirty = true;
            },
            (KeyCode::Char('u'), Screen::Dashboard) => {
                self.screen = Screen::Updates;
                self.updates_dirty = true;
            },
            (KeyCode::Enter, Screen::Storage) => {
                let next = match selected_entry(&self.storage_entries, selected) {
                    Some(entry) => Some(self.storage_location.descend(entry.name.as_str())),
                    None => None,
                };
                if let Some(loc) = next {
                    self.storage_location = loc;
                    self.storage_dirty = true;
                }
            },
            (KeyCode::Enter, Screen::Apps) => {
                let next = match selected_entry(&self.apps_entries, selected) {
                    Some(entry) => Some(self.apps_location.descend(entry.name.as_str())),
                    None => None,
                };
                if let Some(loc) = next {
                    self.apps_location = loc;
                    self.apps_dirty = true;
                }
            },
            (KeyCode::Char('r'), Screen::Devices) => {
                rescan = true;
            },
            (KeyCode::Char('r'), Screen::Storage) => {
                self.storage_dirty = true;
            },
            (KeyCode::Char('r'), Screen::Apps) => {
                self.apps_dirty = true;
            },
            (KeyCode::Char('r'), Screen::Settings) => {
                self.settings_dirty = true;
            },
            (KeyCode::Char('c'), Screen::Updates) => {
                self.updates_dirty = true;
            },
            (KeyCode::Char('r'), Screen::Updates) => {
                self.updates_dirty = true;
            },
            _ => {},
        }
        let out = KeyOutcome {
            quit: false,
            rescan_devices: rescan,
            refresh_storage: self.storage_dirty,
            refresh_apps: self.apps_dirty,
            refresh_settings: self.settings_dirty,
            refresh_updates: self.updates_dirty,
        };
        self.storage_dirty = false;
        self.apps_dirty = false;
        self.settings_dirty = false;
        self.updates_dirty = false;
        out
    }
}

/// The entries a listing reply gives: none when it is not UTF-8.
pub open spec fn listing_of_reply(reply: Seq<u8>) -> Seq<(Seq<char>, bool, u64)> {
    match decoded(reply) {
        Some(text) => listing(text),
        None => seq![],
    }
}

/// `post` differs from `pre` at most in the listed entries of the two
/// browsers, the Settings snapshot, the update status and the devices.
pub open spec fn same_navigation(pre: AppState, post: AppState) -> bool {
    &&& post.screen == pre.screen
    &&& post.info == pre.info
    &&& post.storage_location == pre.storage_location
    &&& post.storage_dirty == pre.storage_dirty
    &&& post.apps_location == pre.apps_location
    &&& post.apps_dirty == pre.apps_dirty
    &&& post.settings_dirty == pre.settings_dirty
    &&& post.updates_dirty == pre.updates_dirty
}

/// The entries of a listing reply, none when it is not UTF-8.
fn entries_or_empty(reply: &[u8]) -> (r: Vec<StorageEntry>)
    ensures
        entry_views(r@) == listing_of_reply(reply@),
{
    match parse_storage_list(reply) {
        Ok(v) => v,
        Err(_) => {
            let v: Vec<StorageEntry> = Vec::new();
            assert(entry_views(v@) =~= Seq::<(Seq<char>, bool, u64)>::empty());
            v
        },
    }
}

impl AppState {
    /// Records the serial endpoints of a rescan.
    pub fn set_devices(&mut self, paths: Vec<String>)
        ensures
            final(self).devices == paths,
            same_navigation(*old(self), *final(self)),
            final(self).storage_entries == old(self).storage_entries,
            final(self).apps_entries == old(self).apps_entries,
            final(self).settings_storage == old(self).settings_storage,
            final(self).updates == old(self).updates,
    {
        self.devices = paths;
    }

    /// Records the reply to `storage list` for the Storage browser.
    pub fn apply_storage_listing(&mut self, reply: &[u8])
        ensures
            entry_views(final(self).storage_entries@) == listing_of_reply(reply@),
            same_navigation(*old(self), *final(self)),
            final(self).devices == old(self).devices,
            final(self).apps_entries == old(self).apps_entries,
            final(self).settings_storage == old(self).settings_storage,
            final(self).updates == old(self).updates,
    {
        self.storage_entries = entries_or_empty(reply);
    }

    /// Records the reply to `storage list` for the Apps browser.
    pub fn apply_apps_listing(&mut self, reply: &[u8])
        ensures
            entry_views(final(self).apps_entries@) == listing_of_reply(reply@),
            same_navigation(*old(self), *final(self)),
            final(self).devices == old(self).devices,
            final(self).storage_entries == old(self).storage_entries,
            final(self).settings_storage == old(self).settings_storage,
            final(self).updates == old(self).updates,
    {
        self.apps_entries = entries_or_empty(reply);
    }

    /// Records the reply to `storage info /ext`.  A reply that is blank
    /// (or not UTF-8) leaves the last snapshot in place: the bridge may
    /// answer a cold-start request with nothing.
    pub fn apply_settings_reply(&mut self, reply: &[u8])
        ensures
            match decoded(reply@) {
                Some(text) if trim(text).len() > 0 => final(self).settings_storage matches Some(
                    si,
                ) && si.describes(key_values(text), "/ext"@),
                _ => final(self).settings_storage == old(self).settings_storage,
            },
            same_navigation(*old(self), *final(self)),
            final(self).devices == old(self).devices,
            final(self).storage_entries == old(self).storage_entries,
            final(self).apps_entries == old(self).apps_entries,
            final(self).updates == old(self).updates,
    {
        if let Ok(text) = str_from_utf8(reply) {
            let cs = chars_of(text);
            let (a, b) = trim_range(&cs, 0, cs.len());
            assert(cs@.subrange(0, cs.len() as int) =~= cs@);
            if a < b {
                self.settings_storage = Some(parse_storage_info(text, "/ext"));
            }
        }
    }

    /// Records the outcome of an update check: the installed firmware
    /// with the state the check gave, or an error state with the
    /// failure's message.
    pub fn apply_update_check(&mut self, outcome: Result<UpdateState, FlipperError>)
        ensures
            firmware_of(final(self).updates.installed, old(self).info),
            match outcome {
                Ok(state) => final(self).updates.state == state,
                Err(e) => final(self).updates.state matches UpdateState::Error(m) && m@ == e.text(),
            },
            same_navigation(*old(self), *final(self)),
            final(self).devices == old(self).devices,
            final(self).storage_entries == old(self).storage_entries,
            final(self).apps_entries == old(self).apps_entries,
            final(self).settings_storage == old(self).settings_storage,
    {
        let firmware = installed_firmware(&self.info);
        let state = match outcome {
            Ok(state) => state,
            Err(e) => UpdateState::Error(e.message()),
        };
        self.updates = UpdateStatus::new(firmware, state);
    }
}

/// Which view a refresh fetches, and so which `apply_*` takes its reply.
#[derive(Debug, Clone, Copy, PartialEq, Eq, Structural)]
pub enum Refresh {
    /// `storage list` of the Storage browser's location.
    StorageListing,
    /// `storage list` of the Apps browser's location.
    AppsListing,
    /// `storage info /ext` for the Settings screen.
    StorageInfo,
    /// `firmware update check` for the Updates screen.
    UpdateCheck,
}

/// One command the event loop sends to refresh a view.
#[derive(Debug, Clone, PartialEq, Eq)]
pub struct RefreshRequest {
    pub refresh: Refresh,
    pub command: &'static str,
    pub args: Vec<String>,
}

impl View for RefreshRequest {
    type V = (Refresh, Seq<char>, Seq<Seq<char>>);

    open spec fn view(&self) -> (Refresh, Seq<char>, Seq<Seq<char>>) {
        (self.refresh, self.command@, self.args@.map_values(|a: String| a@))
    }
}

/// The refresh commands a key outcome asks for, in the order they are
/// sent: the Storage listing, the Apps listing, the volume snapshot and
/// the update check, each only when its flag is set, with the browser
/// locations of `s`, the state after the key.
pub open spec fn refresh_plan(s: AppState, out: KeyOutcome) -> Seq<(Refresh, Seq<char>, Seq<Seq<char>>)> {
    (if out.refresh_storage {
        seq![(Refresh::StorageListing, "storage list"@, seq![s.storage_location@])]
    } else {
        seq![]
    }) + (if out.refresh_apps {
        seq![(Refresh::AppsListing, "storage list"@, seq![s.apps_location@])]
    } else {
        seq![]
    }) + (if out.refresh_settings {
        seq![(Refresh::StorageInfo, "storage info"@, seq!["/ext"@])]
    } else {
        seq![]
    }) + (if out.refresh_updates {
        seq![(Refresh::UpdateCheck, "firmware update check"@, Seq::<Seq<char>>::empty())]
    } else {
        seq![]
    })
}

/// The views of a list of requests.
pub open spec fn request_views(v: Seq<RefreshRequest>) -> Seq<(Refresh, Seq<char>, Seq<Seq<char>>)> {
    v.map_values(|r: RefreshRequest| r@)
}

/// A request with one argument.
fn request_with(refresh: Refresh, command: &'static str, arg: String) -> (r: RefreshRequest)
    ensures
        r@ == (refresh, command@, seq![arg@]),
{
    let mut args: Vec<String> = Vec::new();
    args.push(arg);
    let r = RefreshRequest { refresh, command, args };
    assert(r.args@.map_values(|a: String| a@) =~= seq![arg@]);
    r
}

impl AppState {
    /// The commands to send after a key press whose outcome is `out`,
    /// in order; `self` is the state after the key.
    pub fn refresh_requests(&self, out: &KeyOutcome) -> (r: Vec<RefreshRequest>)
        ensures
            request_views(r@) == refresh_plan(*self, *out),
    {
        let mut v: Vec<RefreshRequest> = Vec::new();
        let ghost plan = refresh_plan(*self, *out);
        if out.refresh_storage {
            v.push(request_with(Refresh::StorageListing, "storage list", self.storage_location.path.clone()));
        }
        let ghost a = request_views(v@);
        assert(a =~= (if out.refresh_storage {
            seq![(Refresh::StorageListing, "storage list"@, seq![self.storage_location@])]
        } else {
            seq![]
        }));
        if out.refresh_apps {
            v.push(request_with(Refresh::AppsListing, "storage list", self.apps_location.path.clone()));
        }
        let ghost b = request_views(v@);
        assert(b =~= a + (if out.refresh_apps {
            seq![(Refresh::AppsListing, "storage list"@, seq![self.apps_location@])]
        } else {
            seq![]
        }));
        if out.refresh_settings {
            v.push(request_with(Refresh::StorageInfo, "storage info", owned("/ext")));
        }
        let ghost c = request_views(v@);
        assert(c =~= b + (if out.refresh_settings {
            seq![(Refresh::StorageInfo, "storage info"@, seq!["/ext"@])]
        } else {
            seq![]
        }));
        if out.refresh_updates {
            let r = RefreshRequest {
                refresh: Refresh::UpdateCheck,
                command: "firmware update check",
                args: Vec::new(),
            };
            assert(r.args@.map_values(|a: String| a@) =~= Seq::<Seq<char>>::empty());
            v.push(r);
        }
        assert(request_views(v@) =~= c + (if out.refresh_updates {
            seq![(Refresh::UpdateCheck, "firmware update check"@, Seq::<Seq<char>>::empty())]
        } else {
            seq![]
        }));
        assert(request_views(v@) =~= plan);
        v
    }
}

/// After any key but `q`, no refresh is left pending, and the refresh
/// commands are one per view that was due, in the order Storage listing,
/// Apps listing, volume snapshot, update check.
pub proof fn lemma_refreshes_drained_in_order(
    pre: AppState,
    code: KeyCode,
    selected: Option<usize>,
    post: AppState,
    out: KeyOutcome,
)
    requires
        key_step(pre, code, selected, post, out),
        code != KeyCode::Char('q'),
    ensures
        !post.storage_dirty && !post.apps_dirty && !post.settings_dirty && !post.updates_dirty,
        refresh_plan(post, out).len() == (if out.refresh_storage { 1int } else { 0 }) + (if out.refresh_apps { 1int } else { 0 })
            + (if out.refresh_settings { 1int } else { 0 }) + (if out.refresh_updates { 1int } else { 0 }),
        out.refresh_settings == settings_dirty_after(pre, code),
        out.refresh_updates == updates_dirty_after(pre, code),
{
}


/// A directory name that can be entered and left: nonempty, without
/// `/`.
pub open spec fn plain_name(name: Seq<char>) -> bool {
    name.len() > 0 && forall|i: int| 0 <= i < name.len() ==> name[i] != '/'
}

/// A location that `Esc` returns to after entering one of its
/// directories: nonempty and not ending in `/`.
pub open spec fn plain_location(loc: Seq<char>) -> bool {
    loc.len() > 0 && !ends_with(loc, "/"@)
}

/// In the Storage browser, `Esc` undoes `Enter`: entering a listed
/// directory and backing out again returns to the same location, and
/// asks for its listing again.
pub proof fn lemma_storage_esc_undoes_enter(
    s0: AppState,
    s1: AppState,
    s2: AppState,
    sel1: Option<usize>,
    sel2: Option<usize>,
    o1: KeyOutcome,
    o2: KeyOutcome,
)
    requires
        s0.screen == Screen::Storage,
        selected_dir(s0.storage_entries@, sel1) matches Some(name) && plain_name(name),
        plain_location(s0.storage_location@),
        key_step(s0, KeyCode::Enter, sel1, s1, o1),
        key_step(s1, KeyCode::Esc, sel2, s2, o2),
    ensures
        s1.screen == Screen::Storage,
        s2.screen == Screen::Storage,
        s2.storage_location@ == s0.storage_location@,
        o1.refresh_storage,
        o2.refresh_storage,
{
    let name = selected_dir(s0.storage_entries@, sel1)->0;
    lemma_ascend_undoes_descend(s0.storage_location@, name);
}

/// In the Apps browser, `Esc` undoes `Enter` in the same way.
pub proof fn lemma_apps_esc_undoes_enter(
    s0: AppState,
    s1: AppState,
    s2: AppState,
    sel1: Option<usize>,
    sel2: Option<usize>,
    o1: KeyOutcome,
    o2: KeyOutcome,
)
    requires
        s0.screen == Screen::Apps,
        selected_dir(s0.apps_entries@, sel1) matches Some(name) && plain_name(name),
        plain_location(s0.apps_location@),
        key_step(s0, KeyCode::Enter, sel1, s1, o1),
        key_step(s1, KeyCode::Esc, sel2, s2, o2),
    ensures
        s1.screen == Screen::Apps,
        s2.screen == Screen::Apps,
        s2.apps_location@ == s0.apps_location@,
        o1.refresh_apps,
        o2.refresh_apps,
{
    let name = selected_dir(s0.apps_entries@, sel1)->0;
    lemma_ascend_undoes_descend(s0.apps_location@, name);
}

/// The Dashboard's navigation table documents the dispatcher: a key the
/// table maps to a screen opens that screen from the Dashboard.  Keys
/// whose code the terminal's case rule changes (a lower-case letter with
/// SHIFT) are left out: for them the table and the dispatcher disagree.
pub proof fn lemma_nav_table_matches_dispatch(
    pre: AppState,
    key: KeyEvent,
    target: Screen,
    selected: Option<usize>,
    post: AppState,
    out: KeyOutcome,
)
    requires
        pre.screen == Screen::Dashboard,
        first_target(dashboard_nav(), key) == Some(target),
        !(key.code matches KeyCode::Char(c) && 'a' <= c && c <= 'z' && key.modifiers.bits & 1
            == 1),
        key_step(pre, key.code, selected, post, out),
    ensures
        post.screen == target,
{
    assert(0u8 & 1u8 == 0u8) by (bit_vector);
    assert(0u8 | 1u8 == 1u8) by (bit_vector);
    reveal_with_fuel(first_target, 5);
    let t = dashboard_nav();
    assert(t.drop_first()[0] == t[1]);
    assert(t.drop_first().drop_first()[0] == t[2]);
    assert(t.drop_first().drop_first().drop_first()[0] == t[3]);
    assert(t.drop_first().drop_first().drop_first().drop_first().len() == 0);
    // Under the excluded case, normalizing leaves the key code alone.
    assert(normalized(key).code == key.code) by {
        if let KeyCode::Char(c) = key.code {
            if !is_upper(c) && key.modifiers.bits & 1 == 1 {
                assert(!('a' <= c && c <= 'z'));
                assert(upper(c) == c);
            }
        }
    }
    let c0 = normalized(t[0].key);
    let c1 = normalized(t[1].key);
    let c2 = normalized(t[2].key);
    let c3 = normalized(t[3].key);
    assert(c0.code == KeyCode::Char('s'));
    assert(c1.code == KeyCode::Char('a'));
    assert(c2.code == KeyCode::Char('S'));
    assert(c3.code == KeyCode::Char('u'));
    if same_key(t[0].key, key) {
        assert(target == Screen::Storage);
        assert(key.code == KeyCode::Char('s'));
    } else if same_key(t[1].key, key) {
        assert(target == Screen::Apps);
        assert(key.code == KeyCode::Char('a'));
    } else if same_key(t[2].key, key) {
        assert(target == Screen::Settings);
        assert(key.code == KeyCode::Char('S'));
    } else {
        assert(first_target(t, key) == first_target(t.drop_first().drop_first().drop_first(), key));
        assert(same_key(t[3].key, key));
        assert(target == Screen::Updates);
        assert(key.code == KeyCode::Char('u'));
    }
}

/// From the Dashboard, the shortcuts to Storage (`s`), Settings (`S`)
/// and Updates (`u`) open their screen, and `Esc` then returns to the
/// Dashboard.  The Apps shortcut is left out: the Apps browser opens at
/// `/ext/apps`, which has a parent, so `Esc` first moves it up to `/ext`.
pub proof fn lemma_shortcut_then_esc_returns(
    s0: AppState,
    c: char,
    s1: AppState,
    s2: AppState,
    sel1: Option<usize>,
    sel2: Option<usize>,
    o1: KeyOutcome,
    o2: KeyOutcome,
)
    requires
        s0.screen == Screen::Dashboard,
        c == 's' || c == 'S' || c == 'u',
        key_step(s0, KeyCode::Char(c), sel1, s1, o1),
        key_step(s1, KeyCode::Esc, sel2, s2, o2),
    ensures
        s1.screen == (if c == 's' {
            Screen::Storage
        } else if c == 'S' {
            Screen::Settings
        } else {
            Screen::Updates
        }),
        s2.screen == Screen::Dashboard,
{
    lemma_storage_root_has_no_parent();
}

/// From the Dashboard, `a` opens the Apps browser at `/ext/apps`, and
/// `Esc` then moves it up to `/ext` on the same screen.
pub proof fn lemma_apps_shortcut_then_esc(
    s0: AppState,
    s1: AppState,
    s2: AppState,
    sel1: Option<usize>,
    sel2: Option<usize>,
    o1: KeyOutcome,
    o2: KeyOutcome,
)
    requires
        s0.screen == Screen::Dashboard,
        key_step(s0, KeyCode::Char('a'), sel1, s1, o1),
        key_step(s1, KeyCode::Esc, sel2, s2, o2),
    ensures
        s1.screen == Screen::Apps,
        s1.apps_location@ == "/ext/apps"@,
        s2.screen == Screen::Apps,
        s2.apps_location@ == "/ext"@,
        o2.refresh_apps,
{
    lemma_apps_root_parent();
}

/// The two browsers are independent: no key pressed on the Apps screen
/// moves the Storage browser, and none pressed on the Storage screen
/// moves the Apps browser.
pub proof fn lemma_browsers_independent(
    pre: AppState,
    code: KeyCode,
    selected: Option<usize>,
    post: AppState,
    out: KeyOutcome,
)
    requires
        key_step(pre, code, selected, post, out),
    ensures
        pre.screen == Screen::Apps ==> post.storage_location@ == pre.storage_location@,
        pre.screen == Screen::Storage ==> post.apps_location@ == pre.apps_location@,
{
}

/// An update check runs only when the Updates screen is opened from the
/// Dashboard, or `c` or `r` is pressed on it, or one is still pending.
pub proof fn lemma_update_check_only_on_request(
    pre: AppState,
    code: KeyCode,
    selected: Option<usize>,
    post: AppState,
    out: KeyOutcome,
)
    requires
        key_step(pre, code, selected, post, out),
        out.refresh_updates,
    ensures
        (pre.screen == Screen::Dashboard && code == KeyCode::Char('u')) || (pre.screen
            == Screen::Updates && (code == KeyCode::Char('c') || code == KeyCode::Char('r')))
            || pre.updates_dirty,
{
}

/// `r` refreshes the screen it is pressed on: on Devices it rescans the
/// serial endpoints, on Storage and Apps it fetches the listing again,
/// on Settings the volume snapshot, and on Updates it runs the update
/// check; `c` on Updates checks too.  Nothing moves.
pub proof fn lemma_r_refreshes_current_screen(
    pre: AppState,
    code: KeyCode,
    selected: Option<usize>,
    post: AppState,
    out: KeyOutcome,
)
    requires
        key_step(pre, code, selected, post, out),
        code == KeyCode::Char('r') || (code == KeyCode::Char('c') && pre.screen == Screen::Updates),
    ensures
        !out.quit,
        post.screen == pre.screen,
        post.storage_location@ == pre.storage_location@,
        post.apps_location@ == pre.apps_location@,
        pre.screen == Screen::Devices ==> out.rescan_devices,
        pre.screen == Screen::Storage ==> out.refresh_storage,
        pre.screen == Screen::Apps ==> out.refresh_apps,
        pre.screen == Screen::Settings ==> out.refresh_settings,
        pre.screen == Screen::Updates ==> out.refresh_updates,
{
}

/// The moves between screens: `q` quits from anywhere and changes
/// nothing; `Enter` on Devices opens the Dashboard; `Esc` goes back from
/// the Dashboard to Devices and from Help, Settings and Updates to the
/// Dashboard, and does nothing on Devices.
pub proof fn lemma_screen_moves(
    pre: AppState,
    code: KeyCode,
    selected: Option<usize>,
    post: AppState,
    out: KeyOutcome,
)
    requires
        key_step(pre, code, selected, post, out),
    ensures
        code == KeyCode::Char('q') ==> out.quit && post == pre,
        code != KeyCode::Char('q') ==> !out.quit,
        code == KeyCode::Enter && pre.screen == Screen::Devices ==> post.screen == Screen::Dashboard,
        code == KeyCode::Esc && pre.screen == Screen::Dashboard ==> post.screen == Screen::Devices,
        code == KeyCode::Esc && (pre.screen == Screen::Help || pre.screen == Screen::Settings
            || pre.screen == Screen::Updates) ==> post.screen == Screen::Dashboard,
        code == KeyCode::Esc && pre.screen == Screen::Devices ==> post.screen == Screen::Devices,
{
}

/// `?` opens Help from any other screen, and leaves Help for the
/// Dashboard.
pub proof fn lemma_help_key(
    pre: AppState,
    selected: Option<usize>,
    post: AppState,
    out: KeyOutcome,
)
    requires
        key_step(pre, KeyCode::Char('?'), selected, post, out),
    ensures
        pre.screen != Screen::Help ==> post.screen == Screen::Help,
        pre.screen == Screen::Help ==> post.screen == Screen::Dashboard,
        !out.quit,
{
}

} // verus!
