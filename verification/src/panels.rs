//! The text of the information panels: which lines each screen shows, in
//! which order, with which values.  Drawing them is the front end's job.

use vstd::prelude::*;
use crate::device::{BootMode, DeviceInfo};
use crate::screens::{bytes_text, human_bytes, state_line, storage_usage, Tone};
use crate::settings::StorageInfo;
use crate::protocol::StorageEntry;
use crate::text::{concat, decimal, decimal_string, owned, pad_right, padded};
use crate::updates::{UpdateState, UpdateStatus};

verus! {

/// One line of an information panel.
#[derive(Debug, Clone, PartialEq, Eq)]
pub enum PanelLine {
    /// A labelled value.
    Field(&'static str, String),
    /// A labelled yes/no flag.
    Flag(&'static str, bool),
    /// An empty line.
    Blank,
    /// A section title.
    Title(&'static str),
    /// A line of text in a tone.
    Note(String, Tone),
}

/// What a panel line shows.
pub enum LineView {
    Field(Seq<char>, Seq<char>),
    Flag(Seq<char>, bool),
    Blank,
    Title(Seq<char>),
    Note(Seq<char>, Tone),
}

impl View for PanelLine {
    type V = LineView;

    open spec fn view(&self) -> LineView {
        match self {
            PanelLine::Field(k, v) => LineView::Field(k@, v@),
            PanelLine::Flag(k, on) => LineView::Flag(k@, *on),
            PanelLine::Blank => LineView::Blank,
            PanelLine::Title(t) => LineView::Title(t@),
            PanelLine::Note(t, tone) => LineView::Note(t@, *tone),
        }
    }
}

/// The views of `lines`.
pub open spec fn views(lines: Seq<PanelLine>) -> Seq<LineView> {
    lines.map_values(|l: PanelLine| l@)
}

/// The name a boot mode is shown by.
pub open spec fn boot_name(m: BootMode) -> Seq<char> {
    match m {
        BootMode::Normal => "Normal"@,
        BootMode::Dfu => "Dfu"@,
        BootMode::Recovery => "Recovery"@,
        BootMode::Unknown => "Unknown"@,
    }
}

/// The name a boot mode is shown by.
pub fn boot_mode_name(m: BootMode) -> (r: &'static str)
    ensures
        r@ == boot_name(m),
{
    match m {
        BootMode::Normal => "Normal",
        BootMode::Dfu => "Dfu",
        BootMode::Recovery => "Recovery",
        BootMode::Unknown => "Unknown",
    }
}

/// The API version as `major.minor`.
pub open spec fn api_text(info: DeviceInfo) -> Seq<char> {
    decimal(info.api_major as nat) + "."@ + decimal(info.api_minor as nat)
}

fn api_string(info: &DeviceInfo) -> (r: String)
    ensures
        r@ == api_text(*info),
{
    let major = decimal_string(info.api_major as u64);
    let dotted = concat(major.as_str(), ".");
    let minor = decimal_string(info.api_minor as u64);
    concat(dotted.as_str(), minor.as_str())
}

/// The Dashboard's hardware panel: identity, firmware, flash, API and
/// boot mode.
pub open spec fn hardware_view(info: DeviceInfo) -> Seq<LineView> {
    seq![
        LineView::Field("Hardware"@, info.hardware.name@),
        LineView::Field("Revision"@, info.hardware.revision@),
        LineView::Field("Region"@, info.hardware.region@),
        LineView::Field("Lot"@, info.hardware.lot@),
        LineView::Field("Serial"@, info.serial@),
        LineView::Blank,
        LineView::Field("Firmware"@, info.firmware_branch@),
        LineView::Field("Version"@, info.firmware_version@),
        LineView::Field("Build"@, info.firmware_build@),
        LineView::Field("Target"@, info.firmware_target@),
        LineView::Blank,
        LineView::Field("Flash"@, info.flash.vendor@),
        LineView::Field("Model"@, info.flash.model@),
        LineView::Field("Size (kB)"@, decimal(info.flash.size_bytes as nat)),
        LineView::Field("API"@, api_text(info)),
        LineView::Field("Boot"@, boot_name(info.boot_mode)),
    ]
}

/// The lines of the Dashboard's hardware panel.
pub fn hardware_lines(info: &DeviceInfo) -> (r: Vec<PanelLine>)
    ensures
        views(r@) == hardware_view(*info),
{
    let mut v: Vec<PanelLine> = Vec::new();
    v.push(PanelLine::Field("Hardware", info.hardware.name.clone()));
    v.push(PanelLine::Field("Revision", info.hardware.revision.clone()));
    v.push(PanelLine::Field("Region", info.hardware.region.clone()));
    v.push(PanelLine::Field("Lot", info.hardware.lot.clone()));
    v.push(PanelLine::Field("Serial", info.serial.clone()));
    v.push(PanelLine::Blank);
    v.push(PanelLine::Field("Firmware", info.firmware_branch.clone()));
    v.push(PanelLine::Field("Version", info.firmware_version.clone()));
    v.push(PanelLine::Field("Build", info.firmware_build.clone()));
    v.push(PanelLine::Field("Target", info.firmware_target.clone()));
    v.push(PanelLine::Blank);
    v.push(PanelLine::Field("Flash", info.flash.vendor.clone()));
    v.push(PanelLine::Field("Model", info.flash.model.clone()));
    v.push(PanelLine::Field("Size (kB)", decimal_string(info.flash.size_bytes)));
    v.push(PanelLine::Field("API", api_string(info)));
    v.push(PanelLine::Field("Boot", owned(boot_mode_name(info.boot_mode))));
    assert(views(v@) =~= hardware_view(*info));
    v
}

/// The Dashboard's radio panel.
pub open spec fn radio_view(info: DeviceInfo) -> Seq<LineView> {
    seq![
        LineView::Title("Radios"@),
        LineView::Blank,
        LineView::Flag("Sub-GHz"@, info.radio.subghz),
        LineView::Flag("NFC"@, info.radio.nfc),
        LineView::Flag("IR"@, info.radio.ir),
        LineView::Blank,
        LineView::Field("BLE MAC"@, info.radio.ble_mac@),
    ]
}

/// The lines of the Dashboard's radio panel.
pub fn radio_lines(info: &DeviceInfo) -> (r: Vec<PanelLine>)
    ensures
        views(r@) == radio_view(*info),
{
    let mut v: Vec<PanelLine> = Vec::new();
    v.push(PanelLine::Title("Radios"));
    v.push(PanelLine::Blank);
    v.push(PanelLine::Flag("Sub-GHz", info.radio.subghz));
    v.push(PanelLine::Flag("NFC", info.radio.nfc));
    v.push(PanelLine::Flag("IR", info.radio.ir));
    v.push(PanelLine::Blank);
    v.push(PanelLine::Field("BLE MAC", info.radio.ble_mac.clone()));
    assert(views(v@) =~= radio_view(*info));
    v
}

/// The Settings screen's device panel.
pub open spec fn device_view(info: DeviceInfo) -> Seq<LineView> {
    seq![
        LineView::Field("Name"@, info.hardware.name@),
        LineView::Field("Revision"@, info.hardware.revision@),
        LineView::Field("Region"@, info.hardware.region@),
        LineView::Field("Lot"@, info.hardware.lot@),
        LineView::Field("Serial"@, info.serial@),
        LineView::Blank,
        LineView::Field("Firmware"@, info.firmware_branch@),
        LineView::Field("Version"@, info.firmware_version@),
        LineView::Field("Build"@, info.firmware_build@),
        LineView::Field("Target"@, info.firmware_target@),
        LineView::Blank,
        LineView::Field("API"@, api_text(info)),
        LineView::Field("Boot"@, boot_name(info.boot_mode)),
        LineView::Field("Flash"@, info.flash.vendor@),
        LineView::Field("Flash Model"@, info.flash.model@),
        LineView::Field("Flash Size"@, decimal(info.flash.size_bytes as nat) + " KiB"@),
    ]
}

/// The lines of the Settings screen's device panel.
pub fn device_lines(info: &DeviceInfo) -> (r: Vec<PanelLine>)
    ensures
        views(r@) == device_view(*info),
{
    let mut v: Vec<PanelLine> = Vec::new();
    v.push(PanelLine::Field("Name", info.hardware.name.clone()));
    v.push(PanelLine::Field("Revision", info.hardware.revision.clone()));
    v.push(PanelLine::Field("Region", info.hardware.region.clone()));
    v.push(PanelLine::Field("Lot", info.hardware.lot.clone()));
    v.push(PanelLine::Field("Serial", info.serial.clone()));
    v.push(PanelLine::Blank);
    v.push(PanelLine::Field("Firmware", info.firmware_branch.clone()));
    v.push(PanelLine::Field("Version", info.firmware_version.clone()));
    v.push(PanelLine::Field("Build", info.firmware_build.clone()));
    v.push(PanelLine::Field("Target", info.firmware_target.clone()));
    v.push(PanelLine::Blank);
    v.push(PanelLine::Field("API", api_string(info)));
    v.push(PanelLine::Field("Boot", owned(boot_mode_name(info.boot_mode))));
    v.push(PanelLine::Field("Flash", info.flash.vendor.clone()));
    v.push(PanelLine::Field("Flash Model", info.flash.model.clone()));
    let size = decimal_string(info.flash.size_bytes);
    v.push(PanelLine::Field("Flash Size", concat(size.as_str(), " KiB")));
    assert(views(v@) =~= device_view(*info));
    v
}

/// The bytes in use on a volume: total minus free, at least 0.
pub open spec fn used_bytes(s: StorageInfo) -> nat {
    if s.total_bytes >= s.free_bytes {
        (s.total_bytes - s.free_bytes) as nat
    } else {
        0
    }
}

/// The used share in whole percent, when the total is nonzero and the
/// used bytes times a hundred fit in a `u64`.
pub open spec fn used_percent(s: StorageInfo) -> Option<nat> {
    if used_bytes(s) * 100 <= u64::MAX && s.total_bytes > 0 {
        Some((used_bytes(s) * 100) / (s.total_bytes as nat))
    } else {
        None
    }
}

/// The Settings screen's storage panel: the volume's identity and
/// usage, or a hint when no snapshot arrived.
pub open spec fn storage_view(storage: Option<StorageInfo>) -> Seq<LineView> {
    match storage {
        Some(s) => {
            let rows = seq![
                LineView::Field("Path"@, s.path@),
                LineView::Field("Label"@, s.label@),
                LineView::Field("Type"@, s.fs_type@),
                LineView::Field("Free"@, bytes_text(s.free_bytes as nat)),
                LineView::Field("Total"@, bytes_text(s.total_bytes as nat)),
                LineView::Field("Used"@, bytes_text(used_bytes(s))),
            ];
            match used_percent(s) {
                Some(p) => rows.push(LineView::Note("  "@ + decimal(p) + "% used"@, Tone::Yellow)),
                None => rows,
            }
        },
        None => seq![
            LineView::Note(
                "  (storage info unavailable — try `r` to refresh)"@,
                Tone::DarkGray,
            ),
        ],
    }
}

/// The lines of the Settings screen's storage panel.
pub fn storage_lines(storage: Option<&StorageInfo>) -> (r: Vec<PanelLine>)
    ensures
        views(r@) == storage_view(
            match storage {
                Some(s) => Some(*s),
                None => None,
            },
        ),
{
    let mut v: Vec<PanelLine> = Vec::new();
    match storage {
        Some(s) => {
            v.push(PanelLine::Field("Path", s.path.clone()));
            v.push(PanelLine::Field("Label", s.label.clone()));
            v.push(PanelLine::Field("Type", s.fs_type.clone()));
            v.push(PanelLine::Field("Free", human_bytes(s.free_bytes)));
            v.push(PanelLine::Field("Total", human_bytes(s.total_bytes)));
            let (used, pct) = storage_usage(s);
            v.push(PanelLine::Field("Used", human_bytes(used)));
            let ghost rows = views(v@);
            if let Some(p) = pct {
                let digits = decimal_string(p);
                let lead = concat("  ", digits.as_str());
                v.push(PanelLine::Note(concat(lead.as_str(), "% used"), Tone::Yellow));
                assert(views(v@) =~= rows.push(LineView::Note("  "@ + decimal(p as nat) + "% used"@, Tone::Yellow)));
            }
            assert(views(v@) =~= storage_view(Some(*s)));
        },
        None => {
            v.push(PanelLine::Note(
                owned("  (storage info unavailable — try `r` to refresh)"),
                Tone::DarkGray,
            ));
            assert(views(v@) =~= storage_view(None));
        },
    }
    v
}

/// The Updates screen's panel of the installed firmware.
pub open spec fn installed_view(info: DeviceInfo) -> Seq<LineView> {
    seq![
        LineView::Field("Branch"@, info.firmware_branch@),
        LineView::Field("Version"@, info.firmware_version@),
        LineView::Field("Build"@, info.firmware_build@),
        LineView::Field("Target"@, info.firmware_target@),
        LineView::Blank,
        LineView::Field("Serial"@, info.serial@),
        LineView::Field("Hardware"@, info.hardware.name@),
    ]
}

/// The lines of the Updates screen's installed-firmware panel.
pub fn installed_lines(info: &DeviceInfo) -> (r: Vec<PanelLine>)
    ensures
        views(r@) == installed_view(*info),
{
    let mut v: Vec<PanelLine> = Vec::new();
    v.push(PanelLine::Field("Branch", info.firmware_branch.clone()));
    v.push(PanelLine::Field("Version", info.firmware_version.clone()));
    v.push(PanelLine::Field("Build", info.firmware_build.clone()));
    v.push(PanelLine::Field("Target", info.firmware_target.clone()));
    v.push(PanelLine::Blank);
    v.push(PanelLine::Field("Serial", info.serial.clone()));
    v.push(PanelLine::Field("Hardware", info.hardware.name.clone()));
    assert(views(v@) =~= installed_view(*info));
    v
}

/// The status line of an update-check state, and its tone.
pub open spec fn state_note(state: UpdateState) -> (Seq<char>, Tone) {
    match state {
        UpdateState::Unknown => ("unknown — press c to check"@, Tone::DarkGray),
        UpdateState::NotSupported => (
            "not supported on this firmware — v0.2 will add protobuf RPC"@,
            Tone::Yellow,
        ),
        UpdateState::Checking => ("checking…"@, Tone::Cyan),
        UpdateState::NoUpdates => ("up to date"@, Tone::Green),
        UpdateState::UpdateAvailable { .. } => ("update available"@, Tone::Green),
        UpdateState::Error(_) => ("error"@, Tone::Red),
    }
}

/// The Updates screen's status panel: the installed branch and commit,
/// the state of the check, the error's message when it failed, and the
/// offered update when there is one.
pub open spec fn status_view(status: UpdateStatus) -> Seq<LineView> {
    let head = seq![
        LineView::Field("Branch"@, status.installed.firmware_branch@),
        LineView::Field("Commit"@, status.installed.firmware_commit@),
        LineView::Blank,
        LineView::Title("Status"@),
        LineView::Note("  "@ + state_note(status.state).0, state_note(status.state).1),
    ];
    match status.state {
        UpdateState::Error(msg) => head.push(LineView::Note("  "@ + msg@, Tone::Red)),
        UpdateState::UpdateAvailable { branch, target_version } => head + seq![
            LineView::Blank,
            LineView::Field("Update branch"@, branch@),
            LineView::Field("Target version"@, target_version@),
        ],
        _ => head,
    }
}

/// The lines of the Updates screen's status panel.
pub fn status_lines(status: &UpdateStatus) -> (r: Vec<PanelLine>)
    ensures
        views(r@) == status_view(*status),
{
    let mut v: Vec<PanelLine> = Vec::new();
    v.push(PanelLine::Field("Branch", status.installed.firmware_branch.clone()));
    v.push(PanelLine::Field("Commit", status.installed.firmware_commit.clone()));
    v.push(PanelLine::Blank);
    v.push(PanelLine::Title("Status"));
    let (text, tone) = state_line(&status.state);
    assert(text@ == state_note(status.state).0 && tone == state_note(status.state).1);
    v.push(PanelLine::Note(concat("  ", text), tone));
    let ghost head = views(v@);
    match &status.state {
        UpdateState::Error(msg) => {
            v.push(PanelLine::Note(concat("  ", msg.as_str()), Tone::Red));
            assert(views(v@) =~= head.push(LineView::Note("  "@ + msg@, Tone::Red)));
        },
        UpdateState::UpdateAvailable { branch, target_version } => {
            v.push(PanelLine::Blank);
            v.push(PanelLine::Field("Update branch", branch.clone()));
            v.push(PanelLine::Field("Target version", target_version.clone()));
            assert(views(v@) =~= head + seq![
                LineView::Blank,
                LineView::Field("Update branch"@, branch@),
                LineView::Field("Target version"@, target_version@),
            ]);
        },
        _ => {},
    }
    assert(views(v@) =~= status_view(*status));
    v
}

/// The Help screen: the bindings of each section.
pub open spec fn help_view() -> Seq<LineView> {
    seq![
        LineView::Title("Navigation"@),
        LineView::Field("Tab"@, "cycle focus"@),
        LineView::Field("↑/↓  k/j"@, "move selection"@),
        LineView::Field("Enter"@, "activate"@),
        LineView::Field("Esc"@, "back / cancel"@),
        LineView::Blank,
        LineView::Title("Global"@),
        LineView::Field("q"@, "quit"@),
        LineView::Field("r"@, "refresh / rescan"@),
        LineView::Field("?"@, "toggle this help"@),
        LineView::Blank,
        LineView::Title("Dashboard tabs"@),
        LineView::Field("s"@, "Storage"@),
        LineView::Field("u"@, "Updates"@),
        LineView::Field("S"@, "Settings"@),
    ]
}

/// The lines of the Help screen.
pub fn help_lines() -> (r: Vec<PanelLine>)
    ensures
        views(r@) == help_view(),
{
    let mut v: Vec<PanelLine> = Vec::new();
    v.push(PanelLine::Title("Navigation"));
    v.push(PanelLine::Field("Tab", owned("cycle focus")));
    v.push(PanelLine::Field("↑/↓  k/j", owned("move selection")));
    v.push(PanelLine::Field("Enter", owned("activate")));
    v.push(PanelLine::Field("Esc", owned("back / cancel")));
    v.push(PanelLine::Blank);
    v.push(PanelLine::Title("Global"));
    v.push(PanelLine::Field("q", owned("quit")));
    v.push(PanelLine::Field("r", owned("refresh / rescan")));
    v.push(PanelLine::Field("?", owned("toggle this help")));
    v.push(PanelLine::Blank);
    v.push(PanelLine::Title("Dashboard tabs"));
    v.push(PanelLine::Field("s", owned("Storage")));
    v.push(PanelLine::Field("u", owned("Updates")));
    v.push(PanelLine::Field("S", owned("Settings")));
    assert(views(v@) =~= help_view());
    v
}

/// The Dashboard's subtitle: revision and region.
pub fn dashboard_subtitle(info: &DeviceInfo) -> (r: String)
    ensures
        r@ == info.hardware.revision@ + " • "@ + info.hardware.region@,
{
    let lead = concat(info.hardware.revision.as_str(), " • ");
    concat(lead.as_str(), info.hardware.region.as_str())
}

/// The label column of a panel line: the label and a space, at least
/// fifteen characters wide.
pub fn label_cell(key: &str) -> (r: String)
    ensures
        r@ == padded(key@, 14) + " "@,
{
    let p = pad_right(key, 14);
    concat(p.as_str(), " ")
}

/// The name column of a storage browser row, 24 characters wide.
pub fn name_cell(e: &StorageEntry) -> (r: String)
    ensures
        r@ == padded(e.name@, 24),
{
    pad_right(e.name.as_str(), 24)
}

/// The key column of a Help line: two spaces, then the key in 14
/// characters.
pub fn help_key_cell(key: &str) -> (r: String)
    ensures
        r@ == "  "@ + padded(key@, 14),
{
    let p = pad_right(key, 14);
    concat("  ", p.as_str())
}

} // verus!
