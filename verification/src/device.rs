//! Device info: the typed form of the `device_info` reply.

use vstd::prelude::*;
use crate::error::FlipperError;
use crate::kv::{find_last, kv_pieces, kv_ranges, kv_within, key_values, last_value};
use crate::text::{
    all_digits, chars_of, decimal_value, decoded, ends_with, is_digit, owned, parse_decimal,
    parse_unsigned, range_is, str_from_utf8, string_of, concat, trim, trim_end_matches,
    trim_end_matches_range, trim_range, utf8_error_text,
};

verus! {

#[derive(Debug, Clone, PartialEq, Eq)]
pub struct HardwareInfo {
    pub name: String,
    pub revision: String,
    pub region: String,
    pub lot: String,
}

#[derive(Debug, Clone, PartialEq, Eq)]
pub struct RadioInfo {
    pub ble_mac: String,
    pub subghz: bool,
    pub nfc: bool,
    pub ir: bool,
}

#[derive(Debug, Clone, PartialEq, Eq)]
pub struct FlashInfo {
    pub vendor: String,
    pub model: String,
    pub size_bytes: u64,
}

#[derive(Debug, Clone, Copy, PartialEq, Eq)]
pub enum BootMode {
    Normal,
    Dfu,
    Recovery,
    Unknown,
}

/// All fields parsed from the `device_info` reply.
#[derive(Debug, Clone, PartialEq, Eq)]
pub struct DeviceInfo {
    pub hardware: HardwareInfo,
    pub firmware_branch: String,
    pub firmware_version: String,
    pub firmware_build: String,
    pub firmware_target: String,
    pub radio: RadioInfo,
    pub flash: FlashInfo,
    pub api_major: u32,
    pub api_minor: u32,
    pub boot_mode: BootMode,
    pub serial: String,
}

/// A boolean flag as the CLI prints it: `true`, `1`, `yes` or `YES`.
pub open spec fn flag_of(s: Seq<char>) -> bool {
    let t = trim(s);
    t == "true"@ || t == "1"@ || t == "yes"@ || t == "YES"@
}

/// A boot mode by its CLI name; any other text is `Unknown`.
pub open spec fn boot_mode_of(s: Seq<char>) -> BootMode {
    let t = trim(s);
    if t == "Normal"@ {
        BootMode::Normal
    } else if t == "DFU"@ {
        BootMode::Dfu
    } else if t == "Recovery"@ {
        BootMode::Recovery
    } else {
        BootMode::Unknown
    }
}

/// The text of the last `key` line, empty when there is none.
pub open spec fn text_field(kvs: Seq<(Seq<char>, Seq<char>)>, key: Seq<char>) -> Seq<char> {
    match last_value(kvs, key) {
        Some(v) => v,
        None => seq![],
    }
}

/// The flag of the last `key` line, false when there is none.
pub open spec fn flag_field(kvs: Seq<(Seq<char>, Seq<char>)>, key: Seq<char>) -> bool {
    match last_value(kvs, key) {
        Some(v) => flag_of(v),
        None => false,
    }
}

/// The number on the last `key` line (after stripping repeated
/// `suffix`es), 0 when there is none or it does not parse as an integer
/// no larger than `max`.
pub open spec fn number_field(
    kvs: Seq<(Seq<char>, Seq<char>)>,
    key: Seq<char>,
    suffix: Seq<char>,
    max: nat,
) -> nat {
    match last_value(kvs, key) {
        Some(v) => match parse_unsigned(trim_end_matches(v, suffix), max) {
            Some(n) => n,
            None => 0,
        },
        None => 0,
    }
}

impl DeviceInfo {
    /// `self` holds, field by field, what the pairs `kvs` of a
    /// `device_info` reply say; the last line for a key wins.
    pub open spec fn describes(self, kvs: Seq<(Seq<char>, Seq<char>)>) -> bool {
        &&& last_value(kvs, "hardware_name"@) == Some(self.hardware.name@)
        &&& self.hardware.revision@ == text_field(kvs, "hardware_revision"@)
        &&& self.hardware.region@ == text_field(kvs, "hardware_region"@)
        &&& self.hardware.lot@ == text_field(kvs, "hardware_lot"@)
        &&& self.firmware_branch@ == text_field(kvs, "firmware_branch"@)
        &&& self.firmware_version@ == text_field(kvs, "firmware_version"@)
        &&& self.firmware_build@ == text_field(kvs, "firmware_build"@)
        &&& self.firmware_target@ == text_field(kvs, "firmware_target"@)
        &&& self.radio.ble_mac@ == text_field(kvs, "radio_ble_mac"@)
        &&& self.radio.subghz == flag_field(kvs, "radio_subghz"@)
        &&& self.radio.nfc == flag_field(kvs, "radio_nfc"@)
        &&& self.radio.ir == flag_field(kvs, "radio_ir"@)
        &&& self.flash.vendor@ == text_field(kvs, "flash_vendor"@)
        &&& self.flash.model@ == text_field(kvs, "flash_model"@)
        &&& self.flash.size_bytes == number_field(
            kvs,
            "flash_size"@,
            " kB"@,
            u64::MAX as nat,
        )
        &&& self.api_major == number_field(kvs, "api_major"@, seq![], u32::MAX as nat)
        &&& self.api_minor == number_field(kvs, "api_minor"@, seq![], u32::MAX as nat)
        &&& self.boot_mode == match last_value(kvs, "boot_mode"@) {
            Some(v) => boot_mode_of(v),
            None => BootMode::Unknown,
        }
        &&& self.serial@ == text_field(kvs, "serial_number"@)
    }
}

/// `e` is a parse error with message `m`.
pub open spec fn is_parse_error(e: FlipperError, m: Seq<char>) -> bool {
    e matches FlipperError::Parse(s) && s@ == m
}

/// The keys a `device_info` reply is read for.
pub open spec fn known_key(k: Seq<char>) -> bool {
    ||| k == "hardware_name"@
    ||| k == "hardware_revision"@
    ||| k == "hardware_region"@
    ||| k == "hardware_lot"@
    ||| k == "firmware_branch"@
    ||| k == "firmware_version"@
    ||| k == "firmware_build"@
    ||| k == "firmware_target"@
    ||| k == "radio_ble_mac"@
    ||| k == "radio_subghz"@
    ||| k == "radio_nfc"@
    ||| k == "radio_ir"@
    ||| k == "flash_vendor"@
    ||| k == "flash_model"@
    ||| k == "flash_size"@
    ||| k == "api_major"@
    ||| k == "api_minor"@
    ||| k == "boot_mode"@
    ||| k == "serial_number"@
}

/// Unknown keys are skipped: a pair with a key the parser does not read
/// changes neither whether a reply names the hardware nor what it
/// describes.
pub proof fn lemma_unknown_key_ignored(
    kvs: Seq<(Seq<char>, Seq<char>)>,
    k: Seq<char>,
    v: Seq<char>,
    d: DeviceInfo,
)
    requires
        !known_key(k),
    ensures
        last_value(kvs.push((k, v)), "hardware_name"@) == last_value(kvs, "hardware_name"@),
        d.describes(kvs.push((k, v))) == d.describes(kvs),
{
    let ext = kvs.push((k, v));
    assert(ext.drop_last() =~= kvs);
    assert forall|key: Seq<char>| known_key(key) implies last_value(ext, key) == last_value(kvs, key) by {
        assert(ext.last().0 == k);
    }
    assert(known_key("hardware_name"@));
    assert(known_key("hardware_revision"@));
    assert(known_key("hardware_region"@));
    assert(known_key("hardware_lot"@));
    assert(known_key("firmware_branch"@));
    assert(known_key("firmware_version"@));
    assert(known_key("firmware_build"@));
    assert(known_key("firmware_target"@));
    assert(known_key("radio_ble_mac"@));
    assert(known_key("radio_subghz"@));
    assert(known_key("radio_nfc"@));
    assert(known_key("radio_ir"@));
    assert(known_key("flash_vendor"@));
    assert(known_key("flash_model"@));
    assert(known_key("flash_size"@));
    assert(known_key("api_major"@));
    assert(known_key("api_minor"@));
    assert(known_key("boot_mode"@));
    assert(known_key("serial_number"@));
}

/// Each CLI boot-mode name gives its own mode: a `boot_mode` line whose
/// value is `Normal`, `DFU` or `Recovery` (with any surrounding
/// whitespace) gives `Normal`, `Dfu` or `Recovery`; any other value, or
/// no such line, gives `Unknown`.
pub proof fn lemma_boot_mode_names(kvs: Seq<(Seq<char>, Seq<char>)>, d: DeviceInfo)
    requires
        d.describes(kvs),
    ensures
        last_value(kvs, "boot_mode"@) matches Some(v) && trim(v) == "Normal"@ ==> d.boot_mode
            == BootMode::Normal,
        last_value(kvs, "boot_mode"@) matches Some(v) && trim(v) == "DFU"@ ==> d.boot_mode
            == BootMode::Dfu,
        last_value(kvs, "boot_mode"@) matches Some(v) && trim(v) == "Recovery"@ ==> d.boot_mode
            == BootMode::Recovery,
        last_value(kvs, "boot_mode"@) matches Some(v) && trim(v) != "Normal"@ && trim(v) != "DFU"@
            && trim(v) != "Recovery"@ ==> d.boot_mode == BootMode::Unknown,
        last_value(kvs, "boot_mode"@) is None ==> d.boot_mode == BootMode::Unknown,
{
    reveal_strlit("Normal");
    reveal_strlit("DFU");
    reveal_strlit("Recovery");
    assert("Normal"@.len() == 6 && "DFU"@.len() == 3 && "Recovery"@.len() == 8);
    assert("DFU"@ != "Normal"@);
    assert("Recovery"@ != "Normal"@ && "Recovery"@ != "DFU"@);
}

/// A radio flag is set exactly by `true`, `1`, `yes` or `YES` (with any
/// surrounding whitespace) on its last line; anything else, or no line,
/// leaves it clear.
pub proof fn lemma_radio_flags(kvs: Seq<(Seq<char>, Seq<char>)>, d: DeviceInfo, v: Seq<char>)
    requires
        d.describes(kvs),
    ensures
        last_value(kvs, "radio_subghz"@) == Some(v) ==> (d.radio.subghz <==> (trim(v) == "true"@
            || trim(v) == "1"@ || trim(v) == "yes"@ || trim(v) == "YES"@)),
        last_value(kvs, "radio_nfc"@) == Some(v) ==> (d.radio.nfc <==> (trim(v) == "true"@ || trim(
            v,
        ) == "1"@ || trim(v) == "yes"@ || trim(v) == "YES"@)),
        last_value(kvs, "radio_ir"@) == Some(v) ==> (d.radio.ir <==> (trim(v) == "true"@ || trim(v)
            == "1"@ || trim(v) == "yes"@ || trim(v) == "YES"@)),
        last_value(kvs, "radio_subghz"@) is None ==> !d.radio.subghz,
        last_value(kvs, "radio_nfc"@) is None ==> !d.radio.nfc,
        last_value(kvs, "radio_ir"@) is None ==> !d.radio.ir,
{
}

/// The numbers of a `device_info` reply: a flash size of decimal digits,
/// with or without a ` kB` unit, is their value; an API version of
/// decimal digits is their value when it fits a `u32`, else 0.
pub proof fn lemma_device_numbers(kvs: Seq<(Seq<char>, Seq<char>)>, d: DeviceInfo, ds: Seq<char>)
    requires
        d.describes(kvs),
        ds.len() > 0,
        all_digits(ds),
    ensures
        (last_value(kvs, "flash_size"@) == Some(ds) || last_value(kvs, "flash_size"@) == Some(ds
            + " kB"@)) && decimal_value(ds) <= u64::MAX ==> d.flash.size_bytes == decimal_value(ds),
        last_value(kvs, "api_major"@) == Some(ds) ==> d.api_major == (if decimal_value(ds)
            <= u32::MAX {
            decimal_value(ds)
        } else {
            0
        }),
        last_value(kvs, "api_minor"@) == Some(ds) ==> d.api_minor == (if decimal_value(ds)
            <= u32::MAX {
            decimal_value(ds)
        } else {
            0
        }),
{
    reveal_strlit(" kB");
    reveal_strlit("");
    let n = ds.len();
    assert(is_digit(ds[n - 1]));
    // Neither `ds` nor the empty suffix is stripped.
    assert(!ends_with(ds, " kB"@)) by {
        if ends_with(ds, " kB"@) {
            assert(ds.skip(n - 3)[2] == ds[n - 1]);
        }
    }
    assert(trim_end_matches(ds, " kB"@) == ds);
    assert(trim_end_matches(ds, seq![]) == ds);
    let t = ds + " kB"@;
    assert(t.skip(t.len() - 3) =~= " kB"@);
    assert(t.take(t.len() - 3) =~= ds);
    assert(trim_end_matches(t, " kB"@) == ds);
    assert(!(ds.len() > 0 && ds[0] == '+')) by {
        assert(is_digit(ds[0]));
    }
}

/// Whether `cs[lo..hi]` is a true flag.
pub fn parse_bool(cs: &Vec<char>, lo: usize, hi: usize) -> (r: bool)
    requires
        lo <= hi <= cs.len(),
    ensures
        r == flag_of(cs@.subrange(lo as int, hi as int)),
{
    let (a, b) = trim_range(cs, lo, hi);
    range_is(cs, a, b, "true") || range_is(cs, a, b, "1") || range_is(cs, a, b, "yes")
        || range_is(cs, a, b, "YES")
}

/// The boot mode that `cs[lo..hi]` names.
pub fn parse_boot_mode(cs: &Vec<char>, lo: usize, hi: usize) -> (r: BootMode)
    requires
        lo <= hi <= cs.len(),
    ensures
        r == boot_mode_of(cs@.subrange(lo as int, hi as int)),
{
    let (a, b) = trim_range(cs, lo, hi);
    if range_is(cs, a, b, "Normal") {
        BootMode::Normal
    } else if range_is(cs, a, b, "DFU") {
        BootMode::Dfu
    } else if range_is(cs, a, b, "Recovery") {
        BootMode::Recovery
    } else {
        BootMode::Unknown
    }
}

/// The text of the last `key` pair.
fn text_of(cs: &Vec<char>, kvs: &Vec<(usize, usize, usize, usize)>, key: &str) -> (r: String)
    requires
        kv_within(kvs@, cs.len() as int),
    ensures
        r@ == text_field(kv_pieces(cs@, kvs@), key@),
{
    match find_last(cs, kvs, key) {
        Some((a, b)) => string_of(cs, a, b),
        None => String::new(),
    }
}

/// The flag of the last `key` pair.
fn flag_at(cs: &Vec<char>, kvs: &Vec<(usize, usize, usize, usize)>, key: &str) -> (r: bool)
    requires
        kv_within(kvs@, cs.len() as int),
    ensures
        r == flag_field(kv_pieces(cs@, kvs@), key@),
{
    match find_last(cs, kvs, key) {
        Some((a, b)) => parse_bool(cs, a, b),
        None => false,
    }
}

/// The number of the last `key` pair.
fn number_at(
    cs: &Vec<char>,
    kvs: &Vec<(usize, usize, usize, usize)>,
    key: &str,
    suffix: &str,
    max: u64,
) -> (r: u64)
    requires
        kv_within(kvs@, cs.len() as int),
    ensures
        r == number_field(kv_pieces(cs@, kvs@), key@, suffix@, max as nat),
        r <= max,
{
    match find_last(cs, kvs, key) {
        Some((a, b)) => {
            let e = trim_end_matches_range(cs, a, b, suffix);
            match parse_decimal(cs, a, e, max) {
                Some(n) => n,
                None => 0,
            }
        },
        None => 0,
    }
}

impl DeviceInfo {
    /// Parses the multi-line `device_info` text: loose `key: value`
    /// lines, one per field.  Unknown keys are skipped; a missing
    /// `hardware_name` is an error.
    pub fn parse(payload: &str) -> (r: Result<DeviceInfo, FlipperError>)
        ensures
            r is Ok <==> last_value(key_values(payload@), "hardware_name"@) is Some,
            r matches Ok(d) ==> d.describes(key_values(payload@)),
            r matches Err(e) ==> is_parse_error(e, "missing hardware_name"@),
    {
        let cs = chars_of(payload);
        let kvs = kv_ranges(&cs);
        let ghost pairs = kv_pieces(cs@, kvs@);
        let name = match find_last(&cs, &kvs, "hardware_name") {
            Some((a, b)) => string_of(&cs, a, b),
            None => {
                return Err(FlipperError::Parse(owned("missing hardware_name")));
            },
        };
        proof {
            reveal_strlit("");
        }
        let d = DeviceInfo {
            hardware: HardwareInfo {
                name,
                revision: text_of(&cs, &kvs, "hardware_revision"),
                region: text_of(&cs, &kvs, "hardware_region"),
                lot: text_of(&cs, &kvs, "hardware_lot"),
            },
            firmware_branch: text_of(&cs, &kvs, "firmware_branch"),
            firmware_version: text_of(&cs, &kvs, "firmware_version"),
            firmware_build: text_of(&cs, &kvs, "firmware_build"),
            firmware_target: text_of(&cs, &kvs, "firmware_target"),
            radio: RadioInfo {
                ble_mac: text_of(&cs, &kvs, "radio_ble_mac"),
                subghz: flag_at(&cs, &kvs, "radio_subghz"),
                nfc: flag_at(&cs, &kvs, "radio_nfc"),
                ir: flag_at(&cs, &kvs, "radio_ir"),
            },
            flash: FlashInfo {
                vendor: text_of(&cs, &kvs, "flash_vendor"),
                model: text_of(&cs, &kvs, "flash_model"),
                size_bytes: number_at(&cs, &kvs, "flash_size", " kB", u64::MAX),
            },
            api_major: number_at(&cs, &kvs, "api_major", "", u32::MAX as u64) as u32,
            api_minor: number_at(&cs, &kvs, "api_minor", "", u32::MAX as u64) as u32,
            boot_mode: match find_last(&cs, &kvs, "boot_mode") {
                Some((a, b)) => parse_boot_mode(&cs, a, b),
                None => BootMode::Unknown,
            },
            serial: text_of(&cs, &kvs, "serial_number"),
        };
        assert(d.describes(pairs));
        Ok(d)
    }
}

/// The device info a raw `device_info` reply gives; a reply that is not
/// UTF-8 is a parse error.
pub fn parse_device_info_reply(reply: &[u8]) -> (r: Result<DeviceInfo, FlipperError>)
    ensures
        match decoded(reply@) {
            Some(text) => {
                &&& (r is Ok <==> last_value(key_values(text), "hardware_name"@) is Some)
                &&& r matches Ok(d) ==> d.describes(key_values(text))
                &&& r matches Err(e) ==> is_parse_error(e, "missing hardware_name"@)
            },
            None => r matches Err(e) && is_parse_error(
                e,
                "device_info not utf-8: "@ + utf8_error_text(reply@),
            ),
        },
{
    match str_from_utf8(reply) {
        Ok(text) => DeviceInfo::parse(text),
        Err(m) => Err(FlipperError::Parse(concat("device_info not utf-8: ", m.as_str()))),
    }
}

} // verus!
