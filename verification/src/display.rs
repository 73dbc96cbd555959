//! What sysfs and the kernel log say about the display and the power state:
//! the backlight device, the DRM connector whose DPMS state tells whether
//! the display is blanked, brightness readings, charging, and panel
//! initialisation failures.
use vstd::prelude::*;
use vstd::string::*;
use crate::command::{run_cmd, CmdPlan};
use crate::text;
use crate::text::{chars_of, concat2, concat3, parse_i64_of, str_eq};

verus! {

/// Brightness assumed when the maximum cannot be read.
pub const DEFAULT_MAX_BRIGHTNESS: i64 = 2047;

// ---------------------------------------------------------------------------
// Brightness readings.
// ---------------------------------------------------------------------------

/// A sysfs number: the trimmed text as an `i64`.
pub open spec fn sysfs_number(content: Seq<char>) -> Option<int> {
    text::parse_signed(text::trim(content), i64::MAX as int)
}

/// The number in the content of a sysfs or state file.
pub fn parse_sysfs_number(content: &str) -> (r: Option<i64>)
    ensures
        r matches Some(v) ==> sysfs_number(content@) == Some(v as int),
        r is None ==> sysfs_number(content@) is None,
{
    let t = text::trim_str(content);
    let v = chars_of(t.as_str());
    parse_i64_of(&v)
}

/// The maximum brightness from the content of `max_brightness`, or 2047
/// when it could not be read or is no number.
pub fn read_max_brightness(content: Option<&str>) -> (r: i64)
    ensures
        r == (match content {
            Some(c) => match sysfs_number(c@) {
                Some(v) => v as i64,
                None => DEFAULT_MAX_BRIGHTNESS,
            },
            None => DEFAULT_MAX_BRIGHTNESS,
        }),
{
    match content {
        Some(c) => match parse_sysfs_number(c) {
            Some(v) => v,
            None => DEFAULT_MAX_BRIGHTNESS,
        },
        None => DEFAULT_MAX_BRIGHTNESS,
    }
}

/// The stored brightness from the content of the state file, or -1 when it
/// could not be read or is no number.
pub fn load_state(content: Option<&str>) -> (r: i64)
    ensures
        r == (match content {
            Some(c) => match sysfs_number(c@) {
                Some(v) => v as i64,
                None => -1i64,
            },
            None => -1i64,
        }),
{
    match content {
        Some(c) => match parse_sysfs_number(c) {
            Some(v) => v,
            None => -1,
        },
        None => -1,
    }
}

/// The content of the state file that stores `value`.
pub fn state_file_content(value: i64) -> (r: String)
    ensures
        r@ == text::signed_decimal(value as int) + seq!['\n'],
{
    let mut s = text::i64_to_string(value);
    text::push_char(&mut s, '\n');
    s
}

// ---------------------------------------------------------------------------
// Devices.
// ---------------------------------------------------------------------------

/// One entry of `/sys/class/backlight`.
pub struct BacklightEntry {
    pub name: String,
    /// Whether it has a regular `brightness` file.
    pub has_brightness: bool,
}

/// The backlight device directory: the first entry, in name order, with a
/// `brightness` file.
pub fn find_backlight(entries: &Vec<BacklightEntry>) -> (r: Option<String>)
    ensures
        r matches Some(p) ==> exists|i: int|
            0 <= i < entries@.len() && entries@[i].has_brightness && (forall|j: int|
                0 <= j < i ==> !(#[trigger] entries@[j]).has_brightness) && p@
                == "/sys/class/backlight/"@ + entries@[i].name@,
        r is None ==> forall|i: int| 0 <= i < entries@.len() ==> !(#[trigger] entries@[i]).has_brightness,
{
    let mut i: usize = 0;
    while i < entries.len()
        invariant
            i <= entries.len(),
            forall|j: int| 0 <= j < i ==> !(#[trigger] entries@[j]).has_brightness,
        decreases entries.len() - i,
    {
        if entries[i].has_brightness {
            return Some(concat2("/sys/class/backlight/", entries[i].name.as_str()));
        }
        i += 1;
    }
    None
}

/// One entry of `/sys/class/drm`.
pub struct DrmEntry {
    pub name: String,
    /// Whether it has a regular `dpms` file.
    pub has_dpms: bool,
    /// The content of its `status` file, if it could be read.
    pub status: Option<String>,
}

/// A connector entry (`card*-*`) with a DPMS state.
pub open spec fn is_dpms_connector(e: DrmEntry) -> bool {
    text::starts_with(e.name@, "card"@) && text::contains_spec(e.name@, "-"@) && e.has_dpms
}

/// A connector whose status reads `connected`.
pub open spec fn is_connected(e: DrmEntry) -> bool {
    is_dpms_connector(e) && (e.status matches Some(s) && text::trim(s@) == "connected"@)
}

/// The `dpms` file of the entry `name`.
pub open spec fn dpms_file(name: Seq<char>) -> Seq<char> {
    "/sys/class/drm/"@ + name + "/dpms"@
}

/// The DPMS file to read: the one known before (`cached`, when it still
/// exists), else that of the first connected connector, else that of the
/// first connector, among `entries` in name order.
pub fn find_dpms_path(cached: Option<&str>, entries: &Vec<DrmEntry>) -> (r: Option<String>)
    ensures
        cached matches Some(c) ==> (r matches Some(p) && p@ == c@),
        cached is None ==> {
            &&& r matches Some(p) ==> exists|i: int|
                0 <= i < entries@.len() && is_dpms_connector(entries@[i]) && p@ == dpms_file(
                    entries@[i].name@,
                ) && (is_connected(entries@[i]) && (forall|j: int|
                    0 <= j < i ==> !is_connected(#[trigger] entries@[j])) || (forall|j: int|
                    0 <= j < entries@.len() ==> !is_connected(#[trigger] entries@[j])) && (forall|
                    j: int,
                | 0 <= j < i ==> !is_dpms_connector(#[trigger] entries@[j])))
            &&& r is None ==> forall|j: int|
                0 <= j < entries@.len() ==> !is_dpms_connector(#[trigger] entries@[j])
        },
{
    if let Some(c) = cached {
        return Some(String::from_str(c));
    }
    let mut best: Option<usize> = None;
    let mut i: usize = 0;
    while i < entries.len()
        invariant
            cached is None,
            i <= entries.len(),
            forall|j: int| 0 <= j < i ==> !is_connected(#[trigger] entries@[j]),
            best matches Some(b) ==> b < i && is_dpms_connector(entries@[b as int]) && forall|j: int|
                0 <= j < b ==> !is_dpms_connector(#[trigger] entries@[j]),
            best is None ==> forall|j: int| 0 <= j < i ==> !is_dpms_connector(#[trigger] entries@[j]),
        decreases entries.len() - i,
    {
        let e = &entries[i];
        let is_conn = text::str_starts_with(e.name.as_str(), "card") && text::str_contains(
            e.name.as_str(),
            "-",
        ) && e.has_dpms;
        if is_conn {
            let connected = match &e.status {
                Some(s) => {
                    let t = text::trim_str(s.as_str());
                    str_eq(t.as_str(), "connected")
                },
                None => false,
            };
            if connected {
                return Some(concat3("/sys/class/drm/", e.name.as_str(), "/dpms"));
            }
            if best.is_none() {
                best = Some(i);
            }
        }
        i += 1;
    }
    match best {
        Some(b) => Some(concat3("/sys/class/drm/", entries[b].name.as_str(), "/dpms")),
        None => None,
    }
}

// ---------------------------------------------------------------------------
// Charging.
// ---------------------------------------------------------------------------

/// What sysfs shows of one power supply.
pub struct SupplyState {
    /// The trimmed content of its `type` file; entries without one are left
    /// out.
    pub kind: String,
    /// The trimmed content of its `status` file, if it could be read.
    pub status: Option<String>,
    /// The trimmed content of its `online` file, if it could be read.
    pub online: Option<String>,
}

/// A status that means external power.
pub open spec fn charging_status(s: Option<String>) -> bool {
    s matches Some(x) && (x@ == "Charging"@ || x@ == "Full"@)
}

/// A supply that shows external power: a battery that is charging or full,
/// or another supply that is online or charging or full.
pub open spec fn on_power(s: SupplyState) -> bool {
    if s.kind@ == "Battery"@ {
        charging_status(s.status)
    } else {
        (s.online matches Some(o) && o@ == "1"@) || charging_status(s.status)
    }
}

/// Whether the device runs on external power; while it does, the screen is
/// only turned off and the system never suspended.
pub fn is_charging(supplies: &Vec<SupplyState>) -> (r: bool)
    ensures
        r == exists|i: int| 0 <= i < supplies@.len() && on_power(#[trigger] supplies@[i]),
{
    let mut i: usize = 0;
    while i < supplies.len()
        invariant
            i <= supplies.len(),
            forall|j: int| 0 <= j < i ==> !on_power(#[trigger] supplies@[j]),
        decreases supplies.len() - i,
    {
        let s = &supplies[i];
        let status_power = match &s.status {
            Some(x) => str_eq(x.as_str(), "Charging") || str_eq(x.as_str(), "Full"),
            None => false,
        };
        let powered = if str_eq(s.kind.as_str(), "Battery") {
            status_power
        } else {
            let online = match &s.online {
                Some(o) => str_eq(o.as_str(), "1"),
                None => false,
            };
            online || status_power
        };
        if powered {
            assert(on_power(supplies@[i as int]));
            return true;
        }
        i += 1;
    }
    false
}

// ---------------------------------------------------------------------------
// Panel initialisation failures.
// ---------------------------------------------------------------------------

/// Kernel messages that show the display/touch controller failed to
/// initialise.
pub open spec fn failure_markers() -> Seq<Seq<char>> {
    seq![
        "FW info is broken"@,
        "nvt_get_fw_info failed"@,
        "download firmware failed"@,
        "failed to initialize panel"@,
        "Failed to set pixel format"@,
        "Failed to set display on"@,
        "Failed to set tear on"@,
        "Failed to set exit sleep mode"@,
    ]
}

/// Whether the kernel log `journal` holds one of the failure markers.
pub fn kernel_init_failed(journal: &str) -> (r: bool)
    ensures
        r == exists|i: int|
            0 <= i < failure_markers().len() && text::contains_spec(
                journal@,
                #[trigger] failure_markers()[i],
            ),
{
    let markers = vec![
        "FW info is broken",
        "nvt_get_fw_info failed",
        "download firmware failed",
        "failed to initialize panel",
        "Failed to set pixel format",
        "Failed to set display on",
        "Failed to set tear on",
        "Failed to set exit sleep mode",
    ];
    assert(crate::command::str_views(markers@) =~= failure_markers());
    let ghost mv = failure_markers();
    let mut i: usize = 0;
    while i < markers.len()
        invariant
            i <= markers.len(),
            mv == failure_markers(),
            mv == crate::command::str_views(markers@),
            forall|j: int| 0 <= j < i ==> !text::contains_spec(journal@, #[trigger] mv[j]),
        decreases markers.len() - i,
    {
        assert(mv[i as int] == markers@[i as int]@);
        if text::str_contains(journal, markers[i]) {
            return true;
        }
        i += 1;
    }
    false
}

/// A kernel log shows a failed panel or touch initialisation exactly when
/// it holds one of these eight kernel messages: "FW info is broken",
/// "nvt_get_fw_info failed", "download firmware failed", "failed to
/// initialize panel", "Failed to set pixel format", "Failed to set display
/// on", "Failed to set tear on" or "Failed to set exit sleep mode".
pub proof fn lemma_failure_detected_iff_marker(journal: Seq<char>)
    ensures
        (exists|i: int|
            0 <= i < failure_markers().len() && text::contains_spec(
                journal,
                #[trigger] failure_markers()[i],
            )) <==> ({
            ||| text::contains_spec(journal, "FW info is broken"@)
            ||| text::contains_spec(journal, "nvt_get_fw_info failed"@)
            ||| text::contains_spec(journal, "download firmware failed"@)
            ||| text::contains_spec(journal, "failed to initialize panel"@)
            ||| text::contains_spec(journal, "Failed to set pixel format"@)
            ||| text::contains_spec(journal, "Failed to set display on"@)
            ||| text::contains_spec(journal, "Failed to set tear on"@)
            ||| text::contains_spec(journal, "Failed to set exit sleep mode"@)
        }),
{
    let m = failure_markers();
    assert(m.len() == 8);
    assert(m[0] == "FW info is broken"@);
    assert(m[1] == "nvt_get_fw_info failed"@);
    assert(m[2] == "download firmware failed"@);
    assert(m[3] == "failed to initialize panel"@);
    assert(m[4] == "Failed to set pixel format"@);
    assert(m[5] == "Failed to set display on"@);
    assert(m[6] == "Failed to set tear on"@);
    assert(m[7] == "Failed to set exit sleep mode"@);
}

/// Reads the kernel log since the local time `since`:
/// `journalctl -k --since <since> --no-pager -o short`, 5 s.
pub fn kernel_log_plan(since: &str) -> (p: CmdPlan)
    ensures
        crate::command::plain_plan(
            p,
            "journalctl"@,
            seq!["-k"@, "--since"@, since@, "--no-pager"@, "-o"@, "short"@],
            5,
        ),
{
    let cmd = vec!["journalctl", "-k", "--since", since, "--no-pager", "-o", "short"];
    let p = run_cmd(cmd.as_slice(), 5);
    assert(crate::command::str_views(cmd@).drop_first() =~= seq![
        "-k"@,
        "--since"@,
        since@,
        "--no-pager"@,
        "-o"@,
        "short"@,
    ]);
    p
}

} // verus!
