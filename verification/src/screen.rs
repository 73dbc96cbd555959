//! The decisions of the screen-toggle daemon.
//!
//! A short press of the power key toggles the screen and, when it turns the
//! screen off, starts a 15 s suspend countdown; closing the lid turns the
//! screen off with a 30 min countdown, opening it turns the screen on. Keys,
//! mouse movement and touchpad gestures wake a dark screen unless the lid is
//! closed. While the device charges, nothing suspends it. Times are
//! microseconds since the Unix epoch.
use vstd::prelude::*;
use vstd::string::*;
use crate::input::{EV_ABS, EV_KEY, EV_REL, EV_SW, KEY_POWER, SW_LID};
use crate::text::str_eq;

verus! {

/// Delay of the suspend countdown after the power key turned the screen off.
pub const POWER_SUSPEND_DELAY: i64 = 15_000_000;

/// Delay of the suspend countdown after the lid closed.
pub const LID_SUSPEND_DELAY: i64 = 1_800_000_000;

/// Window in which lid-close wakes re-suspend at most `MAX_LID_RESUSPENDS`
/// times.
pub const RESUSPEND_WINDOW: i64 = 60_000_000;

/// Re-suspends allowed within one window.
pub const MAX_LID_RESUSPENDS: u32 = 3;

/// Two accepted power-key presses are at least this far apart.
pub const POWER_DEBOUNCE: i64 = 1_000_000;

/// A power-key press older than this before the screen came on is stale.
pub const STALE_PRESS_MARGIN: i64 = 200_000;

/// After the daemon turned the screen off, pointers do not wake it for this
/// long.
pub const POINTER_WAKE_GRACE: i64 = 2_000_000;

/// An unblank this long after the daemon's own is someone else's.
pub const OWN_UNBLANK_GRACE: i64 = 3_000_000;

/// Interval between rescans of the input devices.
pub const INPUT_RESCAN_INTERVAL: i64 = 3_000_000;

/// Interval between refreshes of the idle-dim setting.
pub const DIM_REFRESH_INTERVAL: i64 = 60_000_000;

/// Why a suspend countdown runs.
#[derive(Clone, Copy, Debug, PartialEq, Eq, Structural)]
pub enum SuspendReason {
    PowerButton,
    LidClose,
}

/// The name of a countdown's reason, as the daemon reports it.
pub fn reason_name(r: SuspendReason) -> (s: &'static str)
    ensures
        s@ == (match r {
            SuspendReason::PowerButton => "power button"@,
            SuspendReason::LidClose => "lid close"@,
        }),
{
    match r {
        SuspendReason::PowerButton => "power button",
        SuspendReason::LidClose => "lid close",
    }
}

/// What the daemon knows of the screen and the system.
#[derive(Clone, Copy, Debug, PartialEq, Eq, Structural)]
pub struct ScreenState {
    /// The daemon turned the screen off.
    pub screen_off: bool,
    /// The compositor reports the display blanked.
    pub display_blanked: bool,
    /// When the last accepted power-key press toggled the screen.
    pub last_toggle: i64,
    /// The last lid-switch value seen.
    pub last_lid: Option<i32>,
    /// When the daemon last unblanked the display itself.
    pub last_own_unblank: i64,
    /// When the suspend countdown ends, if one runs.
    pub suspend_deadline: Option<i128>,
    /// Why the countdown runs.
    pub suspend_reason: Option<SuspendReason>,
    /// Re-suspends after lid-close wakes in the current window.
    pub resuspend_count: u32,
    /// Start of the current re-suspend window.
    pub resuspend_window_start: i64,
    /// The system resumed and the next screen-on must run a recovery cycle.
    pub just_resumed: bool,
    /// The brightness the user chose.
    pub user_brightness: i64,
    /// When the screen last came on.
    pub screen_on_at: i64,
    /// When the daemon last turned the screen off.
    pub screen_off_at: Option<i64>,
}

impl ScreenState {
    /// The state at start-up, with the stored brightness `stored`.
    pub fn new(stored: i64) -> (s: ScreenState)
        ensures
            s == ScreenState::initial(stored),
    {
        ScreenState {
            screen_off: false,
            display_blanked: false,
            last_toggle: 0,
            last_lid: None,
            last_own_unblank: 0,
            suspend_deadline: None,
            suspend_reason: None,
            resuspend_count: 0,
            resuspend_window_start: 0,
            just_resumed: false,
            user_brightness: stored,
            screen_on_at: 0,
            screen_off_at: None,
        }
    }

    /// The state at start-up.
    pub open spec fn initial(stored: i64) -> ScreenState {
        ScreenState {
            screen_off: false,
            display_blanked: false,
            last_toggle: 0,
            last_lid: None,
            last_own_unblank: 0,
            suspend_deadline: None,
            suspend_reason: None,
            resuspend_count: 0,
            resuspend_window_start: 0,
            just_resumed: false,
            user_brightness: stored,
            screen_on_at: 0,
            screen_off_at: None,
        }
    }
}

/// One input event.
#[derive(Clone, Copy)]
pub struct InputEvent {
    pub time_sec: i64,
    pub time_usec: i64,
    pub event_type: u16,
    pub code: u16,
    pub value: i32,
}

/// When an event happened.
pub open spec fn event_time_spec(ev: InputEvent) -> int {
    ev.time_sec * 1_000_000 + ev.time_usec
}

/// When an event happened.
pub fn event_time(ev: &InputEvent) -> (t: i128)
    ensures
        t == event_time_spec(*ev),
{
    assert(-0x8000_0000_0000_0000 * 1_000_000 <= ev.time_sec * 1_000_000 <= 0x7fff_ffff_ffff_ffff
        * 1_000_000) by (nonlinear_arith);
    (ev.time_sec as i128) * 1_000_000 + (ev.time_usec as i128)
}

// ---------------------------------------------------------------------------
// Power key and lid switch.
// ---------------------------------------------------------------------------

/// What a power-key press does.
#[derive(Debug, PartialEq, Eq, Structural)]
pub enum PowerKeyAction {
    /// A press queued while the screen was coming on: ignored.
    IgnoreStale,
    /// Within a second of the last accepted press: ignored.
    IgnoreDebounce,
    /// Turn the screen off and start the 15 s countdown.
    TurnOff,
    /// Turn the screen on.
    TurnOn,
}

/// Whether an event is a press of the power key.
pub fn is_power_press(ev: &InputEvent) -> (r: bool)
    ensures
        r == (ev.event_type == EV_KEY && ev.code == KEY_POWER && ev.value == 1),
{
    ev.event_type == EV_KEY && ev.code == KEY_POWER && ev.value == 1
}

/// A power-key press that happened at `ev_time`, handled at `now`, with the
/// screen visibly on or not.
pub open spec fn power_key_spec(st: ScreenState, ev_time: int, now: i64, visibly_on: bool) -> (
    ScreenState,
    PowerKeyAction,
) {
    if visibly_on && ev_time < st.screen_on_at - STALE_PRESS_MARGIN {
        (st, PowerKeyAction::IgnoreStale)
    } else if now - st.last_toggle < POWER_DEBOUNCE {
        (st, PowerKeyAction::IgnoreDebounce)
    } else {
        (
            ScreenState { last_toggle: now, ..st },
            if visibly_on {
                PowerKeyAction::TurnOff
            } else {
                PowerKeyAction::TurnOn
            },
        )
    }
}

/// Handles a power-key press.
pub fn power_key_press(st: &mut ScreenState, ev_time: i128, now: i64, visibly_on: bool) -> (r:
    PowerKeyAction)
    ensures
        (*final(st), r) == power_key_spec(*old(st), ev_time as int, now, visibly_on),
{
    if visibly_on && ev_time < (st.screen_on_at as i128) - (STALE_PRESS_MARGIN as i128) {
        return PowerKeyAction::IgnoreStale;
    }
    if (now as i128) - (st.last_toggle as i128) < (POWER_DEBOUNCE as i128) {
        return PowerKeyAction::IgnoreDebounce;
    }
    st.last_toggle = now;
    if visibly_on {
        PowerKeyAction::TurnOff
    } else {
        PowerKeyAction::TurnOn
    }
}

/// What a lid-switch event does.
#[derive(Debug, PartialEq, Eq, Structural)]
pub enum LidAction {
    /// No change of the lid state.
    Ignore,
    /// The lid closed while a countdown runs: keep it as it is.
    KeepCountdown,
    /// The lid closed: turn the screen off and start the 30 min countdown.
    Closed,
    /// The lid opened: turn the screen on.
    Opened,
}

/// Whether an event is a lid-switch event.
pub fn is_lid_event(ev: &InputEvent) -> (r: bool)
    ensures
        r == (ev.event_type == EV_SW && ev.code == SW_LID),
{
    ev.event_type == EV_SW && ev.code == SW_LID
}

/// A lid-switch event with value `value`.
pub open spec fn lid_event_spec(st: ScreenState, value: i32) -> (ScreenState, LidAction) {
    if st.last_lid == Some(value) {
        (st, LidAction::Ignore)
    } else {
        let s1 = ScreenState { last_lid: Some(value), ..st };
        if value == 1 {
            if st.suspend_deadline is Some {
                (s1, LidAction::KeepCountdown)
            } else {
                (s1, LidAction::Closed)
            }
        } else if value == 0 {
            (ScreenState { resuspend_count: 0, resuspend_window_start: 0, ..s1 }, LidAction::Opened)
        } else {
            (s1, LidAction::Ignore)
        }
    }
}

/// Handles a lid-switch event with value `value` (1 closed, 0 open).
pub fn lid_event(st: &mut ScreenState, value: i32) -> (r: LidAction)
    ensures
        (*final(st), r) == lid_event_spec(*old(st), value),
{
    if st.last_lid == Some(value) {
        return LidAction::Ignore;
    }
    st.last_lid = Some(value);
    if value == 1 {
        if st.suspend_deadline.is_some() {
            LidAction::KeepCountdown
        } else {
            LidAction::Closed
        }
    } else if value == 0 {
        st.resuspend_count = 0;
        st.resuspend_window_start = 0;
        LidAction::Opened
    } else {
        LidAction::Ignore
    }
}

/// The lid state: the kernel's switch bitmap when it could be read, else
/// the last lid event seen.
pub fn lid_closed(switches: Option<u8>, last_lid: Option<i32>) -> (r: Option<bool>)
    ensures
        r == (match switches {
            Some(b) => Some(b & 1 != 0),
            None => match last_lid {
                Some(v) => Some(v == 1),
                None => None,
            },
        }),
{
    match switches {
        Some(b) => Some(b & 1 != 0),
        None => match last_lid {
            Some(v) => Some(v == 1),
            None => None,
        },
    }
}

// ---------------------------------------------------------------------------
// Display state.
// ---------------------------------------------------------------------------

/// Whether the screen can be seen: not blanked, and with a positive
/// brightness when the backlight can be read.
pub fn screen_visibly_on(blanked: bool, brightness: Option<i64>) -> (r: bool)
    ensures
        r == (!blanked && match brightness {
            Some(v) => v > 0,
            None => true,
        }),
{
    if blanked {
        return false;
    }
    match brightness {
        Some(v) => v > 0,
        None => true,
    }
}

/// Takes the DPMS state (trimmed), when it could be read, as the display's
/// blanked state.
pub fn update_display_state(st: &mut ScreenState, dpms: Option<&str>)
    ensures
        *final(st) == (match dpms {
            Some(s) => ScreenState { display_blanked: s@ != "On"@, ..*old(st) },
            None => *old(st),
        }),
{
    if let Some(s) = dpms {
        st.display_blanked = !str_eq(s, "On");
    }
}

/// Whether the display came back on through someone else: it was blanked,
/// is not any more, and the daemon did not unblank it in the last 3 s.
pub fn external_unblank_detected(prev_blanked: Option<bool>, blanked: bool, now: i64, st: &ScreenState) -> (r:
    bool)
    ensures
        r == (prev_blanked == Some(true) && !blanked && now - st.last_own_unblank
            > OWN_UNBLANK_GRACE),
{
    prev_blanked == Some(true) && !blanked && (now as i128) - (st.last_own_unblank as i128)
        > (OWN_UNBLANK_GRACE as i128)
}

/// What to do after an external unblank.
#[derive(Debug, PartialEq, Eq, Structural)]
pub enum ExternalUnblank {
    /// The lid is closed: turn the screen off again.
    KeepOff,
    /// The daemon had turned the screen off: turn it on properly.
    TurnOn,
    /// Refresh the input devices.
    RefreshInputs,
}

/// What to do after an external unblank.
pub fn external_unblank_action(lid_closed: Option<bool>, screen_off: bool) -> (r: ExternalUnblank)
    ensures
        r == (if lid_closed == Some(true) {
            ExternalUnblank::KeepOff
        } else if screen_off {
            ExternalUnblank::TurnOn
        } else {
            ExternalUnblank::RefreshInputs
        }),
{
    if lid_closed == Some(true) {
        ExternalUnblank::KeepOff
    } else if screen_off {
        ExternalUnblank::TurnOn
    } else {
        ExternalUnblank::RefreshInputs
    }
}

/// Whether a suspend countdown runs (the loop then checks whether the
/// device charges, which cancels it).
pub fn countdown_running(st: &ScreenState) -> (r: bool)
    ensures
        r == (st.suspend_deadline is Some),
{
    st.suspend_deadline.is_some()
}

/// Whether the brightness the user sets is tracked in this round: only
/// while the display is unblanked and the daemon has not turned it off.
pub fn should_track_brightness(st: &ScreenState) -> (r: bool)
    ensures
        r == (!st.display_blanked && !st.screen_off),
{
    !st.display_blanked && !st.screen_off
}

/// Whether the devices must be looked for again: the power key, the lid
/// switch or the backlight is missing, or no keyboard or no pointer is
/// watched.
pub fn needs_setup(
    power_open: bool,
    lid_open: bool,
    has_backlight: bool,
    keyboards: usize,
    pointers: usize,
) -> (r: bool)
    ensures
        r == (!power_open || !lid_open || !has_backlight || keyboards == 0 || pointers == 0),
{
    !power_open || !lid_open || !has_backlight || keyboards == 0 || pointers == 0
}

/// Whether the screen counts as off when the backlight is found: its
/// brightness reads 0, or cannot be read.
pub fn screen_off_from_reading(reading: Option<i64>) -> (r: bool)
    ensures
        r == (reading.unwrap_or(0i64) == 0),
{
    match reading {
        Some(b) => b == 0,
        None => true,
    }
}

/// Whether `interval` has passed since `since`.
pub fn elapsed_more_than(now: i64, since: i64, interval: i64) -> (r: bool)
    ensures
        r == (now - since > interval),
{
    (now as i128) - (since as i128) > (interval as i128)
}

// ---------------------------------------------------------------------------
// Turning the screen off and on.
// ---------------------------------------------------------------------------

/// Whether turning the screen off has anything to do.
pub fn turn_off_needed(st: &ScreenState, has_backlight: bool, brightness: i64) -> (r: bool)
    ensures
        r == (has_backlight && !(st.screen_off && st.display_blanked && brightness == 0)),
{
    has_backlight && !(st.screen_off && st.display_blanked && brightness == 0)
}

/// The brightness to restore later: the user's, or the best guess `best`
/// when there is none.
pub fn preferred_brightness(user: i64, best: Option<i64>) -> (r: i64)
    requires
        user <= 0 ==> best is Some,
    ensures
        r == (if user > 0 {
            user
        } else {
            best->0
        }),
{
    if user > 0 {
        user
    } else {
        best.unwrap()
    }
}

/// The state once the backlight is off: screen off and blanked, the time
/// noted for the pointer grace period, and the power-key debounce reset.
pub open spec fn turned_off_spec(st: ScreenState, now: i64) -> ScreenState {
    ScreenState {
        screen_off: true,
        display_blanked: true,
        screen_off_at: Some(now),
        last_toggle: 0,
        ..st
    }
}

/// Notes that the daemon turned the screen off at `now`.
pub fn screen_turned_off(st: &mut ScreenState, now: i64)
    ensures
        *final(st) == turned_off_spec(*old(st), now),
{
    st.screen_off = true;
    st.display_blanked = true;
    st.screen_off_at = Some(now);
    st.last_toggle = 0;
}

/// How a screen-on request starts.
#[derive(Debug, PartialEq, Eq, Structural)]
pub enum TurnOnStart {
    /// Nothing to do: no backlight, or the screen is fully on.
    Skip,
    /// Go on.
    Proceed,
}

/// The start of a screen-on request at `now`: any countdown is cancelled;
/// when the screen is not fully on, the daemon's own unblank is noted.
pub open spec fn turn_on_begin_spec(st: ScreenState, has_backlight: bool, brightness: i64, now: i64) -> (
    ScreenState,
    TurnOnStart,
) {
    let s1 = ScreenState { suspend_deadline: None, suspend_reason: None, ..st };
    if !has_backlight || (!st.screen_off && !st.display_blanked && brightness > 0) {
        (s1, TurnOnStart::Skip)
    } else {
        (
            ScreenState { last_own_unblank: now, ..s1 },
            TurnOnStart::Proceed,
        )
    }
}

/// Starts a screen-on request.
pub fn turn_on_begin(st: &mut ScreenState, has_backlight: bool, brightness: i64, now: i64) -> (r:
    TurnOnStart)
    ensures
        (*final(st), r) == turn_on_begin_spec(*old(st), has_backlight, brightness, now),
{
    st.suspend_deadline = None;
    st.suspend_reason = None;
    if !has_backlight || (!st.screen_off && !st.display_blanked && brightness > 0) {
        return TurnOnStart::Skip;
    }
    st.last_own_unblank = now;
    TurnOnStart::Proceed
}

/// A screen-on request does nothing without a backlight, and with one it
/// is skipped exactly when the screen is fully on: the daemon has not turned
/// it off, the display is not blanked and the brightness is above zero.
/// Either way a running suspend countdown is cancelled, and a request that
/// goes on records `now` as the daemon's own unblank.
pub proof fn lemma_turn_on_skips_only_when_fully_on(st: ScreenState, brightness: i64, now: i64)
    ensures
        turn_on_begin_spec(st, false, brightness, now).1 is Skip,
        turn_on_begin_spec(st, true, brightness, now).1 is Skip <==> (!st.screen_off
            && !st.display_blanked && brightness > 0),
        turn_on_begin_spec(st, true, brightness, now).1 is Proceed ==> turn_on_begin_spec(
            st,
            true,
            brightness,
            now,
        ).0.last_own_unblank == now,
        turn_on_begin_spec(st, true, brightness, now).0.suspend_deadline is None,
        turn_on_begin_spec(st, false, brightness, now).0.suspend_deadline is None,
        turn_on_begin_spec(st, true, brightness, now).0.suspend_reason is None,
        turn_on_begin_spec(st, false, brightness, now).0.suspend_reason is None,
{
}

/// Consumes the resume flag once the backlight is dark and the display is
/// about to be unblanked: whether the wake must start with a forced
/// recovery cycle. A wake that stops earlier (the dimming write failed)
/// leaves the flag for the next one.
pub fn take_resume_flag(st: &mut ScreenState) -> (r: bool)
    ensures
        r == old(st).just_resumed,
        *final(st) == (ScreenState { just_resumed: false, ..*old(st) }),
{
    let force = st.just_resumed;
    st.just_resumed = false;
    force
}

/// Whether the display is unblanked: the compositor said so, or its DPMS
/// state (trimmed) reads `On`.
pub fn unblank_confirmed(call_ok: bool, dpms: Option<&str>) -> (r: bool)
    ensures
        r == (call_ok || (dpms matches Some(s) && s@ == "On"@)),
{
    if call_ok {
        return true;
    }
    match dpms {
        Some(s) => str_eq(s, "On"),
        None => false,
    }
}

/// The brightness to restore on wake, and whether to store it: the
/// preferred value, else the stored one, and the maximum when that is not
/// within 1 to `maximum`; stored when above the minimum of 20.
pub open spec fn restore_brightness_spec(preferred: i64, stored: i64, maximum: i64) -> i64 {
    let v = if preferred <= 0 {
        stored
    } else {
        preferred
    };
    if v <= 0 || v > maximum {
        maximum
    } else {
        v
    }
}

/// The brightness to restore on wake. `stored` is read only when
/// `preferred` is not positive.
pub fn restore_brightness(preferred: i64, stored: Option<i64>, maximum: i64) -> (r: (i64, bool))
    requires
        preferred <= 0 ==> stored is Some,
    ensures
        r.0 == restore_brightness_spec(preferred, stored.unwrap_or(0), maximum),
        r.1 == (r.0 > 20),
{
    let mut value = preferred;
    if value <= 0 {
        value = stored.unwrap();
    }
    if value <= 0 || value > maximum {
        value = maximum;
    }
    (value, value > 20)
}

/// Attempts at unblanking the display through the compositor.
pub const UNBLANK_ATTEMPTS: u32 = 3;

/// Extra blank/unblank recovery cycles after a reported panel failure.
pub const MAX_RECOVERY_CYCLES: u32 = 2;

/// Where a wake sequence stands.
#[derive(Clone, Copy, Debug, PartialEq, Eq, Structural)]
pub enum WakeStage {
    /// Asking the compositor to unblank.
    Unblanking,
    /// All unblank calls failed: checking the DPMS state.
    CheckingDpms,
    /// Unblanked: the panel settles and the kernel log is checked.
    Settling,
    /// A panel failure was reported: running recovery cycles.
    Recovering,
}

/// A wake sequence in progress.
#[derive(Clone, Copy, Debug, PartialEq, Eq, Structural)]
pub struct WakeRun {
    pub stage: WakeStage,
    /// The system just resumed: one forced blank/unblank cycle comes first.
    pub force_recovery: bool,
    /// Unblank calls made.
    pub attempt: u32,
    /// Recovery cycles run.
    pub cycle: u32,
}

/// What the daemon observed after the last wake action.
#[derive(Clone, Copy, Debug, PartialEq, Eq, Structural)]
pub enum WakeEvent {
    /// The forced blank is done and the panel was kept off.
    ForcedBlankDone,
    /// The unblank call answered; whether it succeeded.
    Unblanked(bool),
    /// The DPMS state was read; whether it reads `On`.
    DpmsOn(bool),
    /// The kernel log since the wake (or the last cycle) was read; whether
    /// it reports a panel failure.
    PanelFailed(bool),
}

/// What the daemon does next in a wake sequence.
#[derive(Clone, Copy, Debug, PartialEq, Eq, Structural)]
pub enum WakeAction {
    /// Blank the display and keep the panel off briefly (after a resume).
    ForcedBlank,
    /// Ask the compositor to unblank.
    Unblank,
    /// Pause after a failed call, then ask again.
    PauseThenUnblank,
    /// Pause after the last failed call, then read the DPMS state.
    PauseThenCheckDpms,
    /// The display did not come on: keep the screen marked off, so that the
    /// next event retries the whole wake.
    KeepOff,
    /// Let the panel settle, then read the kernel log since the wake began.
    Settle,
    /// Run one blank/unblank recovery cycle and read the kernel log since.
    RecoveryCycle,
    /// Restore the brightness; `recovered` is false when the recovery
    /// cycles still reported a failure.
    RestoreBrightness { recovered: bool },
}

/// The first step of a wake sequence: a forced blank first after a resume,
/// else the first unblank call.
pub open spec fn wake_start_spec(force_recovery: bool) -> (WakeRun, WakeAction) {
    if force_recovery {
        (
            WakeRun { stage: WakeStage::Unblanking, force_recovery, attempt: 0, cycle: 0 },
            WakeAction::ForcedBlank,
        )
    } else {
        (
            WakeRun { stage: WakeStage::Unblanking, force_recovery, attempt: 1, cycle: 0 },
            WakeAction::Unblank,
        )
    }
}

/// Starts a wake sequence.
pub fn wake_start(force_recovery: bool) -> (r: (WakeRun, WakeAction))
    ensures
        r == wake_start_spec(force_recovery),
{
    if force_recovery {
        (
            WakeRun { stage: WakeStage::Unblanking, force_recovery, attempt: 0, cycle: 0 },
            WakeAction::ForcedBlank,
        )
    } else {
        (
            WakeRun { stage: WakeStage::Unblanking, force_recovery, attempt: 1, cycle: 0 },
            WakeAction::Unblank,
        )
    }
}

/// One step of a wake sequence: the compositor is asked at most
/// `UNBLANK_ATTEMPTS` times, and when every call failed the DPMS state
/// decides (a reply can be lost though the display came on); once the
/// display is on the kernel log is checked, and while it reports a panel
/// failure up to `MAX_RECOVERY_CYCLES` recovery cycles run; then the
/// brightness is restored.
pub open spec fn wake_step_spec(run: WakeRun, ev: WakeEvent) -> (WakeRun, WakeAction) {
    match ev {
        WakeEvent::ForcedBlankDone => (WakeRun { attempt: 1, ..run }, WakeAction::Unblank),
        WakeEvent::Unblanked(ok) => if ok {
            (WakeRun { stage: WakeStage::Settling, ..run }, WakeAction::Settle)
        } else if run.attempt < UNBLANK_ATTEMPTS {
            (WakeRun { attempt: (run.attempt + 1) as u32, ..run }, WakeAction::PauseThenUnblank)
        } else {
            (WakeRun { stage: WakeStage::CheckingDpms, ..run }, WakeAction::PauseThenCheckDpms)
        },
        WakeEvent::DpmsOn(on) => if on {
            (WakeRun { stage: WakeStage::Settling, ..run }, WakeAction::Settle)
        } else {
            (run, WakeAction::KeepOff)
        },
        WakeEvent::PanelFailed(failed) => if !failed {
            (run, WakeAction::RestoreBrightness { recovered: true })
        } else if run.stage != WakeStage::Recovering {
            (WakeRun { stage: WakeStage::Recovering, cycle: 1, ..run }, WakeAction::RecoveryCycle)
        } else if run.cycle < MAX_RECOVERY_CYCLES {
            (WakeRun { cycle: (run.cycle + 1) as u32, ..run }, WakeAction::RecoveryCycle)
        } else {
            (run, WakeAction::RestoreBrightness { recovered: false })
        },
    }
}

/// Takes the next step of a wake sequence after `ev`.
pub fn wake_step(run: &mut WakeRun, ev: WakeEvent) -> (r: WakeAction)
    ensures
        (*final(run), r) == wake_step_spec(*old(run), ev),
{
    match ev {
        WakeEvent::ForcedBlankDone => {
            run.attempt = 1;
            WakeAction::Unblank
        },
        WakeEvent::Unblanked(ok) => {
            if ok {
                run.stage = WakeStage::Settling;
                WakeAction::Settle
            } else if run.attempt < UNBLANK_ATTEMPTS {
                run.attempt = run.attempt + 1;
                WakeAction::PauseThenUnblank
            } else {
                run.stage = WakeStage::CheckingDpms;
                WakeAction::PauseThenCheckDpms
            }
        },
        WakeEvent::DpmsOn(on) => {
            if on {
                run.stage = WakeStage::Settling;
                WakeAction::Settle
            } else {
                WakeAction::KeepOff
            }
        },
        WakeEvent::PanelFailed(failed) => {
            if !failed {
                WakeAction::RestoreBrightness { recovered: true }
            } else if run.stage != WakeStage::Recovering {
                run.stage = WakeStage::Recovering;
                run.cycle = 1;
                WakeAction::RecoveryCycle
            } else if run.cycle < MAX_RECOVERY_CYCLES {
                run.cycle = run.cycle + 1;
                WakeAction::RecoveryCycle
            } else {
                WakeAction::RestoreBrightness { recovered: false }
            }
        },
    }
}

/// The bounds that a wake sequence keeps.
pub open spec fn wake_bounded(run: WakeRun) -> bool {
    run.attempt <= UNBLANK_ATTEMPTS && run.cycle <= MAX_RECOVERY_CYCLES
}

/// A wake sequence keeps its bounds: it asks the compositor to unblank
/// again only while fewer than `UNBLANK_ATTEMPTS` calls were made, starts a
/// recovery cycle only while fewer than `MAX_RECOVERY_CYCLES` ran, and
/// keeps the screen off only when the DPMS state did not read `On` after
/// the calls.
pub proof fn lemma_wake_bounded(run: WakeRun, ev: WakeEvent)
    requires
        wake_bounded(run),
    ensures
        wake_bounded(wake_step_spec(run, ev).0),
        wake_step_spec(run, ev).1 is PauseThenUnblank ==> run.attempt < UNBLANK_ATTEMPTS,
        wake_step_spec(run, ev).1 is RecoveryCycle ==> (run.stage != WakeStage::Recovering
            || run.cycle < MAX_RECOVERY_CYCLES),
        wake_step_spec(run, ev).1 is KeepOff ==> ev == WakeEvent::DpmsOn(false),
        wake_bounded(wake_start_spec(run.force_recovery).0),
{
}

/// Whether the backlight must be dimmed to 0 before the display wakes, so
/// that no glitchy first frame is shown lit.
pub fn dim_before_wake(current: i64) -> (r: bool)
    ensures
        r == (current > 0),
{
    current > 0
}

/// Whether a brightness write did not stick and must be repeated once: the
/// reading after it (-1 when it could not be read) differs from the value.
pub fn brightness_stuck(actual: Option<i64>, value: i64) -> (r: bool)
    ensures
        r == (actual.unwrap_or(-1i64) != value),
{
    match actual {
        Some(a) => a != value,
        None => value != -1,
    }
}

/// Notes that the screen came on at `now`.
pub fn screen_turned_on(st: &mut ScreenState, now: i64)
    ensures
        *final(st) == (ScreenState {
            screen_on_at: now,
            screen_off: false,
            display_blanked: false,
            ..*old(st)
        }),
{
    st.screen_on_at = now;
    st.screen_off = false;
    st.display_blanked = false;
}

// ---------------------------------------------------------------------------
// Suspend countdown.
// ---------------------------------------------------------------------------

/// Starting a countdown of `delay` at `now`: skipped while charging.
pub open spec fn start_timer_spec(
    st: ScreenState,
    now: i64,
    delay: i64,
    reason: SuspendReason,
    charging: bool,
) -> ScreenState {
    if charging {
        st
    } else {
        ScreenState {
            suspend_deadline: Some((now + delay) as i128),
            suspend_reason: Some(reason),
            ..st
        }
    }
}

/// Starts a suspend countdown; returns whether it started.
pub fn start_suspend_timer(
    st: &mut ScreenState,
    now: i64,
    delay: i64,
    reason: SuspendReason,
    charging: bool,
) -> (r: bool)
    ensures
        *final(st) == start_timer_spec(*old(st), now, delay, reason, charging),
        r == !charging,
{
    if charging {
        return false;
    }
    st.suspend_deadline = Some((now as i128) + (delay as i128));
    st.suspend_reason = Some(reason);
    true
}

/// Cancels the countdown; returns whether one ran, and why.
pub fn cancel_suspend_timer(st: &mut ScreenState) -> (r: (bool, Option<SuspendReason>))
    ensures
        r == (old(st).suspend_deadline is Some, old(st).suspend_reason),
        *final(st) == (ScreenState { suspend_deadline: None, suspend_reason: None, ..*old(st) }),
{
    let r = (st.suspend_deadline.is_some(), st.suspend_reason);
    st.suspend_deadline = None;
    st.suspend_reason = None;
    r
}

/// Whether the countdown has run out at `now`.
pub fn suspend_due(st: &ScreenState, now: i64) -> (r: bool)
    ensures
        r == (st.suspend_deadline matches Some(d) && now >= d),
{
    match st.suspend_deadline {
        Some(d) => (now as i128) >= d,
        None => false,
    }
}

/// What an expired countdown does.
#[derive(Debug, PartialEq, Eq, Structural)]
pub enum FireAction {
    /// The system charges: stay awake with the screen off.
    StayAwake,
    /// Suspend the system.
    Suspend,
}

/// Ends an expired countdown: the system suspends unless it charges.
pub fn fire_suspend_timer(st: &mut ScreenState, charging: bool) -> (r: (
    FireAction,
    Option<SuspendReason>,
))
    ensures
        r.0 == (if charging {
            FireAction::StayAwake
        } else {
            FireAction::Suspend
        }),
        r.1 == old(st).suspend_reason,
        *final(st) == (ScreenState { suspend_deadline: None, suspend_reason: None, ..*old(st) }),
{
    let reason = st.suspend_reason;
    st.suspend_reason = None;
    st.suspend_deadline = None;
    if charging {
        (FireAction::StayAwake, reason)
    } else {
        (FireAction::Suspend, reason)
    }
}

/// Notes the result of a suspend: after a successful one the next screen-on
/// runs a recovery cycle.
pub fn suspend_finished(st: &mut ScreenState, ok: bool)
    ensures
        *final(st) == (if ok {
            ScreenState { just_resumed: true, ..*old(st) }
        } else {
            *old(st)
        }),
{
    if ok {
        st.just_resumed = true;
    }
}

// ---------------------------------------------------------------------------
// Resume.
// ---------------------------------------------------------------------------

/// What to do after the system resumed.
#[derive(Debug, PartialEq, Eq, Structural)]
pub enum ResumePlan {
    /// No backlight: nothing more.
    NoBacklight,
    /// The lid is closed: keep the screen off and re-suspend.
    LidClosed,
    /// Check whether the screen is visibly on.
    CheckScreen,
}

/// The start of resume handling, with the lid state `lid_closed`: any
/// countdown is cancelled, the next screen-on forced through a recovery
/// cycle, and an open lid restarts the re-suspend window.
pub open spec fn on_resume_spec(st: ScreenState, lid_closed: Option<bool>, has_backlight: bool) -> (
    ScreenState,
    ResumePlan,
) {
    let s1 = ScreenState {
        suspend_deadline: None,
        suspend_reason: None,
        just_resumed: true,
        last_lid: match lid_closed {
            Some(c) => Some(if c {
                1i32
            } else {
                0i32
            }),
            None => st.last_lid,
        },
        ..st
    };
    let s2 = if lid_closed == Some(false) {
        ScreenState { resuspend_count: 0, resuspend_window_start: 0, ..s1 }
    } else {
        s1
    };
    if !has_backlight {
        (s2, ResumePlan::NoBacklight)
    } else if lid_closed == Some(true) {
        (s2, ResumePlan::LidClosed)
    } else {
        (s2, ResumePlan::CheckScreen)
    }
}

/// Starts handling a resume.
pub fn on_resume(st: &mut ScreenState, lid_closed: Option<bool>, has_backlight: bool) -> (r:
    ResumePlan)
    ensures
        (*final(st), r) == on_resume_spec(*old(st), lid_closed, has_backlight),
{
    st.suspend_deadline = None;
    st.suspend_reason = None;
    st.just_resumed = true;
    if let Some(closed) = lid_closed {
        st.last_lid = Some(if closed { 1 } else { 0 });
    }
    if lid_closed == Some(false) {
        st.resuspend_count = 0;
        st.resuspend_window_start = 0;
    }
    if !has_backlight {
        ResumePlan::NoBacklight
    } else if lid_closed == Some(true) {
        ResumePlan::LidClosed
    } else {
        ResumePlan::CheckScreen
    }
}

/// With a backlight, a resume keeps the screen off and goes back to sleep
/// only when the lid is known to be closed; when it is open or could not be
/// read, the screen is checked. Without a backlight nothing more is done.
/// Every resume cancels the suspend countdown and asks for the recovery
/// cycle on the next screen-on; a lid state that could be read is
/// remembered, and an open lid clears the re-suspend count and window.
pub proof fn lemma_resume_lid_plan(st: ScreenState, lid_closed: Option<bool>, has_backlight: bool)
    ensures
        ({
            let s = on_resume_spec(st, lid_closed, has_backlight).0;
            &&& s.just_resumed
            &&& s.suspend_deadline is None
            &&& s.suspend_reason is None
            &&& lid_closed == Some(true) ==> s.last_lid == Some(1i32)
            &&& lid_closed == Some(false) ==> s.last_lid == Some(0i32)
            &&& lid_closed is None ==> s.last_lid == st.last_lid
            &&& lid_closed == Some(false) ==> s.resuspend_count == 0 && s.resuspend_window_start == 0
            &&& lid_closed != Some(false) ==> s.resuspend_count == st.resuspend_count
                && s.resuspend_window_start == st.resuspend_window_start
        }),
        on_resume_spec(st, lid_closed, true).1 is LidClosed <==> lid_closed == Some(true),
        lid_closed != Some(true) ==> on_resume_spec(st, lid_closed, true).1 is CheckScreen,
        on_resume_spec(st, lid_closed, false).1 is NoBacklight,
{
}

/// What a lid-close wake does.
#[derive(Debug, PartialEq, Eq, Structural)]
pub enum ResuspendAction {
    /// The system charges: suspend control is off, keep the screen off.
    Charging,
    /// Suspend the system again.
    Resuspend,
    /// Too many lid-close wakes in this window: stay awake, screen off.
    StayAwake,
}

/// A lid-close wake at `now`: while charging nothing changes and the system
/// stays up; otherwise a new window starts when the current one has passed,
/// the wake is counted, and it re-suspends while the count is within the
/// limit.
pub open spec fn resuspend_spec(st: ScreenState, now: i64, charging: bool) -> (
    ScreenState,
    ResuspendAction,
) {
    if charging {
        (st, ResuspendAction::Charging)
    } else {
        let s1 = if now - st.resuspend_window_start > RESUSPEND_WINDOW {
            ScreenState { resuspend_window_start: now, resuspend_count: 0, ..st }
        } else {
            st
        };
        let s2 = ScreenState { resuspend_count: (s1.resuspend_count + 1) as u32, ..s1 };
        (
            s2,
            if s2.resuspend_count <= MAX_LID_RESUSPENDS {
                ResuspendAction::Resuspend
            } else {
                ResuspendAction::StayAwake
            },
        )
    }
}

/// What a lid-close wake at `now` does, the system charging or not.
pub fn resuspend_decision(st: &mut ScreenState, now: i64, charging: bool) -> (r: ResuspendAction)
    requires
        !charging ==> old(st).resuspend_count < u32::MAX,
    ensures
        (*final(st), r) == resuspend_spec(*old(st), now, charging),
{
    if charging {
        return ResuspendAction::Charging;
    }
    if (now as i128) - (st.resuspend_window_start as i128) > (RESUSPEND_WINDOW as i128) {
        st.resuspend_window_start = now;
        st.resuspend_count = 0;
    }
    st.resuspend_count = st.resuspend_count + 1;
    if st.resuspend_count <= MAX_LID_RESUSPENDS {
        ResuspendAction::Resuspend
    } else {
        ResuspendAction::StayAwake
    }
}

/// After a resume with the lid open: whether the screen must be turned on.
/// A screen that is not visibly on counts as off and is turned on; one that
/// is counts as on.
pub fn resume_screen(st: &mut ScreenState, visibly_on: bool) -> (r: bool)
    ensures
        r == !visibly_on,
        *final(st) == (ScreenState { screen_off: !visibly_on, ..*old(st) }),
{
    st.screen_off = !visibly_on;
    !visibly_on
}

// ---------------------------------------------------------------------------
// Keyboards and pointers.
// ---------------------------------------------------------------------------

/// Whether a keyboard event wakes the screen: a key press while the screen
/// is dark and the lid is not closed.
pub fn keyboard_event_wakes(ev: &InputEvent, lid_closed: Option<bool>, visibly_on: bool) -> (r:
    bool)
    ensures
        r == (lid_closed != Some(true) && ev.event_type == EV_KEY && ev.value == 1 && !visibly_on),
{
    lid_closed != Some(true) && ev.event_type == EV_KEY && ev.value == 1 && !visibly_on
}

/// A pointer event that asks for a wake: a button press, or motion.
pub open spec fn pointer_activity(ev: InputEvent) -> bool {
    (ev.event_type == EV_KEY && ev.value == 1) || ((ev.event_type == EV_REL || ev.event_type
        == EV_ABS) && ev.value != 0)
}

#[verifier::loop_isolation(false)]
/// Whether pointer events `events`, read at `now`, wake the screen: some
/// activity, a dark screen, the lid not closed, and not within 2 s after
/// the daemon turned the screen off.
pub fn pointer_wakes(
    st: &ScreenState,
    events: &Vec<InputEvent>,
    lid_closed: Option<bool>,
    visibly_on: bool,
    now: i64,
) -> (r: bool)
    ensures
        r == (lid_closed != Some(true) && !(st.screen_off_at matches Some(t) && now - t
            < POINTER_WAKE_GRACE) && (exists|i: int|
            0 <= i < events@.len() && pointer_activity(#[trigger] events@[i])) && !visibly_on),
{
    if lid_closed == Some(true) {
        return false;
    }
    if let Some(t) = st.screen_off_at {
        if (now as i128) - (t as i128) < (POINTER_WAKE_GRACE as i128) {
            return false;
        }
    }
    let mut i: usize = 0;
    while i < events.len()
        invariant
            i <= events.len(),
            forall|j: int| 0 <= j < i ==> !pointer_activity(#[trigger] events@[j]),
        decreases events.len() - i,
    {
        let ev = &events[i];
        if (ev.event_type == EV_KEY && ev.value == 1) || ((ev.event_type == EV_REL || ev.event_type
            == EV_ABS) && ev.value != 0) {
            assert(pointer_activity(events@[i as int]));
            return !visibly_on;
        }
        i += 1;
    }
    false
}

// ---------------------------------------------------------------------------
// User brightness.
// ---------------------------------------------------------------------------

/// The brightness reading worth tracking: a positive one while the screen
/// is on.
pub fn brightness_to_track(st: &ScreenState, reading: Option<i64>) -> (r: Option<i64>)
    ensures
        r == (if !st.screen_off && (reading matches Some(b) && b > 0) {
            reading
        } else {
            None
        }),
{
    if st.screen_off {
        return None;
    }
    match reading {
        Some(b) => {
            if b > 0 {
                Some(b)
            } else {
                None
            }
        },
        None => None,
    }
}

/// How close to GNOME's idle-dim value a reading must be to be that value.
pub open spec fn dim_tolerance(maximum: i64) -> int {
    if maximum / 50 > 5 {
        maximum / 50
    } else {
        5
    }
}

/// A reading within tolerance of GNOME's idle-dim value is that value, not
/// a user setting.
pub open spec fn is_dim_value(b: i64, dim: Option<i64>, maximum: i64) -> bool {
    dim matches Some(d) && -dim_tolerance(maximum) <= b - d <= dim_tolerance(maximum)
}

/// Tracks the brightness `b` the user set while the screen is on, unless it
/// is GNOME's idle-dim value `dim`; returns whether the tracked brightness
/// changed and must be stored.
pub fn track_user_brightness(st: &mut ScreenState, b: i64, dim: Option<i64>, maximum: i64) -> (r:
    bool)
    ensures
        is_dim_value(b, dim, maximum) ==> !r && *final(st) == *old(st),
        !is_dim_value(b, dim, maximum) ==> r == (b != old(st).user_brightness) && *final(st)
            == (ScreenState { user_brightness: b, ..*old(st) }),
{
    if let Some(d) = dim {
        let tolerance: i128 = if maximum / 50 > 5 {
            (maximum / 50) as i128
        } else {
            5
        };
        let diff: i128 = (b as i128) - (d as i128);
        if -tolerance <= diff && diff <= tolerance {
            return false;
        }
    }
    if b != st.user_brightness {
        st.user_brightness = b;
        true
    } else {
        false
    }
}

// ---------------------------------------------------------------------------
// Laws.
// ---------------------------------------------------------------------------

/// Two power-key presses that both toggle the screen are at least a second
/// apart, unless the daemon turned the screen off in between.
pub proof fn lemma_power_key_debounce(
    st: ScreenState,
    t1: int,
    now1: i64,
    on1: bool,
    t2: int,
    now2: i64,
    on2: bool,
)
    requires
        power_key_spec(st, t1, now1, on1).1 is TurnOff || power_key_spec(st, t1, now1, on1).1 is TurnOn,
        power_key_spec(power_key_spec(st, t1, now1, on1).0, t2, now2, on2).1 is TurnOff
            || power_key_spec(power_key_spec(st, t1, now1, on1).0, t2, now2, on2).1 is TurnOn,
    ensures
        now2 - now1 >= POWER_DEBOUNCE,
{
}

/// A press that is neither stale nor debounced turns a visible screen off
/// and a dark one on.
pub proof fn lemma_power_key_toggles(st: ScreenState, t: int, now: i64, visibly_on: bool)
    requires
        !(visibly_on && t < st.screen_on_at - STALE_PRESS_MARGIN),
        now - st.last_toggle >= POWER_DEBOUNCE,
    ensures
        power_key_spec(st, t, now, visibly_on).1 == (if visibly_on {
            PowerKeyAction::TurnOff
        } else {
            PowerKeyAction::TurnOn
        }),
{
}

/// Once the daemon turned the screen off, the next power-key press is not
/// debounced, whenever it comes.
pub proof fn lemma_turn_off_resets_debounce(st: ScreenState, off_at: i64, t: int, now: i64, on: bool)
    requires
        now >= POWER_DEBOUNCE,
        !(on && t < turned_off_spec(st, off_at).screen_on_at - STALE_PRESS_MARGIN),
    ensures
        !(power_key_spec(turned_off_spec(st, off_at), t, now, on).1 is IgnoreDebounce),
{
}

/// While the device charges, no countdown starts and none that runs out
/// suspends the system.
pub proof fn lemma_charging_never_suspends(
    st: ScreenState,
    now: i64,
    delay: i64,
    reason: SuspendReason,
)
    ensures
        start_timer_spec(st, now, delay, reason, true) == st,
{
}

/// A screen-on request always cancels the countdown.
pub proof fn lemma_turn_on_cancels_countdown(st: ScreenState, has_backlight: bool, b: i64, now: i64)
    ensures
        turn_on_begin_spec(st, has_backlight, b, now).0.suspend_deadline is None,
{
}

/// Closing the lid while a countdown runs keeps that countdown; otherwise
/// it turns the screen off with the lid countdown; opening it turns the
/// screen on and restarts the re-suspend window.
pub proof fn lemma_lid_events(st: ScreenState, value: i32)
    requires
        st.last_lid != Some(value),
    ensures
        value == 1 && st.suspend_deadline is Some ==> lid_event_spec(st, value).1 is KeepCountdown
            && lid_event_spec(st, value).0.suspend_deadline == st.suspend_deadline,
        value == 1 && st.suspend_deadline is None ==> lid_event_spec(st, value).1 is Closed,
        value == 0 ==> lid_event_spec(st, value).1 is Opened && lid_event_spec(st, value).0.resuspend_count
            == 0,
{
}

/// The brightness restored on wake is the preferred one when that is within
/// 1 to the maximum, and never outside 1 to the maximum when the maximum is
/// positive.
pub proof fn lemma_restored_brightness_in_range(preferred: i64, stored: i64, maximum: i64)
    ensures
        0 < preferred <= maximum ==> restore_brightness_spec(preferred, stored, maximum) == preferred,
        maximum > 0 ==> 0 < restore_brightness_spec(preferred, stored, maximum) <= maximum,
{
}

/// The number of re-suspends that lid-close wakes at `times`, without
/// charging, cause from the state `st`.
pub open spec fn resuspends(st: ScreenState, times: Seq<i64>) -> nat
    decreases times.len(),
{
    if times.len() == 0 {
        0
    } else {
        let (s1, r) = resuspend_spec(st, times[0], false);
        (if r is Resuspend {
            1nat
        } else {
            0nat
        }) + resuspends(s1, times.drop_first())
    }
}

/// Lid-close wakes within one window re-suspend the system at most three
/// times: whether the first wake opens a new window or falls in one that is
/// still open, when every later wake comes no more than a window after the
/// start of the window that the first wake left, at most
/// `MAX_LID_RESUSPENDS` of the wakes re-suspend.
pub proof fn lemma_resuspend_limit(st: ScreenState, times: Seq<i64>)
    requires
        times.len() > 0,
        st.resuspend_count + times.len() < u32::MAX,
        forall|i: int|
            1 <= i < times.len() ==> #[trigger] times[i] - resuspend_spec(
                st,
                times[0],
                false,
            ).0.resuspend_window_start <= RESUSPEND_WINDOW,
    ensures
        resuspends(st, times) <= MAX_LID_RESUSPENDS,
{
    let (s1, r) = resuspend_spec(st, times[0], false);
    let start = s1.resuspend_window_start;
    assert(1 <= s1.resuspend_count <= st.resuspend_count + 1);
    assert forall|i: int| 0 <= i < times.drop_first().len() implies #[trigger] times.drop_first()[i]
        - start <= RESUSPEND_WINDOW by {
        assert(times.drop_first()[i] == times[i + 1]);
    }
    lemma_resuspend_window(s1, times.drop_first(), start);
}

proof fn lemma_resuspend_window(st: ScreenState, times: Seq<i64>, start: i64)
    requires
        st.resuspend_window_start == start,
        1 <= st.resuspend_count,
        st.resuspend_count + times.len() < u32::MAX,
        forall|i: int| 0 <= i < times.len() ==> #[trigger] times[i] - start <= RESUSPEND_WINDOW,
    ensures
        resuspends(st, times) <= (if st.resuspend_count < MAX_LID_RESUSPENDS {
            MAX_LID_RESUSPENDS - st.resuspend_count
        } else {
            0
        }),
    decreases times.len(),
{
    if times.len() > 0 {
        let (s1, r) = resuspend_spec(st, times[0], false);
        assert(times[0] - st.resuspend_window_start <= RESUSPEND_WINDOW);
        assert(s1.resuspend_count == st.resuspend_count + 1);
        assert forall|i: int| 0 <= i < times.drop_first().len() implies #[trigger] times.drop_first()[i]
            - start <= RESUSPEND_WINDOW by {
            assert(times.drop_first()[i] == times[i + 1]);
        }
        lemma_resuspend_window(s1, times.drop_first(), start);
    }
}

/// After a resume with the lid closed the screen is kept off: the resume
/// plan is the lid-closed one (turn the screen off, then re-suspend at most
/// as the window allows), and the next screen-on will run a recovery cycle.
pub proof fn lemma_lid_closed_resume_keeps_screen_off(st: ScreenState)
    ensures
        on_resume_spec(st, Some(true), true).1 is LidClosed,
        on_resume_spec(st, Some(true), true).0.just_resumed,
        on_resume_spec(st, Some(true), true).0.suspend_deadline is None,
        on_resume_spec(st, Some(true), true).0.last_lid == Some(1i32),
{
}

/// GNOME's idle-dim value is never taken for the user's brightness.
pub proof fn lemma_dim_value_not_tracked(b: i64, d: i64, maximum: i64)
    requires
        -dim_tolerance(maximum) <= b - d <= dim_tolerance(maximum),
    ensures
        is_dim_value(b, Some(d), maximum),
{
}

} // verus!
