use nabu_power::display::{
    kernel_log_plan, find_backlight, find_dpms_path, is_charging, kernel_init_failed, load_state, parse_sysfs_number,
    read_max_brightness, state_file_content, BacklightEntry, DrmEntry, SupplyState,
};
use nabu_power::screen::{
    brightness_stuck, brightness_to_track, cancel_suspend_timer, countdown_running, needs_setup,
    screen_off_from_reading, should_track_brightness, take_resume_flag, event_time, external_unblank_action,
    external_unblank_detected, fire_suspend_timer, is_lid_event, is_power_press, keyboard_event_wakes,
    lid_closed, lid_event, on_resume, pointer_wakes, power_key_press, preferred_brightness, reason_name,
    restore_brightness, resume_screen, resuspend_decision, screen_turned_off, screen_turned_on,
    screen_visibly_on, start_suspend_timer, suspend_due, suspend_finished, track_user_brightness,
    turn_off_needed, turn_on_begin, unblank_confirmed, update_display_state, ExternalUnblank, FireAction,
    InputEvent, LidAction, PowerKeyAction, ResumePlan, ResuspendAction, ScreenState, SuspendReason, TurnOnStart,
    wake_start, wake_step, WakeAction, WakeEvent, WakeStage,
    LID_SUSPEND_DELAY, POWER_SUSPEND_DELAY,
};

const S: i64 = 1_000_000;
const T0: i64 = 1_700_000_000 * S;

fn ev(event_type: u16, code: u16, value: i32) -> InputEvent {
    InputEvent { time_sec: 1_700_000_000, time_usec: 0, event_type, code, value }
}

#[test]
fn power_key_toggles_with_debounce() {
    let mut st = ScreenState::new(500);
    assert!(is_power_press(&ev(1, 116, 1)));
    assert!(!is_power_press(&ev(1, 116, 0)));
    assert_eq!(power_key_press(&mut st, T0 as i128, T0, true), PowerKeyAction::TurnOff);
    assert_eq!(st.last_toggle, T0);
    assert_eq!(power_key_press(&mut st, T0 as i128, T0 + S / 2, false), PowerKeyAction::IgnoreDebounce);
    assert_eq!(power_key_press(&mut st, T0 as i128, T0 + S, false), PowerKeyAction::TurnOn);
}

#[test]
fn stale_press_is_ignored() {
    let mut st = ScreenState::new(500);
    screen_turned_on(&mut st, T0);
    assert_eq!(power_key_press(&mut st, (T0 - S) as i128, T0 + 5 * S, true), PowerKeyAction::IgnoreStale);
    assert_eq!(power_key_press(&mut st, (T0 - S / 10) as i128, T0 + 5 * S, true), PowerKeyAction::TurnOff);
}

#[test]
fn turning_off_resets_the_debounce() {
    let mut st = ScreenState::new(500);
    assert_eq!(power_key_press(&mut st, T0 as i128, T0, true), PowerKeyAction::TurnOff);
    screen_turned_off(&mut st, T0);
    assert!(st.screen_off && st.display_blanked);
    assert_eq!(power_key_press(&mut st, T0 as i128, T0 + S / 10, false), PowerKeyAction::TurnOn);
}

#[test]
fn lid_events() {
    let mut st = ScreenState::new(500);
    assert!(is_lid_event(&ev(5, 0, 1)));
    assert_eq!(lid_event(&mut st, 1), LidAction::Closed);
    assert_eq!(lid_event(&mut st, 1), LidAction::Ignore);
    start_suspend_timer(&mut st, T0, LID_SUSPEND_DELAY, SuspendReason::LidClose, false);
    st.resuspend_count = 2;
    assert_eq!(lid_event(&mut st, 0), LidAction::Opened);
    assert_eq!(st.resuspend_count, 0);
    assert_eq!(lid_event(&mut st, 1), LidAction::KeepCountdown);
    assert_eq!(st.suspend_deadline, Some((T0 + LID_SUSPEND_DELAY) as i128));
}

#[test]
fn countdown() {
    let mut st = ScreenState::new(500);
    assert!(!start_suspend_timer(&mut st, T0, POWER_SUSPEND_DELAY, SuspendReason::PowerButton, true));
    assert_eq!(st.suspend_deadline, None);
    assert!(start_suspend_timer(&mut st, T0, POWER_SUSPEND_DELAY, SuspendReason::PowerButton, false));
    assert!(!suspend_due(&st, T0 + 14 * S));
    assert!(suspend_due(&st, T0 + 15 * S));
    assert_eq!(reason_name(SuspendReason::PowerButton), "power button");
    assert_eq!(reason_name(SuspendReason::LidClose), "lid close");
    assert_eq!(fire_suspend_timer(&mut st, true), (FireAction::StayAwake, Some(SuspendReason::PowerButton)));
    assert_eq!(st.suspend_deadline, None);
    start_suspend_timer(&mut st, T0, POWER_SUSPEND_DELAY, SuspendReason::PowerButton, false);
    assert_eq!(fire_suspend_timer(&mut st, false).0, FireAction::Suspend);
    suspend_finished(&mut st, true);
    assert!(st.just_resumed);
    start_suspend_timer(&mut st, T0, POWER_SUSPEND_DELAY, SuspendReason::PowerButton, false);
    assert_eq!(cancel_suspend_timer(&mut st), (true, Some(SuspendReason::PowerButton)));
    assert_eq!(cancel_suspend_timer(&mut st), (false, None));
}

#[test]
fn turning_on() {
    let mut st = ScreenState::new(500);
    start_suspend_timer(&mut st, T0, POWER_SUSPEND_DELAY, SuspendReason::PowerButton, false);
    assert_eq!(turn_on_begin(&mut st, true, 800, T0), TurnOnStart::Skip);
    assert_eq!(st.suspend_deadline, None);
    screen_turned_off(&mut st, T0);
    st.just_resumed = true;
    assert_eq!(turn_on_begin(&mut st, true, 0, T0 + S), TurnOnStart::Proceed);
    assert!(st.just_resumed);
    assert_eq!(st.last_own_unblank, T0 + S);
    assert_eq!(turn_on_begin(&mut st, false, 0, T0), TurnOnStart::Skip);
    assert!(unblank_confirmed(true, None));
    assert!(unblank_confirmed(false, Some("On")));
    assert!(!unblank_confirmed(false, Some("Off")));
    screen_turned_on(&mut st, T0 + 2 * S);
    assert!(!st.screen_off && !st.display_blanked);
    assert_eq!(st.screen_on_at, T0 + 2 * S);
}

#[test]
fn brightness_on_wake() {
    assert_eq!(restore_brightness(500, None, 2047), (500, true));
    assert_eq!(restore_brightness(5000, None, 2047), (2047, true));
    assert_eq!(restore_brightness(0, Some(300), 2047), (300, true));
    assert_eq!(restore_brightness(-1, Some(-1), 2047), (2047, true));
    assert_eq!(restore_brightness(10, None, 2047), (10, false));
    assert_eq!(preferred_brightness(500, None), 500);
    assert_eq!(preferred_brightness(0, Some(300)), 300);
}

#[test]
fn turning_off() {
    let mut st = ScreenState::new(500);
    assert!(turn_off_needed(&st, true, 800));
    assert!(!turn_off_needed(&st, false, 800));
    screen_turned_off(&mut st, T0);
    assert!(!turn_off_needed(&st, true, 0));
    assert!(turn_off_needed(&st, true, 5));
}

#[test]
fn resume_with_lid_closed_resuspends_at_most_three_times() {
    let mut st = ScreenState::new(500);
    assert_eq!(on_resume(&mut st, Some(true), true), ResumePlan::LidClosed);
    assert!(st.just_resumed);
    assert_eq!(st.last_lid, Some(1));
    let before = st;
    assert_eq!(resuspend_decision(&mut st, T0, true), ResuspendAction::Charging);
    assert_eq!(st, before);
    let results: Vec<ResuspendAction> = (0..5).map(|k| resuspend_decision(&mut st, T0 + k * S, false)).collect();
    assert_eq!(
        results,
        vec![
            ResuspendAction::Resuspend,
            ResuspendAction::Resuspend,
            ResuspendAction::Resuspend,
            ResuspendAction::StayAwake,
            ResuspendAction::StayAwake
        ]
    );
    assert_eq!(resuspend_decision(&mut st, T0 + 70 * S, false), ResuspendAction::Resuspend);
    assert_eq!(on_resume(&mut st, Some(false), true), ResumePlan::CheckScreen);
    assert_eq!(st.resuspend_count, 0);
    assert_eq!(on_resume(&mut st, None, false), ResumePlan::NoBacklight);
    assert!(resume_screen(&mut st, false));
    assert!(st.screen_off);
    assert!(!resume_screen(&mut st, true));
    assert!(!st.screen_off);
}

#[test]
fn wakes_from_keyboards_and_pointers() {
    let key = ev(1, 30, 1);
    assert!(keyboard_event_wakes(&key, Some(false), false));
    assert!(!keyboard_event_wakes(&key, Some(true), false));
    assert!(!keyboard_event_wakes(&key, None, true));
    assert!(!keyboard_event_wakes(&ev(1, 30, 0), None, false));
    let mut st = ScreenState::new(500);
    let motion = vec![ev(2, 0, 0), ev(2, 1, 3)];
    assert!(pointer_wakes(&st, &motion, None, false, T0));
    assert!(!pointer_wakes(&st, &vec![ev(2, 0, 0)], None, false, T0));
    assert!(!pointer_wakes(&st, &motion, Some(true), false, T0));
    screen_turned_off(&mut st, T0);
    assert!(!pointer_wakes(&st, &motion, None, false, T0 + S));
    assert!(pointer_wakes(&st, &motion, None, false, T0 + 2 * S));
}

#[test]
fn lid_state_and_display() {
    assert_eq!(lid_closed(Some(1), Some(0)), Some(true));
    assert_eq!(lid_closed(Some(2), Some(1)), Some(false));
    assert_eq!(lid_closed(None, Some(1)), Some(true));
    assert_eq!(lid_closed(None, None), None);
    assert!(!screen_visibly_on(true, Some(500)));
    assert!(!screen_visibly_on(false, Some(0)));
    assert!(screen_visibly_on(false, None));
    let mut st = ScreenState::new(500);
    update_display_state(&mut st, Some("Off"));
    assert!(st.display_blanked);
    update_display_state(&mut st, None);
    assert!(st.display_blanked);
    update_display_state(&mut st, Some("On"));
    assert!(!st.display_blanked);
    assert_eq!(event_time(&InputEvent { time_sec: 2, time_usec: 5, event_type: 0, code: 0, value: 0 }), 2_000_005);
}

#[test]
fn external_unblanks() {
    let st = ScreenState::new(500);
    assert!(external_unblank_detected(Some(true), false, T0, &st));
    assert!(!external_unblank_detected(Some(false), false, T0, &st));
    assert!(!external_unblank_detected(None, false, T0, &st));
    let mut own = ScreenState::new(500);
    own.last_own_unblank = T0;
    assert!(!external_unblank_detected(Some(true), false, T0 + 2 * S, &own));
    assert_eq!(external_unblank_action(Some(true), true), ExternalUnblank::KeepOff);
    assert_eq!(external_unblank_action(Some(false), true), ExternalUnblank::TurnOn);
    assert_eq!(external_unblank_action(None, false), ExternalUnblank::RefreshInputs);
}

#[test]
fn user_brightness_ignores_idle_dim() {
    let mut st = ScreenState::new(500);
    assert_eq!(brightness_to_track(&st, Some(628)), Some(628));
    assert_eq!(brightness_to_track(&st, Some(0)), None);
    assert!(!track_user_brightness(&mut st, 640, Some(628), 2047));
    assert_eq!(st.user_brightness, 500);
    assert!(track_user_brightness(&mut st, 900, Some(628), 2047));
    assert_eq!(st.user_brightness, 900);
    assert!(!track_user_brightness(&mut st, 900, None, 2047));
    screen_turned_off(&mut st, T0);
    assert_eq!(brightness_to_track(&st, Some(628)), None);
}

#[test]
fn sysfs_readings() {
    assert_eq!(parse_sysfs_number(" 1234\n"), Some(1234));
    assert_eq!(parse_sysfs_number("x"), None);
    assert_eq!(read_max_brightness(Some("4095\n")), 4095);
    assert_eq!(read_max_brightness(None), 2047);
    assert_eq!(load_state(Some("300\n")), 300);
    assert_eq!(load_state(Some("")), -1);
    assert_eq!(state_file_content(300), "300\n");
}

#[test]
fn devices_in_sysfs() {
    let bl = vec![
        BacklightEntry { name: "a".into(), has_brightness: false },
        BacklightEntry { name: "ae94000.dsi.0".into(), has_brightness: true },
    ];
    assert_eq!(find_backlight(&bl).as_deref(), Some("/sys/class/backlight/ae94000.dsi.0"));
    let drm = vec![
        DrmEntry { name: "card0".into(), has_dpms: true, status: Some("connected".into()) },
        DrmEntry { name: "card0-DSI-1".into(), has_dpms: true, status: Some("disconnected\n".into()) },
        DrmEntry { name: "card0-HDMI-A-1".into(), has_dpms: true, status: Some("connected\n".into()) },
    ];
    assert_eq!(find_dpms_path(None, &drm).as_deref(), Some("/sys/class/drm/card0-HDMI-A-1/dpms"));
    let drm2 = vec![
        DrmEntry { name: "card0".into(), has_dpms: true, status: Some("connected".into()) },
        DrmEntry { name: "card0-DSI-1".into(), has_dpms: true, status: Some("disconnected\n".into()) },
    ];
    assert_eq!(find_dpms_path(None, &drm2).as_deref(), Some("/sys/class/drm/card0-DSI-1/dpms"));
    assert_eq!(find_dpms_path(Some("/old"), &drm).as_deref(), Some("/old"));
    assert_eq!(find_dpms_path(None, &Vec::new()), None);
}

#[test]
fn charging_detection() {
    let s = |k: &str, st: Option<&str>, on: Option<&str>| SupplyState {
        kind: k.into(),
        status: st.map(String::from),
        online: on.map(String::from),
    };
    assert!(is_charging(&vec![s("Battery", Some("Charging"), None)]));
    assert!(is_charging(&vec![s("Battery", Some("Full"), None)]));
    assert!(!is_charging(&vec![s("Battery", Some("Discharging"), Some("1"))]));
    assert!(is_charging(&vec![s("USB", None, Some("1"))]));
    assert!(!is_charging(&vec![s("USB", Some("Not charging"), Some("0"))]));
    assert!(!is_charging(&Vec::new()));
}

#[test]
fn panel_failures_in_the_kernel_log() {
    assert!(kernel_init_failed("[  12.3] NVT-ts: nvt_get_fw_info failed. (-5)\n"));
    assert!(kernel_init_failed("dsi: Failed to set display on\n"));
    assert!(!kernel_init_failed("all fine\n"));
}

#[test]
fn resuspends_within_an_open_window() {
    let mut st = ScreenState::new(500);
    st.resuspend_window_start = T0;
    st.resuspend_count = 2;
    assert_eq!(resuspend_decision(&mut st, T0 + 10 * S, false), ResuspendAction::Resuspend);
    assert_eq!(resuspend_decision(&mut st, T0 + 20 * S, false), ResuspendAction::StayAwake);
    assert_eq!(resuspend_decision(&mut st, T0 + 60 * S, false), ResuspendAction::StayAwake);
}

#[test]
fn wake_sequence_without_resume() {
    let (mut run, a) = wake_start(false);
    assert_eq!(a, WakeAction::Unblank);
    assert_eq!(wake_step(&mut run, WakeEvent::Unblanked(false)), WakeAction::PauseThenUnblank);
    assert_eq!(wake_step(&mut run, WakeEvent::Unblanked(false)), WakeAction::PauseThenUnblank);
    assert_eq!(wake_step(&mut run, WakeEvent::Unblanked(false)), WakeAction::PauseThenCheckDpms);
    assert_eq!(run.attempt, 3);
    assert_eq!(wake_step(&mut run, WakeEvent::DpmsOn(false)), WakeAction::KeepOff);
    assert_eq!(wake_step(&mut run, WakeEvent::DpmsOn(true)), WakeAction::Settle);
    assert_eq!(
        wake_step(&mut run, WakeEvent::PanelFailed(false)),
        WakeAction::RestoreBrightness { recovered: true }
    );
}

#[test]
fn wake_sequence_after_resume_with_failures() {
    let (mut run, a) = wake_start(true);
    assert_eq!(a, WakeAction::ForcedBlank);
    assert_eq!(wake_step(&mut run, WakeEvent::ForcedBlankDone), WakeAction::Unblank);
    assert_eq!(wake_step(&mut run, WakeEvent::Unblanked(true)), WakeAction::Settle);
    assert_eq!(run.stage, WakeStage::Settling);
    assert_eq!(wake_step(&mut run, WakeEvent::PanelFailed(true)), WakeAction::RecoveryCycle);
    assert_eq!(wake_step(&mut run, WakeEvent::PanelFailed(true)), WakeAction::RecoveryCycle);
    assert_eq!(run.cycle, 2);
    assert_eq!(
        wake_step(&mut run, WakeEvent::PanelFailed(true)),
        WakeAction::RestoreBrightness { recovered: false }
    );
}

#[test]
fn recovery_stops_at_the_first_clean_cycle() {
    let (mut run, _) = wake_start(false);
    wake_step(&mut run, WakeEvent::Unblanked(true));
    assert_eq!(wake_step(&mut run, WakeEvent::PanelFailed(true)), WakeAction::RecoveryCycle);
    assert_eq!(
        wake_step(&mut run, WakeEvent::PanelFailed(false)),
        WakeAction::RestoreBrightness { recovered: true }
    );
}

#[test]
fn kernel_log_plan_reads_since_the_wake() {
    let p = kernel_log_plan("2024-01-02 03:04:05.678");
    assert_eq!(p.program, "journalctl");
    assert_eq!(p.args, vec!["-k", "--since", "2024-01-02 03:04:05.678", "--no-pager", "-o", "short"]);
    assert!(p.env.is_empty());
    assert_eq!(p.timeout_secs, 5);
}

#[test]
fn resume_flag_survives_until_taken() {
    let mut st = ScreenState::new(500);
    screen_turned_off(&mut st, T0);
    st.just_resumed = true;
    assert_eq!(turn_on_begin(&mut st, true, 0, T0 + S), TurnOnStart::Proceed);
    assert!(st.just_resumed);
    assert!(take_resume_flag(&mut st));
    assert!(!st.just_resumed);
    assert!(!take_resume_flag(&mut st));
}

#[test]
fn stuck_brightness_reading() {
    assert!(!brightness_stuck(Some(300), 300));
    assert!(brightness_stuck(Some(0), 300));
    assert!(brightness_stuck(None, 300));
    assert!(!brightness_stuck(None, -1));
}

#[test]
fn loop_step_decisions() {
    let mut st = ScreenState::new(500);
    assert!(!countdown_running(&st));
    start_suspend_timer(&mut st, T0, POWER_SUSPEND_DELAY, SuspendReason::PowerButton, false);
    assert!(countdown_running(&st));
    assert!(should_track_brightness(&st) == (!st.display_blanked && !st.screen_off));
    screen_turned_off(&mut st, T0);
    assert!(!should_track_brightness(&st));
    assert!(!needs_setup(true, true, true, 1, 1));
    assert!(needs_setup(false, true, true, 1, 1));
    assert!(needs_setup(true, false, true, 1, 1));
    assert!(needs_setup(true, true, false, 1, 1));
    assert!(needs_setup(true, true, true, 0, 1));
    assert!(needs_setup(true, true, true, 1, 0));
    assert!(screen_off_from_reading(Some(0)));
    assert!(screen_off_from_reading(None));
    assert!(!screen_off_from_reading(Some(120)));
}
