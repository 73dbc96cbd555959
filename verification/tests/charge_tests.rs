use nabu_power::args::{next_arg, parse_addr, parse_args, parse_int, ArgsOutcome, Options};
use nabu_power::charge::{
    decide, desired_ctrl, device_ok, enforce, enforce_with_ctrl, find_battery, mode_name, monitor_step,
    power_available, read_capacity, restore_charging, set_charging, standby_set, Action, Config,
    EnforcePlan, EnforceResult, ExitAction, MonitorStep, PowerSupply,
};

fn args(v: &[&str]) -> Vec<String> {
    v.iter().map(|s| s.to_string()).collect()
}

fn run_options(v: &[&str]) -> Options {
    match parse_args(&args(v)) {
        Ok(ArgsOutcome::Run(o)) => o,
        Ok(ArgsOutcome::Help) => panic!("help"),
        Err(e) => panic!("refused: {}", e),
    }
}

fn refusal(v: &[&str]) -> String {
    match parse_args(&args(v)) {
        Err(e) => e,
        _ => panic!("accepted"),
    }
}

fn config(stop: i32, start: i32, dry_run: bool, no_restore: bool) -> Config {
    let mut o = run_options(&[]);
    o.stop = stop;
    o.start = start;
    o.dry_run = dry_run;
    o.no_restore_on_exit = no_restore;
    Config::new(o, "/sys/class/power_supply/battery".to_string())
}

fn supply(name: &str, kind: Option<&str>, online: Option<&str>, has_capacity: bool) -> PowerSupply {
    PowerSupply {
        name: name.to_string(),
        kind: kind.map(String::from),
        online: online.map(String::from),
        has_capacity,
    }
}

#[test]
fn defaults() {
    let o = run_options(&[]);
    assert_eq!((o.stop, o.start, o.interval_secs, o.watch_interval_secs), (75, 50, 20, 2));
    assert_eq!(o.battery, None);
    assert_eq!(o.charger_psy, "/sys/class/power_supply/ln8000-charger");
    assert_eq!(o.i2c_dev, "/dev/i2c-1");
    assert_eq!(o.i2c_addr, 0x51);
    assert!(!o.once && !o.status && !o.dry_run && !o.no_restore_on_exit && !o.verbose);
}

#[test]
fn all_options() {
    let o = run_options(&[
        "--stop", "80", "--start", "60", "--interval", "15", "--watch-interval", "3", "--battery",
        "/sys/b", "--charger-psy", "/sys/c", "--i2c-dev", "/dev/i2c-4", "--i2c-addr", "0x52",
        "--once", "--status", "--dry-run", "--no-restore-on-exit", "--verbose",
    ]);
    assert_eq!((o.stop, o.start, o.interval_secs, o.watch_interval_secs), (80, 60, 15, 3));
    assert_eq!(o.battery.as_deref(), Some("/sys/b"));
    assert_eq!(o.charger_psy, "/sys/c");
    assert_eq!(o.i2c_dev, "/dev/i2c-4");
    assert_eq!(o.i2c_addr, 0x52);
    assert!(o.once && o.status && o.dry_run && o.no_restore_on_exit && o.verbose);
    assert_eq!(run_options(&["--i2c-addr", "81"]).i2c_addr, 81);
}

#[test]
fn help_wins_where_it_stands() {
    assert!(matches!(parse_args(&args(&["-h", "--bogus"])), Ok(ArgsOutcome::Help)));
    assert!(matches!(parse_args(&args(&["--once", "--help"])), Ok(ArgsOutcome::Help)));
    assert_eq!(refusal(&["--bogus", "-h"]), "未知选项: --bogus");
}

#[test]
fn each_refusal() {
    assert_eq!(refusal(&["--stop"]), "选项 --stop 缺少参数");
    assert_eq!(refusal(&["--stop", "x"]), "选项 --stop 参数无效: x");
    assert_eq!(refusal(&["--i2c-addr", "0xZZ"]), "芯片地址无效: 0xZZ");
    assert_eq!(refusal(&["--i2c-addr", "70000"]), "芯片地址无效: 70000");
    assert_eq!(refusal(&["--battery"]), "选项 --battery 缺少参数");
    assert_eq!(refusal(&["--stop", "50"]), "--stop 必须大于 --start");
    assert_eq!(refusal(&["--stop", "120", "--start", "50"]), "阈值必须在 0-100 之间且 --start < --stop");
    assert_eq!(refusal(&["--start", "-5"]), "阈值必须在 0-100 之间且 --start < --stop");
    assert_eq!(refusal(&["--interval", "4"]), "--interval 不能小于 5 秒");
    assert_eq!(refusal(&["--watch-interval", "0"]), "--watch-interval 不能小于 1 秒");
}

#[test]
fn negative_intervals_are_refused() {
    assert_eq!(refusal(&["--interval", "-1"]), "--interval 不能小于 5 秒");
    assert_eq!(refusal(&["--watch-interval", "-3"]), "--watch-interval 不能小于 1 秒");
    assert_eq!(run_options(&["--interval", "5", "--watch-interval", "1"]).interval_secs, 5);
}

#[test]
fn next_arg_steps_over_the_value() {
    let a = args(&["--stop", "80"]);
    let mut i = 0usize;
    assert_eq!(next_arg(&a, &mut i, "--stop"), Ok("80".to_string()));
    assert_eq!(i, 1);
    assert_eq!(next_arg(&a, &mut i, "--stop"), Err("选项 --stop 缺少参数".to_string()));
    assert_eq!(i, 2);
}

#[test]
fn integer_and_address_parsing() {
    assert_eq!(parse_int("42", "--stop"), Ok(42));
    assert_eq!(parse_int("+7", "--stop"), Ok(7));
    assert_eq!(parse_int("-2147483648", "--stop"), Ok(i32::MIN));
    assert!(parse_int("2147483648", "--stop").is_err());
    assert!(parse_int("", "--stop").is_err());
    assert!(parse_int("-", "--stop").is_err());
    assert!(parse_int(" 1", "--stop").is_err());
    assert_eq!(parse_addr("0x51"), Ok(0x51));
    assert_eq!(parse_addr("0xffff"), Ok(0xffff));
    assert_eq!(parse_addr("0x+1A"), Ok(0x1a));
    assert_eq!(parse_addr("81"), Ok(81));
    assert!(parse_addr("0x").is_err());
    assert!(parse_addr("-1").is_err());
    assert!(parse_addr("0x10000").is_err());
}

#[test]
fn threshold_rule() {
    let cfg = config(75, 50, false, false);
    assert_eq!(decide(&cfg, 76, false), Some(Action::Stop));
    assert_eq!(decide(&cfg, 76, true), Some(Action::Stop));
    assert_eq!(decide(&cfg, 75, true), None);
    assert_eq!(decide(&cfg, 60, true), None);
    assert_eq!(decide(&cfg, 50, true), None);
    assert_eq!(decide(&cfg, 49, true), Some(Action::Allow));
    assert_eq!(decide(&cfg, 49, false), None);
}

#[test]
fn only_the_two_control_bits_change() {
    assert_eq!(desired_ctrl(0x00, Action::Stop), 0x08);
    assert_eq!(desired_ctrl(0xF7, Action::Stop), 0xFE);
    assert_eq!(desired_ctrl(0x09, Action::Allow), 0x00);
    assert_eq!(desired_ctrl(0xFF, Action::Allow), 0xF6);
    for cur in 0..=255u8 {
        for a in [Action::Stop, Action::Allow] {
            let new = desired_ctrl(cur, a);
            assert_eq!(new & 0xF6, cur & 0xF6);
            assert_eq!(desired_ctrl(new, a), new);
        }
    }
}

#[test]
fn set_charging_writes_only_changes() {
    assert_eq!(set_charging(0x08, true), (0x00, true));
    assert_eq!(set_charging(0x00, true), (0x00, false));
    assert_eq!(set_charging(0x41, false), (0x48, true));
    assert_eq!(set_charging(0x48, false), (0x48, false));
    assert!(standby_set(0x48));
    assert!(!standby_set(0x41));
}

#[test]
fn mode_names() {
    assert_eq!(mode_name(0x0C), "bypass");
    assert_eq!(mode_name(0x04), "switching(充电)");
    assert_eq!(mode_name(0x02), "standby(停止)");
    assert_eq!(mode_name(0x01), "shutdown");
    assert_eq!(mode_name(0x00), "unknown");
    assert_eq!(mode_name(0xF0), "unknown");
}

#[test]
fn enforcing() {
    let cfg = config(75, 50, false, false);
    assert_eq!(enforce(&cfg, 60, true), EnforcePlan::Hold);
    assert_eq!(enforce(&cfg, 80, false), EnforcePlan::ReadCtrl(Action::Stop));
    assert_eq!(enforce(&cfg, 40, true), EnforcePlan::ReadCtrl(Action::Allow));
    assert_eq!(enforce(&cfg, 40, false), EnforcePlan::Hold);
    assert_eq!(enforce_with_ctrl(&cfg, Action::Stop, 0x08), EnforceResult::AlreadySet);
    assert_eq!(enforce_with_ctrl(&cfg, Action::Stop, 0x01), EnforceResult::Write(0x08));
    assert_eq!(enforce_with_ctrl(&cfg, Action::Allow, 0x08), EnforceResult::Write(0x00));
    let dry = config(75, 50, true, false);
    assert_eq!(enforce_with_ctrl(&dry, Action::Allow, 0x08), EnforceResult::DryRun(0x00));
    assert_eq!(enforce_with_ctrl(&dry, Action::Allow, 0x00), EnforceResult::AlreadySet);
}

#[test]
fn monitoring_rounds() {
    assert_eq!(monitor_step(None, true, true), MonitorStep { power_changed: false, check_capacity: true });
    assert_eq!(monitor_step(Some(true), true, false), MonitorStep { power_changed: false, check_capacity: false });
    assert_eq!(monitor_step(Some(false), true, true), MonitorStep { power_changed: true, check_capacity: false });
    assert_eq!(monitor_step(Some(true), false, false), MonitorStep { power_changed: true, check_capacity: false });
}

#[test]
fn restoring_on_exit() {
    assert_eq!(restore_charging(&config(75, 50, false, false), true), ExitAction::Restore);
    assert_eq!(restore_charging(&config(75, 50, false, false), false), ExitAction::NoPower);
    assert_eq!(restore_charging(&config(75, 50, false, true), true), ExitAction::Keep);
}

#[test]
fn capacity_readings() {
    assert_eq!(read_capacity(Some("87")), 87);
    assert_eq!(read_capacity(Some("n/a")), -1);
    assert_eq!(read_capacity(None), -1);
}

#[test]
fn battery_lookup() {
    let entries = Ok(vec![
        supply("ac", Some("Mains"), Some("0"), false),
        supply("bms", Some("Battery"), None, false),
        supply("battery", Some("Battery"), None, true),
        supply("battery2", Some("Battery"), None, true),
    ]);
    assert_eq!(find_battery(None, false, &entries), Ok("/sys/class/power_supply/battery".to_string()));
    assert_eq!(find_battery(Some("/x"), true, &entries), Ok("/x".to_string()));
    assert_eq!(find_battery(Some("/x"), false, &entries), Err("电池路径不存在: /x".to_string()));
    let none = Ok(vec![supply("ac", Some("Mains"), Some("1"), false)]);
    assert_eq!(find_battery(None, false, &none), Err("未找到电池节点，请用 --battery 指定".to_string()));
    let unreadable: Result<Vec<PowerSupply>, String> = Err("读取 /sys/class/power_supply 失败: x".to_string());
    assert_eq!(find_battery(None, false, &unreadable), Err("读取 /sys/class/power_supply 失败: x".to_string()));
}

#[test]
fn power_sources() {
    let entries = Ok(vec![
        supply("battery", Some("Battery"), Some("1"), true),
        supply("usb", Some("USB"), Some("0"), false),
        supply("ac", Some("Mains"), Some("1"), false),
    ]);
    assert_eq!(
        power_available(Some("1"), "/sys/class/power_supply/ln8000-charger", &entries),
        (true, "/sys/class/power_supply/ln8000-charger present=1".to_string())
    );
    assert_eq!(
        power_available(Some("0"), "/c", &entries),
        (true, "/sys/class/power_supply/ac online=1".to_string())
    );
    let off = Ok(vec![supply("usb", Some("USB"), Some("0"), false), supply("x", None, Some("1"), false)]);
    assert_eq!(power_available(None, "/c", &off), (false, "无电源接入".to_string()));
    let unreadable: Result<Vec<PowerSupply>, String> = Err("x".to_string());
    assert_eq!(power_available(None, "/c", &unreadable), (false, "无电源接入".to_string()));
}

#[test]
fn device_id_check() {
    assert!(device_ok(Some(0x42)));
    assert!(!device_ok(Some(0x41)));
    assert!(!device_ok(None));
}
