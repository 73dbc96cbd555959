use nabu_power::command::CmdResult;
use nabu_power::session::{
    backlight_query, best_user_brightness, compositor_backlight_target, get_compositor_backlight_info,
    get_compositor_brightness, graphical_session, idle_dim_brightness, idle_dim_enabled, idle_dim_percent,
    parse_after, parse_connector, session_get, session_verdict, set_backlight_command,
    set_compositor_backlight, set_power_save, show_session, BacklightAttempt, SessionStep, SessionVerdict,
    idle_brightness_query, idle_dim_query, list_sessions_plan, show_session_plan,
};

const REPLY: &str = "(<(uint32 78, [{'connector': <'DSI-1'>, 'active': <true>, \
                     'min': <20>, 'max': <2047>, 'value': <2047>}])>,)";

fn ok(stdout: &str) -> CmdResult {
    CmdResult { ok: true, stdout: stdout.to_string(), stderr: String::new() }
}

#[test]
fn parses_compositor_backlight_target() {
    let s = "(<(uint32 78, [{'connector': <'DSI-1'>, 'active': <true>, \
              'min': <20>, 'max': <2047>, 'value': <2047>}])>,)";
    assert_eq!(parse_after(s, "uint32 "), Some(78));
    assert_eq!(parse_connector(s).as_deref(), Some("DSI-1"));
}

#[test]
fn parse_after_edge_cases() {
    assert_eq!(parse_after("value 12x", "value "), Some(12));
    assert_eq!(parse_after("value x", "value "), None);
    assert_eq!(parse_after("nothing here", "value "), None);
    assert_eq!(parse_after("a=1 a=2", "a="), Some(1));
    assert_eq!(parse_after("n 4294967295", "n "), Some(4294967295));
    assert_eq!(parse_after("n 4294967296", "n "), None);
}

#[test]
fn parse_connector_needs_both_quotes() {
    assert_eq!(parse_connector("'connector': <'HDMI-A-1' no end"), None);
    assert_eq!(parse_connector("no connector"), None);
    assert_eq!(parse_connector("'connector': <''>").as_deref(), Some(""));
}

#[test]
fn backlight_target_and_info() {
    assert_eq!(compositor_backlight_target(&ok(REPLY)), Some((78, "DSI-1".to_string())));
    let failed = CmdResult { ok: false, stdout: REPLY.to_string(), stderr: String::new() };
    assert_eq!(compositor_backlight_target(&failed), None);
    assert_eq!(get_compositor_backlight_info(&ok(REPLY)), Some((78, 2047)));
    assert_eq!(get_compositor_backlight_info(&failed), None);
    assert_eq!(get_compositor_backlight_info(&ok("uint32 5, 'value': <0>")), None);
    assert_eq!(get_compositor_brightness(Some((78, 2047))), Some(2047));
    assert_eq!(get_compositor_brightness(None), None);
}

#[test]
fn best_user_brightness_prefers_real_values() {
    assert_eq!(best_user_brightness(Some(500), 300), 500);
    assert_eq!(best_user_brightness(Some(20), 300), 300);
    assert_eq!(best_user_brightness(Some(10), 5), 10);
    assert_eq!(best_user_brightness(None, 5), 5);
    assert_eq!(best_user_brightness(None, -1), -1);
    assert_eq!(best_user_brightness(Some(0), -1), -1);
}

#[test]
fn idle_dim_value() {
    assert!(idle_dim_enabled("true\n"));
    assert!(!idle_dim_enabled("false\n"));
    assert_eq!(idle_dim_percent("int32 30\n"), Some(30));
    assert_eq!(idle_dim_percent("uint32 x"), None);
    assert_eq!(idle_dim_percent(""), None);
    // 20 + (2047 - 20) * 30 / 100
    assert_eq!(idle_dim_brightness(2047, 30), Some(628));
    assert_eq!(idle_dim_brightness(2047, 0), None);
    assert_eq!(idle_dim_brightness(20, 30), None);
}

#[test]
fn show_session_keeps_the_last_value() {
    let p = show_session("Id=2\nName=alice\nUser=1000\nno equals\nName=bob\n");
    assert_eq!(session_get(&p, "Name").map(|s| s.as_str()), Some("bob"));
    assert_eq!(session_get(&p, "User").map(|s| s.as_str()), Some("1000"));
    assert_eq!(session_get(&p, "Type"), None);
    let q = show_session("Desktop=a=b\n");
    assert_eq!(session_get(&q, "Desktop").map(|s| s.as_str()), Some("a=b"));
}

fn props(text: &str) -> nabu_power::session::SessionProps {
    show_session(text)
}

#[test]
fn session_verdicts() {
    let good = props("Class=user\nActive=yes\nType=wayland\nUser=1000\nName=alice\n");
    assert!(matches!(session_verdict(&good), SessionVerdict::Found(ref n, 1000) if n == "alice"));
    let greeter = props("Class=greeter\nActive=yes\nType=wayland\nUser=120\nName=gdm\n");
    assert!(matches!(session_verdict(&greeter), SessionVerdict::Skip));
    let tty = props("Class=user\nActive=yes\nType=tty\nUser=1000\nName=alice\n");
    assert!(matches!(session_verdict(&tty), SessionVerdict::Skip));
    let root = props("Class=user\nActive=yes\nType=x11\nUser=0\nName=root\n");
    assert!(matches!(session_verdict(&root), SessionVerdict::Fail));
    let no_user = props("Class=user\nActive=yes\nType=x11\nName=alice\n");
    assert!(matches!(session_verdict(&no_user), SessionVerdict::Fail));
}

#[test]
fn graphical_session_asks_for_each_session_in_turn() {
    let list = "  3 1000 alice seat0 tty2\n  c1  120 gdm seat0\n";
    let mut infos = Vec::new();
    match graphical_session(list, &infos) {
        SessionStep::NeedInfo(sid) => assert_eq!(sid, "3"),
        _ => panic!("first session needed"),
    }
    infos.push(props("Class=user\nActive=no\nType=wayland\nUser=1000\nName=alice\n"));
    match graphical_session(list, &infos) {
        SessionStep::NeedInfo(sid) => assert_eq!(sid, "c1"),
        _ => panic!("second session needed"),
    }
    infos.push(props("Class=user\nActive=yes\nType=wayland\nUser=1001\nName=bob\n"));
    match graphical_session(list, &infos) {
        SessionStep::Done(Some((n, u))) => {
            assert_eq!(n, "bob");
            assert_eq!(u, 1001);
        }
        _ => panic!("session expected"),
    }
}

#[test]
fn graphical_session_stops_at_a_blank_line() {
    assert!(matches!(graphical_session("\n  3 1000 alice\n", &Vec::new()), SessionStep::Done(None)));
    assert!(matches!(graphical_session("", &Vec::new()), SessionStep::Done(None)));
}

#[test]
fn power_save_plans() {
    assert!(set_power_save(true, None).is_none());
    let p = set_power_save(true, Some(("alice", 1000))).unwrap();
    assert_eq!(p.program, "runuser");
    assert_eq!(p.args.last().unwrap(), "<1>");
    assert_eq!(p.args[3], "gdbus");
    assert_eq!(p.args[13], "PowerSaveMode");
    assert_eq!(p.timeout_secs, 5);
    let q = set_power_save(false, Some(("alice", 1000))).unwrap();
    assert_eq!(q.args.last().unwrap(), "<0>");
    let r = backlight_query("alice", 1000);
    assert_eq!(r.args.last().unwrap(), "Backlight");
}

#[test]
fn set_backlight_plan_and_retry() {
    let p = set_backlight_command("alice", 1000, 78, "DSI-1", 1234);
    let n = p.args.len();
    assert_eq!(&p.args[n - 3..], &["78".to_string(), "'DSI-1'".to_string(), "1234".to_string()]);
    assert_eq!(p.args[n - 4], "org.gnome.Mutter.DisplayConfig.SetBacklight");
    let neg = set_backlight_command("alice", 1000, 0, "DSI-1", -5);
    assert_eq!(neg.args.last().unwrap(), "-5");
    assert_eq!(set_compositor_backlight(1, BacklightAttempt::CallOk), Some(true));
    assert_eq!(set_compositor_backlight(1, BacklightAttempt::CallFailed), None);
    assert_eq!(set_compositor_backlight(2, BacklightAttempt::CallFailed), Some(false));
    assert_eq!(set_compositor_backlight(1, BacklightAttempt::NoSession), Some(false));
    assert_eq!(set_compositor_backlight(1, BacklightAttempt::NoTarget), Some(false));
}

#[test]
fn session_plans() {
    let l = list_sessions_plan();
    assert_eq!((l.program.as_str(), l.args.clone(), l.timeout_secs), ("loginctl", vec!["list-sessions".to_string(), "--no-legend".to_string()], 5));
    let s = show_session_plan("c2");
    assert_eq!(s.args, vec!["show-session".to_string(), "c2".to_string()]);
    let d = idle_dim_query("alice", 1000);
    assert_eq!(d.args.last().unwrap(), "idle-dim");
    assert_eq!(d.env[0].1, "/run/user/1000");
    let b = idle_brightness_query("alice", 1000);
    assert_eq!(b.args.last().unwrap(), "idle-brightness");
    assert_eq!(b.env[1].1, "unix:path=/run/user/1000/bus");
}

#[test]
fn session_plans_use_the_users_bus() {
    let p = set_power_save(true, Some(("alice", 1000))).unwrap();
    assert_eq!(p.env[0], ("XDG_RUNTIME_DIR".to_string(), "/run/user/1000".to_string()));
    assert_eq!(p.env[1], ("DBUS_SESSION_BUS_ADDRESS".to_string(), "unix:path=/run/user/1000/bus".to_string()));
    let q = set_backlight_command("bob", 1001, 1, "DSI-1", 100);
    assert_eq!(q.env[0].1, "/run/user/1001");
}
