//! Commands: the daemon starts the process that a plan describes and hands
//! back how waiting for it ended; these tests hand in what `echo` and a
//! killed `sleep` leave.
use nabu_power::command::{command_result, run_cmd, run_cmd_as_user, suspend_plan, WaitOutcome};
use std::time::Instant;

#[test]
fn run_cmd_completes_normally() {
    let plan = run_cmd(&["echo", "hi"], 5);
    assert_eq!(plan.program, "echo");
    assert_eq!(plan.args, vec!["hi".to_string()]);
    assert_eq!(plan.timeout_secs, 5);
    let outcome = WaitOutcome::Exited { success: true, stdout: b"hi\n".to_vec(), stderr: Vec::new() };
    let res = command_result(plan.timeout_secs, outcome).expect("command should run");
    assert!(res.ok);
    assert_eq!(res.stdout.trim(), "hi");
}

#[test]
fn run_cmd_timeout_kills_hung_command() {
    let t0 = Instant::now();
    let plan = run_cmd(&["sleep", "10"], 1);
    assert_eq!(plan.timeout_secs, 1);
    let res = command_result(plan.timeout_secs, WaitOutcome::TimedOut).expect("command should run");
    assert!(!res.ok, "timed-out command must report failure");
    assert!(
        t0.elapsed().as_secs() < 3,
        "timeout should fire before the command finishes"
    );
    assert!(res.stderr.contains("timed out"), "stderr: {}", res.stderr);
    assert_eq!(res.stderr, "timed out after 1 s and was killed");
    assert_eq!(res.stdout, "");
}

#[test]
fn run_cmd_without_timeout_waits() {
    let plan = run_cmd(&["systemctl", "suspend"], 0);
    assert_eq!(plan.program, "systemctl");
    assert_eq!(plan.args, vec!["suspend".to_string()]);
    assert!(plan.env.is_empty());
    assert_eq!(plan.timeout_secs, 0);
}

#[test]
fn failed_start_leaves_no_result() {
    assert!(command_result(5, WaitOutcome::Failed).is_none());
}

#[test]
fn failed_exit_keeps_its_output() {
    let outcome = WaitOutcome::Exited {
        success: false,
        stdout: Vec::new(),
        stderr: b"Error: no such method\n".to_vec(),
    };
    let res = command_result(5, outcome).unwrap();
    assert!(!res.ok);
    assert_eq!(res.stderr, "Error: no such method\n");
}

#[test]
fn invalid_utf8_output_is_replaced() {
    let outcome = WaitOutcome::Exited { success: true, stdout: vec![b'a', 0xff, b'b'], stderr: Vec::new() };
    let res = command_result(5, outcome).unwrap();
    assert_eq!(res.stdout, "a\u{FFFD}b");
}

#[test]
fn timeout_message_names_the_seconds() {
    let res = command_result(12, WaitOutcome::TimedOut).unwrap();
    assert_eq!(res.stderr, "timed out after 12 s and was killed");
}

#[test]
fn run_as_user_goes_through_runuser_with_session_bus() {
    let plan = run_cmd_as_user(&["gsettings", "get", "a", "b"], "alice", 1000, 5);
    assert_eq!(plan.program, "runuser");
    assert_eq!(
        plan.args,
        vec!["-u", "alice", "--", "gsettings", "get", "a", "b"]
            .into_iter()
            .map(String::from)
            .collect::<Vec<_>>()
    );
    assert_eq!(
        plan.env,
        vec![
            ("XDG_RUNTIME_DIR".to_string(), "/run/user/1000".to_string()),
            ("DBUS_SESSION_BUS_ADDRESS".to_string(), "unix:path=/run/user/1000/bus".to_string()),
        ]
    );
    assert_eq!(plan.timeout_secs, 5);
}

#[test]
fn suspend_waits_without_timeout() {
    let p = suspend_plan();
    assert_eq!(p.program, "systemctl");
    assert_eq!(p.args, vec!["suspend".to_string()]);
    assert_eq!(p.timeout_secs, 0);
}
