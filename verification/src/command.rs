//! External commands: what to start, and what their completion means.
//!
//! A command runs in its own process group with no input and both outputs
//! captured. With a timeout of `secs > 0` seconds, a command still running
//! then has its whole process group killed and counts as failed; `secs == 0`
//! waits for ever.
use vstd::prelude::*;
use vstd::string::*;
use vstd::utf8::{decode_utf8, valid_utf8};
use crate::text;
use crate::text::{concat2, concat3, u64_to_string};

verus! {

/// How to start a command.
pub struct CmdPlan {
    /// The program to run.
    pub program: String,
    /// Its arguments.
    pub args: Vec<String>,
    /// Environment variables to set for it.
    pub env: Vec<(String, String)>,
    /// Seconds to wait for it before killing it; 0 waits for ever.
    pub timeout_secs: u64,
}

/// What a finished command left.
pub struct CmdResult {
    /// It exited with success.
    pub ok: bool,
    /// Its standard output.
    pub stdout: String,
    /// Its standard error.
    pub stderr: String,
}

/// How waiting for a command ended.
pub enum WaitOutcome {
    /// It exited, with this status and output.
    Exited { success: bool, stdout: Vec<u8>, stderr: Vec<u8> },
    /// The timeout passed first; its process group was killed.
    TimedOut,
    /// It could not be started, or waiting for it failed.
    Failed,
}

/// The views of a slice of string slices.
pub open spec fn str_views(v: Seq<&str>) -> Seq<Seq<char>> {
    v.map_values(|s: &str| s@)
}

/// The views of a sequence of strings.
pub open spec fn string_views(v: Seq<String>) -> Seq<Seq<char>> {
    v.map_values(|s: String| s@)
}

/// The views of a sequence of string pairs.
pub open spec fn pair_views(v: Seq<(String, String)>) -> Seq<(Seq<char>, Seq<char>)> {
    v.map_values(|p: (String, String)| (p.0@, p.1@))
}

/// A plan that runs `program` with `args` directly, with no extra
/// environment and a timeout of `secs` seconds.
pub open spec fn plain_plan(p: CmdPlan, program: Seq<char>, args: Seq<Seq<char>>, secs: u64) -> bool {
    &&& p.program@ == program
    &&& string_views(p.args@) == args
    &&& p.env@.len() == 0
    &&& p.timeout_secs == secs
}

/// The session directory of user `uid`.
pub open spec fn runtime_dir(uid: u32) -> Seq<char> {
    "/run/user/"@ + text::decimal(uid as nat)
}

/// Text that `String::from_utf8_lossy` makes of `bytes`.
pub uninterp spec fn utf8_lossy(bytes: Seq<u8>) -> Seq<char>;

/// `String::from_utf8_lossy`: the text of `bytes`, each invalid sequence
/// replaced by U+FFFD. Claimed: the result is a function of the bytes alone,
/// and valid UTF-8 decodes to exactly its characters.
#[verifier::external_body]
fn decode_lossy(bytes: &Vec<u8>) -> (s: String)
    ensures
        s@ == utf8_lossy(bytes@),
        valid_utf8(bytes@) ==> s@ == decode_utf8(bytes@),
{
    String::from_utf8_lossy(bytes).into_owned()
}

/// Runs `cmd` (program and arguments) with a timeout of `secs` seconds.
pub fn run_cmd(cmd: &[&str], secs: u64) -> (p: CmdPlan)
    requires
        cmd@.len() >= 1,
    ensures
        p.program@ == cmd@[0]@,
        string_views(p.args@) == str_views(cmd@).drop_first(),
        p.env@.len() == 0,
        p.timeout_secs == secs,
{
    let program = String::from_str(cmd[0]);
    let mut args: Vec<String> = Vec::new();
    let mut i: usize = 1;
    while i < cmd.len()
        invariant
            1 <= i <= cmd@.len(),
            string_views(args@) == str_views(cmd@).subrange(1, i as int),
        decreases cmd@.len() - i,
    {
        let a = String::from_str(cmd[i]);
        proof {
            assert(string_views(args@.push(a)) =~= string_views(args@).push(a@));
            assert(str_views(cmd@).subrange(1, i + 1) =~= str_views(cmd@).subrange(
                1,
                i as int,
            ).push(cmd@[i as int]@));
        }
        args.push(a);
        i += 1;
    }
    proof {
        assert(str_views(cmd@).subrange(1, cmd@.len() as int) =~= str_views(cmd@).drop_first());
    }
    CmdPlan { program, args, env: Vec::new(), timeout_secs: secs }
}

/// Runs `cmd` as the graphical user `user` (uid `uid`) through `runuser`,
/// with that user's session directory and D-Bus session bus, and a timeout
/// of `secs` seconds.
pub fn run_cmd_as_user(cmd: &[&str], user: &str, uid: u32, secs: u64) -> (p: CmdPlan)
    ensures
        p.program@ == "runuser"@,
        string_views(p.args@) == seq!["-u"@, user@, "--"@] + str_views(cmd@),
        pair_views(p.env@) == seq![
            ("XDG_RUNTIME_DIR"@, runtime_dir(uid)),
            ("DBUS_SESSION_BUS_ADDRESS"@, "unix:path="@ + runtime_dir(uid) + "/bus"@),
        ],
        p.timeout_secs == secs,
{
    let mut args: Vec<String> = Vec::new();
    args.push(String::from_str("-u"));
    args.push(String::from_str(user));
    args.push(String::from_str("--"));
    let ghost head = seq!["-u"@, user@, "--"@];
    assert(string_views(args@) =~= head);
    let mut i: usize = 0;
    while i < cmd.len()
        invariant
            i <= cmd@.len(),
            string_views(args@) == head + str_views(cmd@).take(i as int),
        decreases cmd@.len() - i,
    {
        let a = String::from_str(cmd[i]);
        proof {
            assert(string_views(args@.push(a)) =~= string_views(args@).push(a@));
            assert(str_views(cmd@).take(i + 1) =~= str_views(cmd@).take(i as int).push(
                cmd@[i as int]@,
            ));
            assert(head + str_views(cmd@).take(i + 1) =~= (head + str_views(cmd@).take(
                i as int,
            )).push(cmd@[i as int]@));
        }
        args.push(a);
        i += 1;
    }
    assert(str_views(cmd@).take(cmd@.len() as int) =~= str_views(cmd@));
    let uid_s = u64_to_string(uid as u64);
    let dir = concat2("/run/user/", uid_s.as_str());
    let bus = concat3("unix:path=", dir.as_str(), "/bus");
    let mut env: Vec<(String, String)> = Vec::new();
    env.push((String::from_str("XDG_RUNTIME_DIR"), dir));
    env.push((String::from_str("DBUS_SESSION_BUS_ADDRESS"), bus));
    assert(pair_views(env@) =~= seq![
        ("XDG_RUNTIME_DIR"@, runtime_dir(uid)),
        ("DBUS_SESSION_BUS_ADDRESS"@, "unix:path="@ + runtime_dir(uid) + "/bus"@),
    ]);
    CmdPlan { program: String::from_str("runuser"), args, env, timeout_secs: secs }
}

/// The report of a command killed after `secs` seconds.
pub open spec fn timeout_message(secs: u64) -> Seq<char> {
    "timed out after "@ + text::decimal(secs as nat) + " s and was killed"@
}

/// What a command run with a timeout of `secs` seconds leaves, from how
/// waiting for it ended: its status and decoded output when it exited, a
/// failure reporting the timeout when it was killed, and nothing when it
/// could not be run.
pub fn command_result(secs: u64, outcome: WaitOutcome) -> (r: Option<CmdResult>)
    requires
        outcome is TimedOut ==> secs > 0,
    ensures
        (match outcome {
            WaitOutcome::Exited { success, stdout, stderr } => r matches Some(res) && res.ok
                == success && res.stdout@ == utf8_lossy(stdout@) && res.stderr@ == utf8_lossy(
                stderr@,
            ) && (valid_utf8(stdout@) ==> res.stdout@ == decode_utf8(stdout@)) && (valid_utf8(
                stderr@,
            ) ==> res.stderr@ == decode_utf8(stderr@)),
            WaitOutcome::TimedOut => r matches Some(res) && !res.ok && res.stdout@.len() == 0
                && res.stderr@ == timeout_message(secs),
            WaitOutcome::Failed => r is None,
        }),
{
    match outcome {
        WaitOutcome::Exited { success, stdout, stderr } => {
            Some(
                CmdResult {
                    ok: success,
                    stdout: decode_lossy(&stdout),
                    stderr: decode_lossy(&stderr),
                },
            )
        },
        WaitOutcome::TimedOut => {
            let n = u64_to_string(secs);
            Some(
                CmdResult {
                    ok: false,
                    stdout: String::new(),
                    stderr: concat3("timed out after ", n.as_str(), " s and was killed"),
                },
            )
        },
        WaitOutcome::Failed => None,
    }
}

/// Runs `systemctl suspend` and waits for the system to come back.
pub fn suspend_plan() -> (p: CmdPlan)
    ensures
        plain_plan(p, "systemctl"@, seq!["suspend"@], 0),
{
    let cmd = vec!["systemctl", "suspend"];
    let p = run_cmd(cmd.as_slice(), 0);
    assert(str_views(cmd@).drop_first() =~= seq!["suspend"@]);
    p
}

} // verus!
