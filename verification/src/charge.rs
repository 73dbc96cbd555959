//! Battery-threshold charging control for the LN8000 charger chip.
//!
//! Above the stop threshold charging is stopped, below the start threshold
//! (with power connected) it is allowed, and in between the chip is left as
//! it is. Charging is switched through two bits of the chip's `SYS_CTRL`
//! register, STANDBY_EN (bit 3) and EN_1TO1 (bit 0); no other bit changes.
use vstd::prelude::*;
use vstd::string::*;
use crate::args::{Options, OptionsView};
use crate::text;
use crate::text::{concat2, str_eq};

verus! {

/// `SYS_CTRL` bit 3: the chip stands by and does not charge.
pub const STANDBY_BIT: u8 = 0x08;

/// `SYS_CTRL` bit 0: 1:1 bypass charging.
pub const EN1TO1_BIT: u8 = 0x01;

/// The `SYS_CTRL` bits that charging control writes.
pub const CTRL_MASK: u8 = 0x09;

/// Register address of the chip identifier.
pub const REG_DEVICE_ID: u8 = 0x00;

/// Register address of `SYS_STS`.
pub const REG_SYS_STS: u8 = 0x03;

/// Register address of `SYS_CTRL`.
pub const REG_SYS_CTRL: u8 = 0x1E;

/// The identifier an LN8000 reports.
pub const EXPECTED_DEVICE_ID: u8 = 0x42;

/// The settings the controller runs with.
pub struct Config {
    pub stop: i32,
    pub start: i32,
    pub interval_secs: u64,
    pub watch_interval_secs: u64,
    pub battery: String,
    pub charger_psy: String,
    pub i2c_dev: String,
    pub i2c_addr: u16,
    pub once: bool,
    pub status: bool,
    pub dry_run: bool,
    pub no_restore_on_exit: bool,
    pub verbose: bool,
}

impl Config {
    /// The settings given by `opts`, with the battery directory `battery`.
    pub fn new(opts: Options, battery: String) -> (c: Config)
        ensures
            c.stop == opts.stop,
            c.start == opts.start,
            c.interval_secs == opts.interval_secs,
            c.watch_interval_secs == opts.watch_interval_secs,
            c.battery@ == battery@,
            c.charger_psy@ == opts.charger_psy@,
            c.i2c_dev@ == opts.i2c_dev@,
            c.i2c_addr == opts.i2c_addr,
            c.once == opts.once,
            c.status == opts.status,
            c.dry_run == opts.dry_run,
            c.no_restore_on_exit == opts.no_restore_on_exit,
            c.verbose == opts.verbose,
    {
        Config {
            stop: opts.stop,
            start: opts.start,
            interval_secs: opts.interval_secs,
            watch_interval_secs: opts.watch_interval_secs,
            battery,
            charger_psy: opts.charger_psy,
            i2c_dev: opts.i2c_dev,
            i2c_addr: opts.i2c_addr,
            once: opts.once,
            status: opts.status,
            dry_run: opts.dry_run,
            no_restore_on_exit: opts.no_restore_on_exit,
            verbose: opts.verbose,
        }
    }
}

/// What to do with charging.
#[derive(Clone, Copy, Debug, PartialEq, Eq, Structural)]
pub enum Action {
    /// Stop charging.
    Stop,
    /// Allow charging.
    Allow,
}

// ---------------------------------------------------------------------------
// Deciding.
// ---------------------------------------------------------------------------

/// The threshold rule: stop above `stop`, allow below `start` when power is
/// connected, otherwise leave the chip alone.
pub open spec fn decide_spec(stop: int, start: int, cap: int, power_ok: bool) -> Option<Action> {
    if cap > stop {
        Some(Action::Stop)
    } else if cap < start && power_ok {
        Some(Action::Allow)
    } else {
        None
    }
}

/// What to do at battery level `cap`.
pub fn decide(cfg: &Config, cap: i32, power_ok: bool) -> (r: Option<Action>)
    ensures
        r == decide_spec(cfg.stop as int, cfg.start as int, cap as int, power_ok),
{
    if cap > cfg.stop {
        Some(Action::Stop)
    } else if cap < cfg.start && power_ok {
        Some(Action::Allow)
    } else {
        None
    }
}

/// The thresholds: above `stop` charging is always stopped; at or below
/// `stop`, below `start` with power connected it is always allowed; and
/// otherwise nothing is changed. Lowering the level never turns an allow
/// into anything else, and raising it never turns a stop into anything else.
pub proof fn lemma_thresholds(stop: int, start: int, cap: int, power_ok: bool)
    ensures
        cap > stop ==> decide_spec(stop, start, cap, power_ok) == Some(Action::Stop),
        cap <= stop && cap < start && power_ok ==> decide_spec(stop, start, cap, power_ok) == Some(
            Action::Allow,
        ),
        cap <= stop && !(cap < start && power_ok) ==> decide_spec(stop, start, cap, power_ok)
            is None,
        decide_spec(stop, start, cap, power_ok) == Some(Action::Allow) ==> power_ok && cap < start,
        forall|lower: int|
            lower <= cap && decide_spec(stop, start, cap, power_ok) == Some(Action::Allow)
                ==> #[trigger] decide_spec(stop, start, lower, power_ok) == Some(Action::Allow),
        forall|higher: int|
            higher >= cap && decide_spec(stop, start, cap, power_ok) == Some(Action::Stop)
                ==> #[trigger] decide_spec(stop, start, higher, power_ok) == Some(Action::Stop),
{
}

/// The control bits that `action` asks for.
pub open spec fn ctrl_pattern(action: Action) -> u8 {
    match action {
        Action::Stop => STANDBY_BIT,
        Action::Allow => 0,
    }
}

/// `new` is `cur` with the control bits set to `pattern` and every other bit
/// kept.
pub open spec fn ctrl_with(cur: u8, new: u8, pattern: u8) -> bool {
    &&& new & !CTRL_MASK == cur & !CTRL_MASK
    &&& new & CTRL_MASK == pattern
}

/// The `SYS_CTRL` value that carries out `action` from the value `cur`.
pub fn desired_ctrl(cur: u8, action: Action) -> (r: u8)
    ensures
        ctrl_with(cur, r, ctrl_pattern(action)),
{
    match action {
        Action::Stop => {
            let r = (cur & !CTRL_MASK) | STANDBY_BIT;
            assert(((cur & !9u8) | 8u8) & !9u8 == cur & !9u8 && ((cur & !9u8) | 8u8) & 9u8 == 8u8)
                by (bit_vector);
            r
        },
        Action::Allow => {
            let r = cur & !CTRL_MASK;
            assert((cur & !9u8) & !9u8 == cur & !9u8 && (cur & !9u8) & 9u8 == 0u8) by (bit_vector);
            r
        },
    }
}

/// The `SYS_CTRL` value that enables (`enabled`) or disables charging from
/// the value `cur`, and whether it differs from `cur`, so that it must be
/// written.
pub fn set_charging(cur: u8, enabled: bool) -> (r: (u8, bool))
    ensures
        ctrl_with(cur, r.0, if enabled { 0 } else { STANDBY_BIT }),
        r.1 == (r.0 != cur),
{
    let new = if enabled {
        cur & !CTRL_MASK
    } else {
        (cur & !CTRL_MASK) | STANDBY_BIT
    };
    assert(((cur & !9u8) | 8u8) & !9u8 == cur & !9u8 && ((cur & !9u8) | 8u8) & 9u8 == 8u8) by (
    bit_vector);
    assert((cur & !9u8) & !9u8 == cur & !9u8 && (cur & !9u8) & 9u8 == 0u8) by (bit_vector);
    (new, new != cur)
}

/// Whether the chip at the configured address is an LN8000: its identifier
/// register could be read and reads `EXPECTED_DEVICE_ID`.
pub fn device_ok(id: Option<u8>) -> (r: bool)
    ensures
        r == (id == Some(EXPECTED_DEVICE_ID)),
{
    match id {
        Some(v) => v == EXPECTED_DEVICE_ID,
        None => false,
    }
}

/// Whether `SYS_CTRL` has STANDBY_EN set, that is charging is stopped.
pub fn standby_set(ctrl: u8) -> (r: bool)
    ensures
        r == (ctrl & STANDBY_BIT != 0),
{
    ctrl & STANDBY_BIT != 0
}

/// The name of the mode that `SYS_STS` reports.
pub open spec fn mode_name_spec(sys_sts: u8) -> Seq<char> {
    if sys_sts & 0x08 != 0 {
        "bypass"@
    } else if sys_sts & 0x04 != 0 {
        "switching(充电)"@
    } else if sys_sts & 0x02 != 0 {
        "standby(停止)"@
    } else if sys_sts & 0x01 != 0 {
        "shutdown"@
    } else {
        "unknown"@
    }
}

/// The name of the mode that `SYS_STS` reports.
pub fn mode_name(sys_sts: u8) -> (r: &'static str)
    ensures
        r@ == mode_name_spec(sys_sts),
{
    if sys_sts & 0x08 != 0 {
        "bypass"
    } else if sys_sts & 0x04 != 0 {
        "switching(充电)"
    } else if sys_sts & 0x02 != 0 {
        "standby(停止)"
    } else if sys_sts & 0x01 != 0 {
        "shutdown"
    } else {
        "unknown"
    }
}

// ---------------------------------------------------------------------------
// Enforcing.
// ---------------------------------------------------------------------------

/// The first step of enforcing the threshold rule.
#[derive(Debug, PartialEq, Eq, Structural)]
pub enum EnforcePlan {
    /// The level is between the thresholds: leave the chip alone.
    Hold,
    /// Charging should be allowed but no power is connected.
    SkipNoPower,
    /// Read `SYS_CTRL` and carry out the action.
    ReadCtrl(Action),
}

/// The second step, once `SYS_CTRL` is known.
#[derive(Debug, PartialEq, Eq, Structural)]
pub enum EnforceResult {
    /// The register already carries out the action.
    AlreadySet,
    /// A dry run: report the value that would be written.
    DryRun(u8),
    /// Write this value to `SYS_CTRL`.
    Write(u8),
}

/// Starts enforcing the threshold rule at battery level `cap`.
pub fn enforce(cfg: &Config, cap: i32, power_ok: bool) -> (r: EnforcePlan)
    ensures
        r == (match decide_spec(cfg.stop as int, cfg.start as int, cap as int, power_ok) {
            None => EnforcePlan::Hold,
            Some(a) => if a == Action::Allow && !power_ok {
                EnforcePlan::SkipNoPower
            } else {
                EnforcePlan::ReadCtrl(a)
            },
        }),
{
    match decide(cfg, cap, power_ok) {
        None => EnforcePlan::Hold,
        Some(a) => {
            if a == Action::Allow && !power_ok {
                EnforcePlan::SkipNoPower
            } else {
                EnforcePlan::ReadCtrl(a)
            }
        },
    }
}

/// Finishes enforcing `action` once `SYS_CTRL` reads `cur`: nothing to do
/// when the register already carries it out, a report in a dry run, and
/// otherwise the value to write.
pub fn enforce_with_ctrl(cfg: &Config, action: Action, cur: u8) -> (r: EnforceResult)
    ensures
        r matches EnforceResult::AlreadySet ==> ctrl_with(cur, cur, ctrl_pattern(action)),
        r matches EnforceResult::DryRun(new) ==> cfg.dry_run && new != cur && ctrl_with(
            cur,
            new,
            ctrl_pattern(action),
        ),
        r matches EnforceResult::Write(new) ==> !cfg.dry_run && new != cur && ctrl_with(
            cur,
            new,
            ctrl_pattern(action),
        ),
        ctrl_with(cur, cur, ctrl_pattern(action)) ==> r == EnforceResult::AlreadySet,
{
    let new = desired_ctrl(cur, action);
    proof {
        lemma_ctrl_with_unique(cur, new, cur, ctrl_pattern(action));
    }
    if new == cur {
        EnforceResult::AlreadySet
    } else if cfg.dry_run {
        EnforceResult::DryRun(new)
    } else {
        EnforceResult::Write(new)
    }
}

/// What the monitoring loop does in one round.
#[derive(Debug, PartialEq, Eq, Structural)]
pub struct MonitorStep {
    /// Power was connected or disconnected since the last round: enforce
    /// the rule now.
    pub power_changed: bool,
    /// The regular battery check is due.
    pub check_capacity: bool,
}

/// One round of the monitoring loop. `last_power` is the power state seen
/// in the previous round (none in the first), `check_due` whether no check
/// was made yet or the check interval has elapsed since the last one. A
/// change of the power state enforces the rule at once and restarts the
/// interval, so that no regular check follows in the same round.
pub fn monitor_step(last_power: Option<bool>, power_ok: bool, check_due: bool) -> (r:
    MonitorStep)
    ensures
        r.power_changed == (last_power == Some(!power_ok)),
        r.check_capacity == (!r.power_changed && check_due),
{
    let changed = match last_power {
        Some(last) => last != power_ok,
        None => false,
    };
    MonitorStep { power_changed: changed, check_capacity: !changed && check_due }
}

/// What to do with charging when the controller is told to stop.
#[derive(Debug, PartialEq, Eq, Structural)]
pub enum ExitAction {
    /// Leave the chip as it is.
    Keep,
    /// No power is connected: leave the chip alone.
    NoPower,
    /// Allow charging again.
    Restore,
}

/// On exit, charging is allowed again where power is connected, unless the
/// configuration says to keep the current state.
pub fn restore_charging(cfg: &Config, power_ok: bool) -> (r: ExitAction)
    ensures
        cfg.no_restore_on_exit ==> r == ExitAction::Keep,
        !cfg.no_restore_on_exit ==> r == (if power_ok {
            ExitAction::Restore
        } else {
            ExitAction::NoPower
        }),
{
    if cfg.no_restore_on_exit {
        ExitAction::Keep
    } else if power_ok {
        ExitAction::Restore
    } else {
        ExitAction::NoPower
    }
}

// ---------------------------------------------------------------------------
// Power supplies.
// ---------------------------------------------------------------------------

/// What sysfs shows of one power supply.
pub struct PowerSupply {
    /// The directory name under `/sys/class/power_supply`.
    pub name: String,
    /// The trimmed content of its `type` file, if it could be read.
    pub kind: Option<String>,
    /// The trimmed content of its `online` file, if it could be read.
    pub online: Option<String>,
    /// Whether it has a `capacity` file.
    pub has_capacity: bool,
}

/// `PowerSupply` as plain values.
pub struct PowerSupplyView {
    pub name: Seq<char>,
    pub kind: Option<Seq<char>>,
    pub online: Option<Seq<char>>,
    pub has_capacity: bool,
}

impl View for PowerSupply {
    type V = PowerSupplyView;

    open spec fn view(&self) -> PowerSupplyView {
        PowerSupplyView {
            name: self.name@,
            kind: opt_view(self.kind),
            online: opt_view(self.online),
            has_capacity: self.has_capacity,
        }
    }
}

/// The view of an optional string.
pub open spec fn opt_view(s: Option<String>) -> Option<Seq<char>> {
    match s {
        Some(x) => Some(x@),
        None => None,
    }
}

/// The views of a list of power supplies.
pub open spec fn supply_views(v: Seq<PowerSupply>) -> Seq<PowerSupplyView> {
    v.map_values(|p: PowerSupply| p@)
}

/// The sysfs directory of the power supply `name`.
pub open spec fn supply_path(name: Seq<char>) -> Seq<char> {
    "/sys/class/power_supply/"@ + name
}

/// A battery node with a capacity reading.
pub open spec fn is_battery(p: PowerSupplyView) -> bool {
    p.kind == Some("Battery"@) && p.has_capacity
}

/// An external power source that is online.
pub open spec fn is_online_source(p: PowerSupplyView) -> bool {
    (p.kind == Some("USB"@) || p.kind == Some("Mains"@)) && p.online == Some("1"@)
}

/// Whether an optional string reads `lit`.
fn opt_is(s: &Option<String>, lit: &str) -> (r: bool)
    ensures
        r == (opt_view(*s) == Some(lit@)),
{
    match s {
        Some(x) => str_eq(x.as_str(), lit),
        None => false,
    }
}

#[verifier::loop_isolation(false)]
/// The battery directory to read: the one given, if it has a capacity
/// reading, or else the first battery among `entries` (the power supplies
/// in name order, or why they could not be listed).
pub fn find_battery(
    explicit: Option<&str>,
    explicit_has_capacity: bool,
    entries: &Result<Vec<PowerSupply>, String>,
) -> (r: Result<String, String>)
    ensures
        explicit matches Some(p) ==> (if explicit_has_capacity {
            (r matches Ok(path) && path@ == p@)
        } else {
            (r matches Err(e) && e@ == "电池路径不存在: "@ + p@)
        }),
        explicit is None && entries is Err ==> (r matches Err(e) && e@ == entries->Err_0@),
        explicit is None && entries is Ok ==> {
            let es = supply_views(entries->Ok_0@);
            &&& r matches Ok(path) ==> exists|i: int|
                0 <= i < es.len() && is_battery(es[i]) && (forall|j: int|
                    0 <= j < i ==> !is_battery(#[trigger] es[j])) && path@ == supply_path(es[i].name)
            &&& r matches Err(e) ==> (forall|i: int|
                0 <= i < es.len() ==> !is_battery(#[trigger] es[i])) && e@
                == "未找到电池节点，请用 --battery 指定"@
            &&& (exists|i: int| 0 <= i < es.len() && is_battery(es[i])) ==> r is Ok
        },
{
    if let Some(p) = explicit {
        if explicit_has_capacity {
            return Ok(String::from_str(p));
        }
        return Err(concat2("电池路径不存在: ", p));
    }
    let es = match entries {
        Ok(es) => es,
        Err(e) => {
            return Err(e.clone());
        },
    };
    let ghost ev = supply_views(es@);
    let mut i: usize = 0;
    while i < es.len()
        invariant
            i <= es.len(),
            ev == supply_views(es@),
            forall|j: int| 0 <= j < i ==> !is_battery(#[trigger] ev[j]),
        decreases es.len() - i,
    {
        let e = &es[i];
        assert(ev[i as int] == e@);
        if opt_is(&e.kind, "Battery") && e.has_capacity {
            return Ok(concat2("/sys/class/power_supply/", e.name.as_str()));
        }
        i += 1;
    }
    Err(String::from_str("未找到电池节点，请用 --battery 指定"))
}

/// The battery level in percent that the trimmed content of the `capacity`
/// file gives, or -1 when it could not be read or is no integer.
pub fn read_capacity(content: Option<&str>) -> (r: i32)
    ensures
        content matches Some(s) ==> (match text::parse_signed(s@, i32::MAX as int) {
            Some(v) => r == v,
            None => r == -1,
        }),
        content is None ==> r == -1,
{
    match content {
        Some(s) => {
            let v = text::chars_of(s);
            match text::parse_i32_of(&v) {
                Some(n) => n,
                None => -1,
            }
        },
        None => -1,
    }
}

#[verifier::loop_isolation(false)]
/// Whether external power is connected, and where that was seen: the
/// charger's `present` reading (`charger_present`, trimmed) first, else the
/// first USB or Mains supply among `entries` that is online.
pub fn power_available(
    charger_present: Option<&str>,
    charger_psy: &str,
    entries: &Result<Vec<PowerSupply>, String>,
) -> (r: (bool, String))
    ensures
        (charger_present matches Some(s) && s@ == "1"@) ==> r.0 && r.1@ == charger_psy@
            + " present=1"@,
        !(charger_present matches Some(s) && s@ == "1"@) ==> (match entries {
            Err(_) => !r.0 && r.1@ == "无电源接入"@,
            Ok(es) => {
                let ev = supply_views(es@);
                &&& r.0 ==> exists|i: int|
                    0 <= i < ev.len() && is_online_source(ev[i]) && (forall|j: int|
                        0 <= j < i ==> !is_online_source(#[trigger] ev[j])) && r.1@ == supply_path(
                        ev[i].name,
                    ) + " online=1"@
                &&& !r.0 ==> (forall|i: int|
                    0 <= i < ev.len() ==> !is_online_source(#[trigger] ev[i])) && r.1@
                    == "无电源接入"@
            },
        }),
{
    if let Some(s) = charger_present {
        if str_eq(s, "1") {
            return (true, concat2(charger_psy, " present=1"));
        }
    }
    if let Ok(es) = entries {
        let ghost ev = supply_views(es@);
        let mut i: usize = 0;
        while i < es.len()
            invariant
                i <= es.len(),
                ev == supply_views(es@),
                forall|j: int| 0 <= j < i ==> !is_online_source(#[trigger] ev[j]),
            decreases es.len() - i,
        {
            let e = &es[i];
            assert(ev[i as int] == e@);
            if (opt_is(&e.kind, "USB") || opt_is(&e.kind, "Mains")) && opt_is(&e.online, "1") {
                let path = concat2("/sys/class/power_supply/", e.name.as_str());
                return (true, concat2(path.as_str(), " online=1"));
            }
            i += 1;
        }
    }
    (false, String::from_str("无电源接入"))
}

// ---------------------------------------------------------------------------
// Laws.
// ---------------------------------------------------------------------------

/// Two register values with the same non-control bits and the same control
/// bits are the same value.
pub proof fn lemma_ctrl_with_unique(cur: u8, a: u8, b: u8, pattern: u8)
    requires
        ctrl_with(cur, a, pattern),
    ensures
        ctrl_with(cur, b, pattern) <==> a == b,
{
    assert(a & !9u8 == cur & !9u8 && a & 9u8 == pattern && b & !9u8 == cur & !9u8 && b & 9u8
        == pattern ==> a == b) by (bit_vector);
}

/// Carrying out an action leaves every bit of `SYS_CTRL` but STANDBY_EN and
/// EN_1TO1 as it was; stopping sets STANDBY_EN and clears EN_1TO1, allowing
/// clears both.
pub proof fn lemma_only_control_bits_change(cur: u8, new: u8, action: Action)
    requires
        ctrl_with(cur, new, ctrl_pattern(action)),
    ensures
        forall|k: u8| #![auto] k < 8 && k != 0 && k != 3 ==> (new >> k) & 1 == (cur >> k) & 1,
        action == Action::Stop ==> new & STANDBY_BIT != 0 && new & EN1TO1_BIT == 0,
        action == Action::Allow ==> new & STANDBY_BIT == 0 && new & EN1TO1_BIT == 0,
{
    let p = ctrl_pattern(action);
    assert(forall|k: u8|
        #![auto]
        new & !9u8 == cur & !9u8 && k < 8 && k != 0 && k != 3 ==> (new >> k) & 1 == (cur >> k) & 1)
        by (bit_vector);
    assert(new & 9u8 == 8u8 ==> new & 8u8 != 0 && new & 1u8 == 0) by (bit_vector);
    assert(new & 9u8 == 0u8 ==> new & 8u8 == 0 && new & 1u8 == 0) by (bit_vector);
}

/// Carrying out an action twice is carrying it out once: once the register
/// holds the wanted value, enforcing the same action writes nothing.
pub proof fn lemma_ctrl_idempotent(cur: u8, new: u8, again: u8, action: Action)
    requires
        ctrl_with(cur, new, ctrl_pattern(action)),
        ctrl_with(new, again, ctrl_pattern(action)),
    ensures
        again == new,
        ctrl_with(new, new, ctrl_pattern(action)),
{
    let p = ctrl_pattern(action);
    assert(new & !9u8 == cur & !9u8 && new & 9u8 == p && again & !9u8 == new & !9u8 && again & 9u8
        == p ==> again == new) by (bit_vector);
}

/// Enabling charging on exit writes what allowing charging writes, and
/// disabling it what stopping writes.
pub proof fn lemma_set_charging_is_action(cur: u8, enabled: bool, new: u8)
    ensures
        ctrl_with(cur, new, if enabled { 0 } else { STANDBY_BIT }) <==> ctrl_with(
            cur,
            new,
            ctrl_pattern(if enabled { Action::Allow } else { Action::Stop }),
        ),
{
}

/// Between the thresholds nothing is done, so the chip keeps whatever state
/// it is in; above the stop threshold charging is always stopped, whatever
/// the power state; charging is never allowed without power.
pub proof fn lemma_threshold_band(stop: int, start: int, cap: int, power_ok: bool)
    requires
        start < stop,
    ensures
        start <= cap <= stop ==> decide_spec(stop, start, cap, power_ok) is None,
        cap > stop ==> decide_spec(stop, start, cap, power_ok) == Some(Action::Stop),
        decide_spec(stop, start, cap, power_ok) == Some(Action::Allow) ==> power_ok && cap < start,
{
}

/// Every option set that the command line is accepted with has its stop
/// threshold above its start threshold, both within 0 to 100, a check
/// interval of at least 5 seconds and a watch interval of at least 1.
pub proof fn lemma_accepted_options_valid(args: Seq<Seq<char>>)
    ensures
        crate::args::parse_args_spec(args) matches crate::args::ArgsVerdict::Run(o) ==> {
            &&& 0 <= o.start < o.stop <= 100
            &&& o.interval_secs >= 5
            &&& o.watch_interval_secs >= 1
        },
{
    lemma_scan_valid(args, 0, crate::args::default_options());
}

proof fn lemma_scan_valid(args: Seq<Seq<char>>, i: int, o: OptionsView)
    ensures
        crate::args::scan(args, i, o) matches crate::args::ArgsVerdict::Run(r) ==> {
            &&& 0 <= r.start < r.stop <= 100
            &&& r.interval_secs >= 5
            &&& r.watch_interval_secs >= 1
        },
    decreases args.len() - i,
{
    if 0 <= i < args.len() {
        let a = args[i];
        if a == "--stop"@ || a == "--start"@ || a == "--interval"@ || a == "--watch-interval"@ {
            if i + 1 < args.len() {
                match text::parse_signed(args[i + 1], i32::MAX as int) {
                    Some(n) => {
                        let o2 = if a == "--stop"@ {
                            OptionsView { stop: n, ..o }
                        } else if a == "--start"@ {
                            OptionsView { start: n, ..o }
                        } else if a == "--interval"@ {
                            OptionsView { interval_secs: n, ..o }
                        } else {
                            OptionsView { watch_interval_secs: n, ..o }
                        };
                        lemma_scan_valid(args, i + 2, o2);
                    },
                    None => {},
                }
            }
        } else if a == "--battery"@ || a == "--charger-psy"@ || a == "--i2c-dev"@ {
            if i + 1 < args.len() {
                let v = args[i + 1];
                let o2 = if a == "--battery"@ {
                    OptionsView { battery: Some(v), ..o }
                } else if a == "--charger-psy"@ {
                    OptionsView { charger_psy: v, ..o }
                } else {
                    OptionsView { i2c_dev: v, ..o }
                };
                lemma_scan_valid(args, i + 2, o2);
            }
        } else if a == "--i2c-addr"@ {
            if i + 1 < args.len() {
                match crate::args::parse_addr_spec(args[i + 1]) {
                    Some(n) => lemma_scan_valid(args, i + 2, OptionsView { i2c_addr: n, ..o }),
                    None => {},
                }
            }
        } else if a == "--once"@ {
            lemma_scan_valid(args, i + 1, OptionsView { once: true, ..o });
        } else if a == "--status"@ {
            lemma_scan_valid(args, i + 1, OptionsView { status: true, ..o });
        } else if a == "--dry-run"@ {
            lemma_scan_valid(args, i + 1, OptionsView { dry_run: true, ..o });
        } else if a == "--no-restore-on-exit"@ {
            lemma_scan_valid(args, i + 1, OptionsView { no_restore_on_exit: true, ..o });
        } else if a == "--verbose"@ {
            lemma_scan_valid(args, i + 1, OptionsView { verbose: true, ..o });
        }
    }
}

} // verus!
