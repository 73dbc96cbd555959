//! Command-line options of the charging controller.
//!
//! The arguments are read left to right; `-h`/`--help` wins as soon as it is
//! met, the first malformed option is reported, and the thresholds and
//! intervals are validated once every option has been read.
use vstd::prelude::*;
use vstd::string::*;
use crate::text;
use crate::text::{
    chars_of, concat2, concat3, concat4, has_prefix, parse_i32_of, parse_unsigned_at,
    parse_unsigned_of, str_eq,
};

verus! {

/// Default I2C address of the LN8000 charger chip.
pub const LN8000_ADDR: u16 = 0x51;

/// The options of the charging controller as given on the command line.
pub struct Options {
    pub stop: i32,
    pub start: i32,
    pub interval_secs: u64,
    pub watch_interval_secs: u64,
    pub battery: Option<String>,
    pub charger_psy: String,
    pub i2c_dev: String,
    pub i2c_addr: u16,
    pub once: bool,
    pub status: bool,
    pub dry_run: bool,
    pub no_restore_on_exit: bool,
    pub verbose: bool,
}

/// `Options` as plain values.
pub struct OptionsView {
    pub stop: int,
    pub start: int,
    pub interval_secs: int,
    pub watch_interval_secs: int,
    pub battery: Option<Seq<char>>,
    pub charger_psy: Seq<char>,
    pub i2c_dev: Seq<char>,
    pub i2c_addr: int,
    pub once: bool,
    pub status: bool,
    pub dry_run: bool,
    pub no_restore_on_exit: bool,
    pub verbose: bool,
}

impl View for Options {
    type V = OptionsView;

    open spec fn view(&self) -> OptionsView {
        OptionsView {
            stop: self.stop as int,
            start: self.start as int,
            interval_secs: self.interval_secs as int,
            watch_interval_secs: self.watch_interval_secs as int,
            battery: match self.battery {
                Some(b) => Some(b@),
                None => None,
            },
            charger_psy: self.charger_psy@,
            i2c_dev: self.i2c_dev@,
            i2c_addr: self.i2c_addr as int,
            once: self.once,
            status: self.status,
            dry_run: self.dry_run,
            no_restore_on_exit: self.no_restore_on_exit,
            verbose: self.verbose,
        }
    }
}

/// What the command line asks for.
pub enum ArgsOutcome {
    /// Print the usage text and leave.
    Help,
    /// Run with these options.
    Run(Options),
}

/// What the command line asks for, or why it is refused.
pub enum ArgsVerdict {
    Help,
    Refused(Seq<char>),
    Run(OptionsView),
}

/// The views of a sequence of strings.
pub open spec fn string_views(v: Seq<String>) -> Seq<Seq<char>> {
    v.map_values(|s: String| s@)
}

/// The options in force when none is given.
pub open spec fn default_options() -> OptionsView {
    OptionsView {
        stop: 75,
        start: 50,
        interval_secs: 20,
        watch_interval_secs: 2,
        battery: None,
        charger_psy: "/sys/class/power_supply/ln8000-charger"@,
        i2c_dev: "/dev/i2c-1"@,
        i2c_addr: 0x51,
        once: false,
        status: false,
        dry_run: false,
        no_restore_on_exit: false,
        verbose: false,
    }
}

/// The report of an option that lacks its value.
pub open spec fn missing_value_message(name: Seq<char>) -> Seq<char> {
    "选项 "@ + name + " 缺少参数"@
}

/// The report of an option whose value is no integer.
pub open spec fn invalid_value_message(name: Seq<char>, value: Seq<char>) -> Seq<char> {
    "选项 "@ + name + " 参数无效: "@ + value
}

/// The report of a malformed chip address.
pub open spec fn invalid_addr_message(value: Seq<char>) -> Seq<char> {
    "芯片地址无效: "@ + value
}

/// The report of an unknown option.
pub open spec fn unknown_option_message(arg: Seq<char>) -> Seq<char> {
    "未知选项: "@ + arg
}

/// A chip address: hexadecimal after `0x`, decimal otherwise, as a `u16`.
pub open spec fn parse_addr_spec(s: Seq<char>) -> Option<int> {
    if text::starts_with(s, "0x"@) {
        text::parse_unsigned(s.skip("0x"@.len() as int), 16, 0xffff)
    } else {
        text::parse_unsigned(s, 10, 0xffff)
    }
}

/// The value after an integer option, or the report of why there is none.
pub open spec fn int_value(args: Seq<Seq<char>>, i: int) -> Result<int, Seq<char>> {
    if i + 1 < args.len() {
        match text::parse_signed(args[i + 1], i32::MAX as int) {
            Some(n) => Ok(n),
            None => Err(invalid_value_message(args[i], args[i + 1])),
        }
    } else {
        Err(missing_value_message(args[i]))
    }
}

/// Checks the options once they have all been read.
pub open spec fn validate(o: OptionsView) -> ArgsVerdict {
    if o.stop <= o.start {
        ArgsVerdict::Refused("--stop 必须大于 --start"@)
    } else if !(0 <= o.start <= 100) || !(0 <= o.stop <= 100) {
        ArgsVerdict::Refused("阈值必须在 0-100 之间且 --start < --stop"@)
    } else if o.interval_secs < 5 {
        ArgsVerdict::Refused("--interval 不能小于 5 秒"@)
    } else if o.watch_interval_secs < 1 {
        ArgsVerdict::Refused("--watch-interval 不能小于 1 秒"@)
    } else {
        ArgsVerdict::Run(o)
    }
}

/// Reads the arguments from index `i` on, with the options `o` read so far.
pub open spec fn scan(args: Seq<Seq<char>>, i: int, o: OptionsView) -> ArgsVerdict
    decreases args.len() - i,
{
    if i < 0 || i >= args.len() {
        validate(o)
    } else {
        let a = args[i];
        let has_value = i + 1 < args.len();
        if a == "--stop"@ || a == "--start"@ || a == "--interval"@ || a == "--watch-interval"@ {
            if !has_value {
                ArgsVerdict::Refused(missing_value_message(a))
            } else {
                match text::parse_signed(args[i + 1], i32::MAX as int) {
                    None => ArgsVerdict::Refused(invalid_value_message(a, args[i + 1])),
                    Some(n) => scan(
                        args,
                        i + 2,
                        if a == "--stop"@ {
                            OptionsView { stop: n, ..o }
                        } else if a == "--start"@ {
                            OptionsView { start: n, ..o }
                        } else if a == "--interval"@ {
                            OptionsView { interval_secs: n, ..o }
                        } else {
                            OptionsView { watch_interval_secs: n, ..o }
                        },
                    ),
                }
            }
        } else if a == "--battery"@ || a == "--charger-psy"@ || a == "--i2c-dev"@ {
            if !has_value {
                ArgsVerdict::Refused(missing_value_message(a))
            } else {
                let v = args[i + 1];
                scan(
                    args,
                    i + 2,
                    if a == "--battery"@ {
                        OptionsView { battery: Some(v), ..o }
                    } else if a == "--charger-psy"@ {
                        OptionsView { charger_psy: v, ..o }
                    } else {
                        OptionsView { i2c_dev: v, ..o }
                    },
                )
            }
        } else if a == "--i2c-addr"@ {
            if !has_value {
                ArgsVerdict::Refused(missing_value_message(a))
            } else {
                match parse_addr_spec(args[i + 1]) {
                    None => ArgsVerdict::Refused(invalid_addr_message(args[i + 1])),
                    Some(n) => scan(args, i + 2, OptionsView { i2c_addr: n, ..o }),
                }
            }
        } else if a == "--once"@ {
            scan(args, i + 1, OptionsView { once: true, ..o })
        } else if a == "--status"@ {
            scan(args, i + 1, OptionsView { status: true, ..o })
        } else if a == "--dry-run"@ {
            scan(args, i + 1, OptionsView { dry_run: true, ..o })
        } else if a == "--no-restore-on-exit"@ {
            scan(args, i + 1, OptionsView { no_restore_on_exit: true, ..o })
        } else if a == "--verbose"@ {
            scan(args, i + 1, OptionsView { verbose: true, ..o })
        } else if a == "-h"@ || a == "--help"@ {
            ArgsVerdict::Help
        } else {
            ArgsVerdict::Refused(unknown_option_message(a))
        }
    }
}

/// What the whole command line `args` (program name excluded) asks for.
pub open spec fn parse_args_spec(args: Seq<Seq<char>>) -> ArgsVerdict {
    scan(args, 0, default_options())
}

/// `r` is what `v` says.
pub open spec fn outcome_is(r: Result<ArgsOutcome, String>, v: ArgsVerdict) -> bool {
    match v {
        ArgsVerdict::Help => r matches Ok(ArgsOutcome::Help),
        ArgsVerdict::Refused(e) => r matches Err(m) && m@ == e,
        ArgsVerdict::Run(o) => r matches Ok(ArgsOutcome::Run(opts)) && opts@ == o,
    }
}

/// Steps to the value of the option at `*i`: advances `*i` and returns the
/// argument there, or the report of its absence.
pub fn next_arg(args: &Vec<String>, i: &mut usize, name: &str) -> (r: Result<String, String>)
    requires
        *old(i) < usize::MAX,
    ensures
        *final(i) == *old(i) + 1,
        r matches Ok(v) ==> *final(i) < args.len() && v@ == args@[*final(i) as int]@,
        r matches Err(e) ==> *final(i) >= args.len() && e@ == missing_value_message(name@),
{
    *i += 1;
    if *i < args.len() {
        Ok(args[*i].clone())
    } else {
        Err(concat3("选项 ", name, " 缺少参数"))
    }
}

/// The integer value `s` of option `name` (`i32::from_str`), or the report
/// that it is none.
pub fn parse_int(s: &str, name: &str) -> (r: Result<i32, String>)
    ensures
        r matches Ok(v) ==> text::parse_signed(s@, i32::MAX as int) == Some(v as int),
        r matches Err(e) ==> text::parse_signed(s@, i32::MAX as int) is None && e@
            == invalid_value_message(name@, s@),
{
    let v = chars_of(s);
    match parse_i32_of(&v) {
        Some(n) => Ok(n),
        None => Err(concat4("选项 ", name, " 参数无效: ", s)),
    }
}

/// A chip address: `0x` and hexadecimal digits, or decimal digits, within
/// `u16`; or the report that `s` is none.
pub fn parse_addr(s: &str) -> (r: Result<u16, String>)
    ensures
        r matches Ok(v) ==> parse_addr_spec(s@) == Some(v as int),
        r matches Err(e) ==> parse_addr_spec(s@) is None && e@ == invalid_addr_message(s@),
{
    let v = chars_of(s);
    let p = chars_of("0x");
    let parsed = if has_prefix(&v, &p) {
        parse_unsigned_at(&v, p.len(), 16, 0xffff)
    } else {
        parse_unsigned_of(&v, 10, 0xffff)
    };
    match parsed {
        Some(n) => Ok(n as u16),
        None => Err(concat2("芯片地址无效: ", s)),
    }
}

/// Reads the value of the integer option at `*i`.
fn int_arg(args: &Vec<String>, i: &mut usize, name: &str) -> (r: Result<i32, String>)
    requires
        *old(i) < args.len(),
        name@ == args@[*old(i) as int]@,
    ensures
        *final(i) == *old(i) + 1,
        r matches Ok(n) ==> *final(i) < args.len() && int_value(
            string_views(args@),
            *old(i) as int,
        ) == Ok::<int, Seq<char>>(n as int),
        r matches Err(e) ==> int_value(string_views(args@), *old(i) as int) == Err::<int, Seq<char>>(
            e@,
        ),
{
    let v = next_arg(args, i, name)?;
    parse_int(v.as_str(), name)
}

/// The options read so far, with the interval values read so far.
pub open spec fn with_intervals(o: OptionsView, interval: i32, watch_interval: i32) -> OptionsView {
    OptionsView { interval_secs: interval as int, watch_interval_secs: watch_interval as int, ..o }
}

/// Reads the command line `args` (program name excluded). The intervals
/// are checked as given, so that a negative one is refused like any other
/// below its minimum.
pub fn parse_args(args: &Vec<String>) -> (r: Result<ArgsOutcome, String>)
    ensures
        outcome_is(r, parse_args_spec(string_views(args@))),
{
    let ghost av = string_views(args@);
    let mut o = Options {
        stop: 75,
        start: 50,
        interval_secs: 20,
        watch_interval_secs: 2,
        battery: None,
        charger_psy: String::from_str("/sys/class/power_supply/ln8000-charger"),
        i2c_dev: String::from_str("/dev/i2c-1"),
        i2c_addr: LN8000_ADDR,
        once: false,
        status: false,
        dry_run: false,
        no_restore_on_exit: false,
        verbose: false,
    };
    let mut interval: i32 = 20;
    let mut watch_interval: i32 = 2;
    let mut i: usize = 0;
    assert(with_intervals(o@, interval, watch_interval) == default_options());
    while i < args.len()
        invariant
            i <= args.len(),
            av == string_views(args@),
            scan(av, 0, default_options()) == scan(
                av,
                i as int,
                with_intervals(o@, interval, watch_interval),
            ),
        decreases args.len() - i,
    {
        let a = args[i].as_str();
        let ghost i0 = i as int;
        let ghost o0 = with_intervals(o@, interval, watch_interval);
        assert(av[i0] == a@);
        if str_eq(a, "--stop") || str_eq(a, "--start") || str_eq(a, "--interval") || str_eq(
            a,
            "--watch-interval",
        ) {
            let n = match int_arg(args, &mut i, a) {
                Ok(n) => n,
                Err(e) => {
                    return Err(e);
                },
            };
            if str_eq(a, "--stop") {
                o.stop = n;
            } else if str_eq(a, "--start") {
                o.start = n;
            } else if str_eq(a, "--interval") {
                interval = n;
            } else {
                watch_interval = n;
            }
        } else if str_eq(a, "--battery") || str_eq(a, "--charger-psy") || str_eq(a, "--i2c-dev") {
            let v = match next_arg(args, &mut i, a) {
                Ok(v) => v,
                Err(e) => {
                    return Err(e);
                },
            };
            if str_eq(a, "--battery") {
                o.battery = Some(v);
            } else if str_eq(a, "--charger-psy") {
                o.charger_psy = v;
            } else {
                o.i2c_dev = v;
            }
        } else if str_eq(a, "--i2c-addr") {
            let v = match next_arg(args, &mut i, a) {
                Ok(v) => v,
                Err(e) => {
                    return Err(e);
                },
            };
            o.i2c_addr = match parse_addr(v.as_str()) {
                Ok(n) => n,
                Err(e) => {
                    return Err(e);
                },
            };
        } else if str_eq(a, "--once") {
            o.once = true;
        } else if str_eq(a, "--status") {
            o.status = true;
        } else if str_eq(a, "--dry-run") {
            o.dry_run = true;
        } else if str_eq(a, "--no-restore-on-exit") {
            o.no_restore_on_exit = true;
        } else if str_eq(a, "--verbose") {
            o.verbose = true;
        } else if str_eq(a, "-h") || str_eq(a, "--help") {
            return Ok(ArgsOutcome::Help);
        } else {
            return Err(concat2("未知选项: ", a));
        }
        i += 1;
        assert(scan(av, i0, o0) == scan(av, i as int, with_intervals(o@, interval, watch_interval)));
    }
    if o.stop <= o.start {
        return Err(String::from_str("--stop 必须大于 --start"));
    }
    if !(0 <= o.start && o.start <= 100) || !(0 <= o.stop && o.stop <= 100) {
        return Err(String::from_str("阈值必须在 0-100 之间且 --start < --stop"));
    }
    if interval < 5 {
        return Err(String::from_str("--interval 不能小于 5 秒"));
    }
    if watch_interval < 1 {
        return Err(String::from_str("--watch-interval 不能小于 1 秒"));
    }
    o.interval_secs = interval as u64;
    o.watch_interval_secs = watch_interval as u64;
    Ok(ArgsOutcome::Run(o))
}

} // verus!
