//! The graphical session and the GNOME compositor (Mutter).
//!
//! `loginctl` names the sessions; the first active local `user` session of
//! type `wayland` or `x11` is the graphical one. Mutter is driven over D-Bus
//! through `gdbus`, run as that session's user: its `PowerSaveMode` blanks
//! and unblanks the display, and its `Backlight` property and `SetBacklight`
//! method read and set the panel brightness.
use vstd::prelude::*;
use vstd::string::*;
use crate::command::{run_cmd, run_cmd_as_user, CmdPlan, CmdResult};
use crate::text;
use crate::text::{
    chars_of, count_leading_digits, find, i64_to_string, last_word_of, lines_of, parse_digits_from,
    parse_i64_of, skip_vec, split_once_of, str_eq, string_of, string_of_range, u64_to_string,
};

verus! {

/// Mutter's lowest backlight value for this panel; GNOME's idle-dim
/// percentage applies to the range above it.
pub const BACKLIGHT_MIN: i64 = 20;

// ---------------------------------------------------------------------------
// Reading gdbus replies.
// ---------------------------------------------------------------------------

/// The digits right after the first `needle` in `s`, as a `u32`.
pub open spec fn parse_after_spec(s: Seq<char>, needle: Seq<char>) -> Option<int> {
    match text::find_spec(s, needle) {
        None => None,
        Some(i) => {
            let rest = s.skip(i + needle.len());
            let digits = rest.take(text::leading_digits(rest) as int);
            if digits.len() == 0 {
                None
            } else {
                text::parse_digits(digits, 10, u32::MAX as int)
            }
        },
    }
}

/// The number written right after the first `needle` in `s`: the run of
/// ASCII digits there, if there is one and it fits a `u32`.
pub fn parse_after(s: &str, needle: &str) -> (r: Option<u32>)
    ensures
        r matches Some(v) ==> parse_after_spec(s@, needle@) == Some(v as int),
        r is None ==> parse_after_spec(s@, needle@) is None,
{
    let v = chars_of(s);
    let n = chars_of(needle);
    let i = match find(&v, &n) {
        Some(i) => i,
        None => {
            return None;
        },
    };
    let rest = skip_vec(&v, i + n.len());
    let k = count_leading_digits(&rest);
    if k == 0 {
        return None;
    }
    let mut digits: Vec<char> = Vec::new();
    let mut j: usize = 0;
    while j < k
        invariant
            j <= k <= rest.len(),
            digits@ == rest@.take(j as int),
        decreases k - j,
    {
        digits.push(rest[j]);
        proof {
            assert(rest@.take(j + 1) =~= rest@.take(j as int).push(rest@[j as int]));
        }
        j += 1;
    }
    proof {
        assert(digits@.skip(0) =~= digits@);
    }
    match parse_digits_from(&digits, 0, 10, 0xffff_ffff) {
        Some(x) => Some(x as u32),
        None => None,
    }
}

/// The connector name in Mutter's `Backlight` reply: the text between
/// `'connector': <'` and the next `'>`.
pub open spec fn parse_connector_spec(s: Seq<char>) -> Option<Seq<char>> {
    let needle = "'connector': <'"@;
    match text::find_spec(s, needle) {
        None => None,
        Some(i) => {
            let start = i + needle.len();
            match text::find_spec(s.skip(start), "'>"@) {
                None => None,
                Some(j) => Some(s.subrange(start, start + j)),
            }
        },
    }
}

/// The connector name in Mutter's `Backlight` reply.
pub fn parse_connector(s: &str) -> (r: Option<String>)
    ensures
        r matches Some(c) ==> parse_connector_spec(s@) == Some(c@),
        r is None ==> parse_connector_spec(s@) is None,
{
    let v = chars_of(s);
    let needle = chars_of("'connector': <'");
    let i = match find(&v, &needle) {
        Some(i) => i,
        None => {
            return None;
        },
    };
    assert(text::occurs_at(v@, needle@, i as int));
    assert(i + needle@.len() <= v@.len());
    let vl = v.len();
    assert(i + needle.len() <= vl);
    let start = i + needle.len();
    let tail = skip_vec(&v, start);
    let close = chars_of("'>");
    match find(&tail, &close) {
        Some(j) => {
            assert(text::occurs_at(tail@, close@, j as int));
            assert(j + close@.len() <= tail@.len());
            proof {
                assert(tail@.subrange(j as int, j + close@.len()) == close@);
                assert(v@.subrange(start as int, start + j) =~= tail@.take(j as int));
            }
            Some(string_of_range(&v, start, start + j))
        },
        None => None,
    }
}

/// The serial and connector of the panel backlight, from Mutter's
/// `Backlight` reply; nothing when the call failed or the reply lacks them.
pub fn compositor_backlight_target(res: &CmdResult) -> (r: Option<(u32, String)>)
    ensures
        !res.ok ==> r is None,
        res.ok ==> (match (parse_after_spec(res.stdout@, "uint32 "@), parse_connector_spec(
            res.stdout@,
        )) {
            (Some(serial), Some(conn)) => r matches Some(t) && t.0 == serial && t.1@ == conn,
            _ => r is None,
        }),
{
    if !res.ok {
        return None;
    }
    let serial = match parse_after(res.stdout.as_str(), "uint32 ") {
        Some(s) => s,
        None => {
            return None;
        },
    };
    let connector = match parse_connector(res.stdout.as_str()) {
        Some(c) => c,
        None => {
            return None;
        },
    };
    Some((serial, connector))
}

/// Whether a backlight value goes through Mutter, which keeps its
/// `Backlight` property (and GNOME's brightness slider) in step; Mutter
/// refuses values below its minimum, so these (the screen-off 0) go to
/// sysfs directly.
pub fn backlight_through_compositor(value: i64) -> (r: bool)
    ensures
        r == (value >= BACKLIGHT_MIN),
{
    value >= BACKLIGHT_MIN
}

/// The serial and current value of the panel backlight, from Mutter's
/// `Backlight` reply; nothing when the call failed, the reply lacks them,
/// or the value is 0.
pub fn get_compositor_backlight_info(res: &CmdResult) -> (r: Option<(u32, u32)>)
    ensures
        !res.ok ==> r is None,
        res.ok ==> (match (parse_after_spec(res.stdout@, "uint32 "@), parse_after_spec(
            res.stdout@,
            "'value': <"@,
        )) {
            (Some(serial), Some(value)) => if value > 0 {
                r == Some((serial as u32, value as u32))
            } else {
                r is None
            },
            _ => r is None,
        }),
{
    if !res.ok {
        return None;
    }
    let serial = match parse_after(res.stdout.as_str(), "uint32 ") {
        Some(s) => s,
        None => {
            return None;
        },
    };
    let value = match parse_after(res.stdout.as_str(), "'value': <") {
        Some(v) => v,
        None => {
            return None;
        },
    };
    if value > 0 {
        Some((serial, value))
    } else {
        None
    }
}

/// The backlight value that Mutter reports, as a brightness.
pub fn get_compositor_brightness(info: Option<(u32, u32)>) -> (r: Option<i64>)
    ensures
        r == (match info {
            Some((_, v)) => Some(v as i64),
            None => None,
        }),
{
    match info {
        Some((_, v)) => Some(v as i64),
        None => None,
    }
}

/// The brightness the user most likely wants: Mutter's value above the
/// minimum, else the stored value above it, else any positive Mutter value,
/// else the stored value.
pub open spec fn best_user_brightness_spec(prop: Option<i64>, state: i64) -> i64 {
    if prop matches Some(p) && p > 20 {
        prop->0
    } else if state > 20 {
        state
    } else if prop matches Some(p) && p > 0 {
        prop->0
    } else {
        state
    }
}

/// The brightness the user most likely wants, from Mutter's current value
/// `prop` and the stored value `state`.
pub fn best_user_brightness(prop: Option<i64>, state: i64) -> (r: i64)
    ensures
        r == best_user_brightness_spec(prop, state),
{
    if let Some(p) = prop {
        if p > 20 {
            return p;
        }
    }
    if state > 20 {
        return state;
    }
    if let Some(p) = prop {
        if p > 0 {
            return p;
        }
    }
    state
}

// ---------------------------------------------------------------------------
// GNOME idle dimming.
// ---------------------------------------------------------------------------

/// Whether the `idle-dim` setting reads true.
pub fn idle_dim_enabled(out: &str) -> (r: bool)
    ensures
        r == text::contains_spec(out@, "true"@),
{
    text::str_contains(out, "true")
}

/// The `idle-brightness` percentage: the last token of the setting's output.
pub fn idle_dim_percent(out: &str) -> (r: Option<i64>)
    ensures
        r == (match text::last_word(out@) {
            Some(w) => match text::parse_signed(w, i64::MAX as int) {
                Some(p) => Some(p as i64),
                None => None,
            },
            None => None,
        }),
{
    let v = chars_of(out);
    match last_word_of(&v) {
        Some(w) => parse_i64_of(&w),
        None => None,
    }
}

/// The dimmed brightness, on the sysfs scale, that GNOME applies at `pct`
/// percent with the maximum `max`: the minimum plus `pct` percent of the
/// range above it.
pub open spec fn idle_dim_spec(max: int, pct: int) -> Option<int> {
    if pct <= 0 || max <= BACKLIGHT_MIN {
        None
    } else {
        Some(BACKLIGHT_MIN + (max - BACKLIGHT_MIN) * pct / 100)
    }
}

/// The dimmed brightness that GNOME applies at `pct` percent, or nothing
/// when dimming does not apply.
pub fn idle_dim_brightness(max: i64, pct: i64) -> (r: Option<i64>)
    requires
        pct > 0 && max > BACKLIGHT_MIN ==> (max - BACKLIGHT_MIN) * pct <= i64::MAX,
    ensures
        r matches Some(v) ==> idle_dim_spec(max as int, pct as int) == Some(v as int),
        r is None ==> idle_dim_spec(max as int, pct as int) is None,
{
    if pct <= 0 || max <= BACKLIGHT_MIN {
        return None;
    }
    let span = max - BACKLIGHT_MIN;
    let prod = span * pct;
    proof {
        assert(prod >= 0) by (nonlinear_arith)
            requires
                span > 0,
                pct > 0,
                prod == span * pct,
        ;
    }
    Some(BACKLIGHT_MIN + prod / 100)
}

// ---------------------------------------------------------------------------
// Sessions.
// ---------------------------------------------------------------------------

/// `loginctl show-session` properties, in output order.
pub struct SessionProps {
    pub pairs: Vec<(String, String)>,
}

/// The views of a list of properties.
pub open spec fn prop_views(v: Seq<(String, String)>) -> Seq<(Seq<char>, Seq<char>)> {
    v.map_values(|p: (String, String)| (p.0@, p.1@))
}

/// The `key=value` lines of `lines`, split at their first `=`.
pub open spec fn key_values(lines: Seq<Seq<char>>) -> Seq<(Seq<char>, Seq<char>)>
    decreases lines.len(),
{
    if lines.len() == 0 {
        Seq::empty()
    } else {
        let rest = key_values(lines.drop_last());
        match text::split_once(lines.last(), '=') {
            Some(kv) => rest.push(kv),
            None => rest,
        }
    }
}

/// The value of `key`: that of its last line, as a map filled line by line
/// holds it.
pub open spec fn prop_lookup(pairs: Seq<(Seq<char>, Seq<char>)>, key: Seq<char>) -> Option<
    Seq<char>,
>
    decreases pairs.len(),
{
    if pairs.len() == 0 {
        None
    } else if pairs.last().0 == key {
        Some(pairs.last().1)
    } else {
        prop_lookup(pairs.drop_last(), key)
    }
}

proof fn lemma_key_values_step(lv: Seq<Seq<char>>, i: int)
    requires
        0 <= i < lv.len(),
    ensures
        key_values(lv.take(i + 1)) == (match text::split_once(lv[i], '=') {
            Some(kv) => key_values(lv.take(i)).push(kv),
            None => key_values(lv.take(i)),
        }),
{
    assert(lv.take(i + 1).drop_last() =~= lv.take(i));
    assert(lv.take(i + 1).last() == lv[i]);
}

/// The properties that `loginctl show-session` printed.
pub fn show_session(output: &str) -> (p: SessionProps)
    ensures
        prop_views(p.pairs@) == key_values(text::lines(output@)),
{
    let v = chars_of(output);
    let ls = lines_of(&v);
    let ghost lv = text::views(ls@);
    let mut pairs: Vec<(String, String)> = Vec::new();
    let mut i: usize = 0;
    while i < ls.len()
        invariant
            i <= ls.len(),
            lv == text::views(ls@),
            prop_views(pairs@) == key_values(lv.take(i as int)),
        decreases ls.len() - i,
    {
        proof {
            lemma_key_values_step(lv, i as int);
        }
        assert(lv[i as int] == ls@[i as int]@);
        let kv = split_once_of(&ls[i], '=');
        match kv {
            Some((k, val)) => {
                let pk = string_of(&k);
                let pv = string_of(&val);
                proof {
                    assert(prop_views(pairs@.push((pk, pv))) =~= prop_views(pairs@).push(
                        (pk@, pv@),
                    ));
                }
                pairs.push((pk, pv));
            },
            None => {},
        }
        i += 1;
    }
    proof {
        assert(lv.take(ls.len() as int) =~= lv);
    }
    SessionProps { pairs }
}

/// The value of property `key`.
pub fn session_get<'a>(p: &'a SessionProps, key: &str) -> (r: Option<&'a String>)
    ensures
        r matches Some(v) ==> prop_lookup(prop_views(p.pairs@), key@) == Some(v@),
        r is None ==> prop_lookup(prop_views(p.pairs@), key@) is None,
{
    let ghost pv = prop_views(p.pairs@);
    let mut i: usize = p.pairs.len();
    assert(pv.take(i as int) =~= pv);
    while i > 0
        invariant
            i <= p.pairs.len(),
            pv == prop_views(p.pairs@),
            prop_lookup(pv, key@) == prop_lookup(pv.take(i as int), key@),
        decreases i,
    {
        let ghost t = pv.take(i as int);
        assert(t.last() == (p.pairs@[i - 1].0@, p.pairs@[i - 1].1@));
        if str_eq(p.pairs[i - 1].0.as_str(), key) {
            return Some(&p.pairs[i - 1].1);
        }
        assert(t.drop_last() =~= pv.take(i - 1));
        i -= 1;
    }
    None
}

/// What one session's properties say.
pub enum SessionVerdict {
    /// Not an active graphical user session: look further.
    Skip,
    /// The graphical session of this user.
    Found(String, u32),
    /// A graphical session without a usable user: give up.
    Fail,
}

/// Whether the properties describe an active local graphical user session.
pub open spec fn is_graphical(props: Seq<(Seq<char>, Seq<char>)>) -> bool {
    &&& prop_lookup(props, "Class"@) == Some("user"@)
    &&& prop_lookup(props, "Active"@) == Some("yes"@)
    &&& (prop_lookup(props, "Type"@) == Some("wayland"@) || prop_lookup(props, "Type"@) == Some(
        "x11"@,
    ))
}

/// The user name and id of a graphical session, when both are usable.
pub open spec fn session_user(props: Seq<(Seq<char>, Seq<char>)>) -> Option<(Seq<char>, int)> {
    match prop_lookup(props, "User"@) {
        None => None,
        Some(u) => match text::parse_unsigned(u, 10, u32::MAX as int) {
            None => None,
            Some(uid) => match prop_lookup(props, "Name"@) {
                None => None,
                Some(name) => if name.len() > 0 && uid > 0 {
                    Some((name, uid))
                } else {
                    None
                },
            },
        },
    }
}

/// What the properties of one session say.
pub fn session_verdict(p: &SessionProps) -> (r: SessionVerdict)
    ensures
        !is_graphical(prop_views(p.pairs@)) ==> r is Skip,
        is_graphical(prop_views(p.pairs@)) ==> (match session_user(prop_views(p.pairs@)) {
            Some((name, uid)) => r matches SessionVerdict::Found(n, u) && n@ == name && u == uid,
            None => r is Fail,
        }),
{
    let class_ok = match session_get(p, "Class") {
        Some(c) => str_eq(c.as_str(), "user"),
        None => false,
    };
    let active_ok = match session_get(p, "Active") {
        Some(a) => str_eq(a.as_str(), "yes"),
        None => false,
    };
    let type_ok = match session_get(p, "Type") {
        Some(t) => str_eq(t.as_str(), "wayland") || str_eq(t.as_str(), "x11"),
        None => false,
    };
    if !class_ok || !active_ok || !type_ok {
        return SessionVerdict::Skip;
    }
    let uid = match session_get(p, "User") {
        Some(u) => {
            let uv = chars_of(u.as_str());
            match text::parse_unsigned_of(&uv, 10, 0xffff_ffff) {
                Some(x) => x as u32,
                None => {
                    return SessionVerdict::Fail;
                },
            }
        },
        None => {
            return SessionVerdict::Fail;
        },
    };
    let name = match session_get(p, "Name") {
        Some(n) => n,
        None => {
            return SessionVerdict::Fail;
        },
    };
    if name.as_str().unicode_len() > 0 && uid > 0 {
        SessionVerdict::Found(name.clone(), uid)
    } else {
        SessionVerdict::Fail
    }
}

/// The next thing to do in the search for the graphical session.
pub enum SessionStep {
    /// Fetch the properties of this session and search again with them.
    NeedInfo(String),
    /// The search is over.
    Done(Option<(String, u32)>),
}

/// The search through the session list `ls`, from line `i`, with the
/// properties `infos` of the sessions of the first lines: the first line
/// without a session id, or the first graphical session without a usable
/// user, ends it without a result.
pub open spec fn session_search(
    ls: Seq<Seq<char>>,
    infos: Seq<Seq<(Seq<char>, Seq<char>)>>,
    i: int,
) -> Option<Option<(Seq<char>, int)>>
    decreases ls.len() - i,
{
    if i < 0 || i >= ls.len() {
        Some(None)
    } else if text::words(ls[i]).len() == 0 {
        Some(None)
    } else if i >= infos.len() {
        None
    } else if !is_graphical(infos[i]) {
        session_search(ls, infos, i + 1)
    } else {
        Some(session_user(infos[i]))
    }
}

/// The properties views of a list of sessions.
pub open spec fn infos_views(v: Seq<SessionProps>) -> Seq<Seq<(Seq<char>, Seq<char>)>> {
    v.map_values(|p: SessionProps| prop_views(p.pairs@))
}

/// One step of the search for the graphical session, given the output of
/// `loginctl list-sessions --no-legend` and the properties of the sessions
/// of its first `infos.len()` lines, in order.
pub fn graphical_session(list_output: &str, infos: &Vec<SessionProps>) -> (r: SessionStep)
    ensures
        (match session_search(text::lines(list_output@), infos_views(infos@), 0) {
            Some(Some((name, uid))) => r matches SessionStep::Done(Some((n, u))) && n@ == name && u
                == uid,
            Some(None) => r matches SessionStep::Done(None),
            None => r matches SessionStep::NeedInfo(sid) && {
                let ls = text::lines(list_output@);
                let k = infos@.len() as int;
                &&& k < ls.len()
                &&& sid@ == text::words(ls[k])[0]
            },
        }),
{
    let v = chars_of(list_output);
    let ls = lines_of(&v);
    let ghost lv = text::views(ls@);
    let ghost iv = infos_views(infos@);
    let mut i: usize = 0;
    while i < ls.len()
        invariant
            i <= ls.len(),
            i <= infos.len(),
            lv == text::views(ls@),
            lv == text::lines(list_output@),
            iv == infos_views(infos@),
            session_search(lv, iv, 0) == session_search(lv, iv, i as int),
        decreases ls.len() - i,
    {
        assert(lv[i as int] == ls@[i as int]@);
        let ws = text::words_of(&ls[i]);
        if ws.len() == 0 {
            return SessionStep::Done(None);
        }
        assert(text::views(ws@)[0] == ws@[0]@);
        if i >= infos.len() {
            return SessionStep::NeedInfo(string_of(&ws[0]));
        }
        assert(iv[i as int] == prop_views(infos@[i as int].pairs@));
        match session_verdict(&infos[i]) {
            SessionVerdict::Skip => {},
            SessionVerdict::Found(n, u) => {
                return SessionStep::Done(Some((n, u)));
            },
            SessionVerdict::Fail => {
                return SessionStep::Done(None);
            },
        }
        i += 1;
    }
    SessionStep::Done(None)
}

// ---------------------------------------------------------------------------
// Mutter calls.
// ---------------------------------------------------------------------------

/// The `gdbus` call that sets Mutter's `PowerSaveMode`: 1 blanks the
/// display, 0 unblanks it.
pub open spec fn power_save_call(on: bool) -> Seq<Seq<char>> {
    seq![
        "gdbus"@,
        "call"@,
        "--session"@,
        "--dest"@,
        "org.gnome.Mutter.DisplayConfig"@,
        "--object-path"@,
        "/org/gnome/Mutter/DisplayConfig"@,
        "--method"@,
        "org.freedesktop.DBus.Properties.Set"@,
        "org.gnome.Mutter.DisplayConfig"@,
        "PowerSaveMode"@,
        if on {
            "<1>"@
        } else {
            "<0>"@
        },
    ]
}

/// The `gdbus` call that reads Mutter's `Backlight` property.
pub open spec fn backlight_query_call() -> Seq<Seq<char>> {
    seq![
        "gdbus"@,
        "call"@,
        "--session"@,
        "--dest"@,
        "org.gnome.Mutter.DisplayConfig"@,
        "--object-path"@,
        "/org/gnome/Mutter/DisplayConfig"@,
        "--method"@,
        "org.freedesktop.DBus.Properties.Get"@,
        "org.gnome.Mutter.DisplayConfig"@,
        "Backlight"@,
    ]
}

/// The `gdbus` call that sets the backlight of `connector` to `value`.
pub open spec fn set_backlight_call(serial: u32, connector: Seq<char>, value: i64) -> Seq<
    Seq<char>,
> {
    seq![
        "gdbus"@,
        "call"@,
        "--session"@,
        "--dest"@,
        "org.gnome.Mutter.DisplayConfig"@,
        "--object-path"@,
        "/org/gnome/Mutter/DisplayConfig"@,
        "--method"@,
        "org.gnome.Mutter.DisplayConfig.SetBacklight"@,
        text::decimal(serial as nat),
        "'"@ + connector + "'"@,
        text::signed_decimal(value as int),
    ]
}

/// A plan that runs `call` as the session user `user` (uid `uid`), on that
/// user's session directory and D-Bus session bus, with a 5 s timeout.
pub open spec fn as_user_plan(p: CmdPlan, user: Seq<char>, uid: u32, call: Seq<Seq<char>>) -> bool {
    &&& p.program@ == "runuser"@
    &&& crate::command::string_views(p.args@) == seq!["-u"@, user] + seq!["--"@] + call
    &&& crate::command::pair_views(p.env@) == seq![
        ("XDG_RUNTIME_DIR"@, crate::command::runtime_dir(uid)),
        ("DBUS_SESSION_BUS_ADDRESS"@, "unix:path="@ + crate::command::runtime_dir(uid) + "/bus"@),
    ]
    &&& p.timeout_secs == 5
}

/// Blanks (`on`) or unblanks the display through Mutter, as the user of the
/// graphical `session`; nothing can be done without one.
pub fn set_power_save(on: bool, session: Option<(&str, u32)>) -> (r: Option<CmdPlan>)
    ensures
        session is None ==> r is None,
        session matches Some((user, uid)) ==> (r matches Some(p) && as_user_plan(
            p,
            user@,
            uid,
            power_save_call(on),
        )),
{
    let (user, uid) = match session {
        Some(s) => s,
        None => {
            return None;
        },
    };
    let cmd = vec![
        "gdbus",
        "call",
        "--session",
        "--dest",
        "org.gnome.Mutter.DisplayConfig",
        "--object-path",
        "/org/gnome/Mutter/DisplayConfig",
        "--method",
        "org.freedesktop.DBus.Properties.Set",
        "org.gnome.Mutter.DisplayConfig",
        "PowerSaveMode",
        if on {
            "<1>"
        } else {
            "<0>"
        },
    ];
    let p = run_cmd_as_user(cmd.as_slice(), user, uid, 5);
    assert(crate::command::str_views(cmd@) =~= power_save_call(on));
    assert(seq!["-u"@, user@, "--"@] + power_save_call(on) =~= seq!["-u"@, user@] + seq!["--"@]
        + power_save_call(on));
    Some(p)
}

/// Reads Mutter's `Backlight` property as `user` (uid `uid`).
pub fn backlight_query(user: &str, uid: u32) -> (p: CmdPlan)
    ensures
        as_user_plan(p, user@, uid, backlight_query_call()),
{
    let cmd = vec![
        "gdbus",
        "call",
        "--session",
        "--dest",
        "org.gnome.Mutter.DisplayConfig",
        "--object-path",
        "/org/gnome/Mutter/DisplayConfig",
        "--method",
        "org.freedesktop.DBus.Properties.Get",
        "org.gnome.Mutter.DisplayConfig",
        "Backlight",
    ];
    let p = run_cmd_as_user(cmd.as_slice(), user, uid, 5);
    assert(crate::command::str_views(cmd@) =~= backlight_query_call());
    assert(seq!["-u"@, user@, "--"@] + backlight_query_call() =~= seq!["-u"@, user@] + seq![
        "--"@,
    ] + backlight_query_call());
    p
}

/// Sets the backlight of `connector` (serial `serial`) to `value` through
/// Mutter, as `user` (uid `uid`).
pub fn set_backlight_command(user: &str, uid: u32, serial: u32, connector: &str, value: i64) -> (p:
    CmdPlan)
    ensures
        as_user_plan(p, user@, uid, set_backlight_call(serial, connector@, value)),
{
    let serial_str = u64_to_string(serial as u64);
    let connector_arg = text::concat3("'", connector, "'");
    let value_str = i64_to_string(value);
    let cmd = vec![
        "gdbus",
        "call",
        "--session",
        "--dest",
        "org.gnome.Mutter.DisplayConfig",
        "--object-path",
        "/org/gnome/Mutter/DisplayConfig",
        "--method",
        "org.gnome.Mutter.DisplayConfig.SetBacklight",
        serial_str.as_str(),
        connector_arg.as_str(),
        value_str.as_str(),
    ];
    let p = run_cmd_as_user(cmd.as_slice(), user, uid, 5);
    assert(crate::command::str_views(cmd@) =~= set_backlight_call(serial, connector@, value));
    assert(seq!["-u"@, user@, "--"@] + set_backlight_call(serial, connector@, value) =~= seq![
        "-u"@,
        user@,
    ] + seq!["--"@] + set_backlight_call(serial, connector@, value));
    p
}

/// How one attempt to set the backlight through Mutter went.
pub enum BacklightAttempt {
    /// There is no graphical session.
    NoSession,
    /// Mutter's reply named no backlight.
    NoTarget,
    /// The `SetBacklight` call failed.
    CallFailed,
    /// The `SetBacklight` call succeeded.
    CallOk,
}

/// After attempt number `attempt` (from 1) went as `outcome`: whether the
/// backlight was set, or nothing when another attempt, with a fresh serial,
/// is due. A failed call is retried once.
pub fn set_compositor_backlight(attempt: u32, outcome: BacklightAttempt) -> (r: Option<bool>)
    ensures
        outcome is CallOk ==> r == Some(true),
        outcome is NoSession || outcome is NoTarget ==> r == Some(false),
        outcome is CallFailed ==> r == (if attempt < 2 {
            None
        } else {
            Some(false)
        }),
{
    match outcome {
        BacklightAttempt::NoSession => Some(false),
        BacklightAttempt::NoTarget => Some(false),
        BacklightAttempt::CallFailed => {
            if attempt < 2 {
                None
            } else {
                Some(false)
            }
        },
        BacklightAttempt::CallOk => Some(true),
    }
}

/// Lists the login sessions: `loginctl list-sessions --no-legend`, 5 s.
pub fn list_sessions_plan() -> (p: CmdPlan)
    ensures
        crate::command::plain_plan(p, "loginctl"@, seq!["list-sessions"@, "--no-legend"@], 5),
{
    let cmd = vec!["loginctl", "list-sessions", "--no-legend"];
    let p = run_cmd(cmd.as_slice(), 5);
    assert(crate::command::str_views(cmd@).drop_first() =~= seq!["list-sessions"@, "--no-legend"@]);
    p
}

/// Shows the properties of session `sid`: `loginctl show-session <sid>`,
/// 5 s.
pub fn show_session_plan(sid: &str) -> (p: CmdPlan)
    ensures
        crate::command::plain_plan(p, "loginctl"@, seq!["show-session"@, sid@], 5),
{
    let cmd = vec!["loginctl", "show-session", sid];
    let p = run_cmd(cmd.as_slice(), 5);
    assert(crate::command::str_views(cmd@).drop_first() =~= seq!["show-session"@, sid@]);
    p
}

/// The `gsettings` call that reads `key` of GNOME's power plugin.
pub open spec fn power_setting_call(key: Seq<char>) -> Seq<Seq<char>> {
    seq!["gsettings"@, "get"@, "org.gnome.settings-daemon.plugins.power"@, key]
}

/// Reads whether GNOME dims an idle screen (`idle-dim`), as the session
/// user.
pub fn idle_dim_query(user: &str, uid: u32) -> (p: CmdPlan)
    ensures
        as_user_plan(p, user@, uid, power_setting_call("idle-dim"@)),
{
    let cmd = vec!["gsettings", "get", "org.gnome.settings-daemon.plugins.power", "idle-dim"];
    let p = run_cmd_as_user(cmd.as_slice(), user, uid, 5);
    assert(crate::command::str_views(cmd@) =~= power_setting_call("idle-dim"@));
    assert(seq!["-u"@, user@, "--"@] + power_setting_call("idle-dim"@) =~= seq!["-u"@, user@]
        + seq!["--"@] + power_setting_call("idle-dim"@));
    p
}

/// Reads the percentage GNOME dims an idle screen to (`idle-brightness`),
/// as the session user.
pub fn idle_brightness_query(user: &str, uid: u32) -> (p: CmdPlan)
    ensures
        as_user_plan(p, user@, uid, power_setting_call("idle-brightness"@)),
{
    let cmd = vec!["gsettings", "get", "org.gnome.settings-daemon.plugins.power", "idle-brightness"];
    let p = run_cmd_as_user(cmd.as_slice(), user, uid, 5);
    assert(crate::command::str_views(cmd@) =~= power_setting_call("idle-brightness"@));
    assert(seq!["-u"@, user@, "--"@] + power_setting_call("idle-brightness"@) =~= seq![
        "-u"@,
        user@,
    ] + seq!["--"@] + power_setting_call("idle-brightness"@));
    p
}

} // verus!
