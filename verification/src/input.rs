//! Input devices: the power key and lid switch found in
//! `/proc/bus/input/devices`, keyboards and pointers found through udev
//! properties, and the reconciliation of the watched devices with the ones
//! present.
use vstd::prelude::*;
use vstd::string::*;
use crate::command::{run_cmd, CmdPlan};
use crate::text;
use crate::text::{
    chars_of, concat2, has_prefix, lines_of, parse_unsigned_of, skip_vec, split_once_of, string_of,
    trim_bounds, words_of,
};

verus! {

/// Event type of keys and buttons.
pub const EV_KEY: u16 = 0x01;

/// Event type of relative motion.
pub const EV_REL: u16 = 0x02;

/// Event type of absolute motion.
pub const EV_ABS: u16 = 0x03;

/// Event type of switches.
pub const EV_SW: u16 = 0x05;

/// Key code of the power key.
pub const KEY_POWER: u16 = 116;

/// Switch code of the lid switch.
pub const SW_LID: u16 = 0;

// ---------------------------------------------------------------------------
// Capability bitmaps.
// ---------------------------------------------------------------------------

/// Bit `k` (below 64) of `w` is set.
pub open spec fn bit_set(w: u64, k: u64) -> bool {
    w & (1u64 << k) != 0
}

/// Bit `bit` of a bitmap stored as 64-bit words, word 0 lowest.
pub open spec fn bitmap_bit(words: Seq<u64>, bit: int) -> bool {
    let idx = bit / 64;
    idx < words.len() && bit_set(words[idx], (bit % 64) as u64)
}

/// Whether bit `bit` of the bitmap `words` is set.
pub fn bitmap_has(words: &Vec<u64>, bit: u16) -> (r: bool)
    ensures
        r == bitmap_bit(words@, bit as int),
{
    let idx = (bit / 64) as usize;
    idx < words.len() && (words[idx] & (1u64 << ((bit as u64) % 64))) != 0
}

/// The hexadecimal words among `ws`, as `u64`; the others are left out.
pub open spec fn hex_values(ws: Seq<Seq<char>>) -> Seq<u64>
    decreases ws.len(),
{
    if ws.len() == 0 {
        Seq::empty()
    } else {
        let r = hex_values(ws.drop_last());
        match text::parse_unsigned(ws.last(), 16, u64::MAX as int) {
            Some(v) => r.push(v as u64),
            None => r,
        }
    }
}

/// A bitmap as `/proc/bus/input/devices` prints it, highest word first,
/// stored with word 0 lowest.
pub open spec fn bitmap_words(s: Seq<char>) -> Seq<u64> {
    hex_values(text::words(s)).reverse()
}

/// The bitmap that `s` prints, word 0 lowest.
pub fn parse_bitmap_words(s: &str) -> (r: Vec<u64>)
    ensures
        r@ == bitmap_words(s@),
{
    let v = chars_of(s);
    parse_bitmap_chars(&v)
}

/// The bitmap that the characters `v` print, word 0 lowest.
pub fn parse_bitmap_chars(v: &Vec<char>) -> (r: Vec<u64>)
    ensures
        r@ == bitmap_words(v@),
{
    let ws = words_of(v);
    let ghost wv = text::views(ws@);
    let mut vals: Vec<u64> = Vec::new();
    let mut i: usize = 0;
    while i < ws.len()
        invariant
            i <= ws.len(),
            wv == text::views(ws@),
            vals@ == hex_values(wv.take(i as int)),
        decreases ws.len() - i,
    {
        proof {
            assert(wv.take(i + 1).drop_last() =~= wv.take(i as int));
            assert(wv.take(i + 1).last() == ws@[i as int]@);
        }
        match parse_unsigned_of(&ws[i], 16, u64::MAX) {
            Some(x) => vals.push(x),
            None => {},
        }
        i += 1;
    }
    proof {
        assert(wv.take(ws.len() as int) =~= wv);
    }
    let mut r: Vec<u64> = Vec::new();
    let mut k: usize = vals.len();
    while k > 0
        invariant
            k <= vals.len(),
            r@ == vals@.subrange(k as int, vals.len() as int).reverse(),
        decreases k,
    {
        k -= 1;
        r.push(vals[k]);
        proof {
            assert(vals@.subrange(k as int, vals.len() as int).reverse() =~= vals@.subrange(
                k + 1,
                vals.len() as int,
            ).reverse().push(vals@[k as int]));
        }
    }
    assert(vals@.subrange(0, vals.len() as int) =~= vals@);
    r
}

// ---------------------------------------------------------------------------
// /proc/bus/input/devices.
// ---------------------------------------------------------------------------

/// One device block of `/proc/bus/input/devices`.
pub struct InputDev {
    pub name: String,
    pub handlers: Vec<String>,
    pub ev: Vec<u64>,
    pub key: Vec<u64>,
    pub sw: Vec<u64>,
}

/// `InputDev` as plain values.
pub struct InputDevView {
    pub name: Seq<char>,
    pub handlers: Seq<Seq<char>>,
    pub ev: Seq<u64>,
    pub key: Seq<u64>,
    pub sw: Seq<u64>,
}

impl View for InputDev {
    type V = InputDevView;

    open spec fn view(&self) -> InputDevView {
        InputDevView {
            name: self.name@,
            handlers: self.handlers@.map_values(|h: String| h@),
            ev: self.ev@,
            key: self.key@,
            sw: self.sw@,
        }
    }
}

/// A device block with nothing read yet.
pub open spec fn empty_dev() -> InputDevView {
    InputDevView {
        name: Seq::empty(),
        handlers: Seq::empty(),
        ev: Seq::empty(),
        key: Seq::empty(),
        sw: Seq::empty(),
    }
}

/// A device block that holds a name or a handler.
pub open spec fn dev_started(d: InputDevView) -> bool {
    d.name.len() > 0 || d.handlers.len() > 0
}

/// The device block `cur` after reading the line `l`.
pub open spec fn read_dev_line(cur: InputDevView, l: Seq<char>) -> InputDevView {
    if text::starts_with(l, "N: Name="@) {
        InputDevView { name: l.skip("N: Name="@.len() as int), ..cur }
    } else if text::starts_with(l, "H: Handlers="@) {
        InputDevView { handlers: text::words(l.skip("H: Handlers="@.len() as int)), ..cur }
    } else if text::starts_with(l, "B: EV="@) {
        InputDevView { ev: bitmap_words(l.skip("B: EV="@.len() as int)), ..cur }
    } else if text::starts_with(l, "B: KEY="@) {
        InputDevView { key: bitmap_words(l.skip("B: KEY="@.len() as int)), ..cur }
    } else if text::starts_with(l, "B: SW="@) {
        InputDevView { sw: bitmap_words(l.skip("B: SW="@.len() as int)), ..cur }
    } else {
        cur
    }
}

/// The devices ended so far and the block in progress after the lines `ls`;
/// a blank line ends a block that holds a name or a handler.
pub open spec fn devices_state(ls: Seq<Seq<char>>) -> (Seq<InputDevView>, InputDevView)
    decreases ls.len(),
{
    if ls.len() == 0 {
        (Seq::empty(), empty_dev())
    } else {
        let (devs, cur) = devices_state(ls.drop_last());
        let l = ls.last();
        if text::trim(l).len() == 0 {
            if dev_started(cur) {
                (devs.push(cur), empty_dev())
            } else {
                (devs, cur)
            }
        } else {
            (devs, read_dev_line(cur, l))
        }
    }
}

/// The devices that the text of `/proc/bus/input/devices` describes.
pub open spec fn input_devices(text: Seq<char>) -> Seq<InputDevView> {
    let (devs, cur) = devices_state(text::lines(text));
    if dev_started(cur) {
        devs.push(cur)
    } else {
        devs
    }
}

/// The views of a list of devices.
pub open spec fn dev_views(v: Seq<InputDev>) -> Seq<InputDevView> {
    v.map_values(|d: InputDev| d@)
}

fn new_dev() -> (d: InputDev)
    ensures
        d@ == empty_dev(),
{
    let d = InputDev {
        name: String::new(),
        handlers: Vec::new(),
        ev: Vec::new(),
        key: Vec::new(),
        sw: Vec::new(),
    };
    assert(d@.handlers =~= Seq::<Seq<char>>::empty());
    d
}

/// The strings made of a list of character vectors.
fn strings_of(v: &Vec<Vec<char>>) -> (r: Vec<String>)
    ensures
        r@.map_values(|h: String| h@) == text::views(v@),
{
    let mut r: Vec<String> = Vec::new();
    let mut i: usize = 0;
    while i < v.len()
        invariant
            i <= v.len(),
            r@.map_values(|h: String| h@) == text::views(v@).take(i as int),
        decreases v.len() - i,
    {
        let s = string_of(&v[i]);
        proof {
            assert(r@.push(s).map_values(|h: String| h@) =~= r@.map_values(|h: String| h@).push(
                s@,
            ));
            assert(text::views(v@).take(i + 1) =~= text::views(v@).take(i as int).push(
                v@[i as int]@,
            ));
        }
        r.push(s);
        i += 1;
    }
    assert(text::views(v@).take(v.len() as int) =~= text::views(v@));
    r
}

/// Reads one non-blank line into the device block `cur`.
fn read_line_into(cur: &mut InputDev, l: &Vec<char>)
    ensures
        final(cur)@ == read_dev_line(old(cur)@, l@),
{
    let name = chars_of("N: Name=");
    let handlers = chars_of("H: Handlers=");
    let ev = chars_of("B: EV=");
    let key = chars_of("B: KEY=");
    let sw = chars_of("B: SW=");
    if has_prefix(l, &name) {
        cur.name = string_of(&skip_vec(l, name.len()));
    } else if has_prefix(l, &handlers) {
        let ws = words_of(&skip_vec(l, handlers.len()));
        cur.handlers = strings_of(&ws);
    } else if has_prefix(l, &ev) {
        cur.ev = parse_bitmap_chars(&skip_vec(l, ev.len()));
    } else if has_prefix(l, &key) {
        cur.key = parse_bitmap_chars(&skip_vec(l, key.len()));
    } else if has_prefix(l, &sw) {
        cur.sw = parse_bitmap_chars(&skip_vec(l, sw.len()));
    }
}

proof fn lemma_devices_step(ls: Seq<Seq<char>>, i: int)
    requires
        0 <= i < ls.len(),
    ensures
        devices_state(ls.take(i + 1)) == ({
            let (devs, cur) = devices_state(ls.take(i));
            if text::trim(ls[i]).len() == 0 {
                if dev_started(cur) {
                    (devs.push(cur), empty_dev())
                } else {
                    (devs, cur)
                }
            } else {
                (devs, read_dev_line(cur, ls[i]))
            }
        }),
{
    assert(ls.take(i + 1).drop_last() =~= ls.take(i));
    assert(ls.take(i + 1).last() == ls[i]);
}

/// The devices that the text of `/proc/bus/input/devices` describes.
pub fn parse_input_devices(text: &str) -> (r: Vec<InputDev>)
    ensures
        dev_views(r@) == input_devices(text@),
{
    let v = chars_of(text);
    let ls = lines_of(&v);
    let ghost lv = text::views(ls@);
    let mut devs: Vec<InputDev> = Vec::new();
    let mut cur = new_dev();
    let mut i: usize = 0;
    while i < ls.len()
        invariant
            i <= ls.len(),
            lv == text::views(ls@),
            (dev_views(devs@), cur@) == devices_state(lv.take(i as int)),
        decreases ls.len() - i,
    {
        proof {
            lemma_devices_step(lv, i as int);
        }
        assert(lv[i as int] == ls@[i as int]@);
        let (a, b) = trim_bounds(&ls[i]);
        if a == b {
            if cur.name.as_str().unicode_len() > 0 || cur.handlers.len() > 0 {
                let done = cur;
                cur = new_dev();
                proof {
                    assert(dev_views(devs@.push(done)) =~= dev_views(devs@).push(done@));
                }
                devs.push(done);
            }
        } else {
            read_line_into(&mut cur, &ls[i]);
        }
        i += 1;
    }
    proof {
        assert(lv.take(ls.len() as int) =~= lv);
    }
    if cur.name.as_str().unicode_len() > 0 || cur.handlers.len() > 0 {
        proof {
            assert(dev_views(devs@.push(cur)) =~= dev_views(devs@).push(cur@));
        }
        devs.push(cur);
    }
    devs
}

/// The first handler of `d` named `event*`.
pub open spec fn event_handler(handlers: Seq<Seq<char>>) -> Option<Seq<char>>
    decreases handlers.len(),
{
    if handlers.len() == 0 {
        None
    } else {
        match event_handler(handlers.drop_last()) {
            Some(h) => Some(h),
            None => if text::starts_with(handlers.last(), "event"@) {
                Some(handlers.last())
            } else {
                None
            },
        }
    }
}

/// The event device node of a device: `/dev/input/` and its first `event*`
/// handler.
pub open spec fn event_node_spec(d: InputDevView) -> Option<Seq<char>> {
    match event_handler(d.handlers) {
        Some(h) => Some("/dev/input/"@ + h),
        None => None,
    }
}

/// The event device node of `dev`.
pub fn event_node(dev: &InputDev) -> (r: Option<String>)
    ensures
        r matches Some(n) ==> event_node_spec(dev@) == Some(n@),
        r is None ==> event_node_spec(dev@) is None,
{
    let ghost hv = dev@.handlers;
    let ev = chars_of("event");
    let mut i: usize = 0;
    while i < dev.handlers.len()
        invariant
            i <= dev.handlers.len(),
            hv == dev@.handlers,
            ev@ == "event"@,
            event_handler(hv.take(i as int)) is None,
        decreases dev.handlers.len() - i,
    {
        let h = chars_of(dev.handlers[i].as_str());
        assert(hv[i as int] == dev.handlers@[i as int]@);
        proof {
            lemma_event_handler_step(hv, i as int);
        }
        assert(hv[i as int] == h@);
        if has_prefix(&h, &ev) {
            proof {
                lemma_event_handler_extend(hv, i + 1);
            }
            return Some(concat2("/dev/input/", dev.handlers[i].as_str()));
        }
        i += 1;
    }
    assert(hv.take(i as int) =~= hv);
    None
}

proof fn lemma_event_handler_step(hs: Seq<Seq<char>>, i: int)
    requires
        0 <= i < hs.len(),
    ensures
        event_handler(hs.take(i + 1)) == (match event_handler(hs.take(i)) {
            Some(h) => Some(h),
            None => if text::starts_with(hs[i], "event"@) {
                Some(hs[i])
            } else {
                None
            },
        }),
{
    let t = hs.take(i + 1);
    assert(t.drop_last() =~= hs.take(i));
    assert(t.last() == hs[i]);
}

proof fn lemma_event_handler_extend(hs: Seq<Seq<char>>, k: int)
    requires
        0 <= k <= hs.len(),
        event_handler(hs.take(k)) is Some,
    ensures
        event_handler(hs) == event_handler(hs.take(k)),
    decreases hs.len(),
{
    if k < hs.len() {
        assert(hs.drop_last().take(k) =~= hs.take(k));
        lemma_event_handler_extend(hs.drop_last(), k);
    } else {
        assert(hs.take(k) =~= hs);
    }
}

/// The power-key and lid-switch nodes after looking through `devs`, the
/// nodes known before being `power` and `lid`: a node not yet known becomes
/// that of the first device with an event node that has the capability.
pub open spec fn devices_found(
    devs: Seq<InputDevView>,
    power: Option<Seq<char>>,
    lid: Option<Seq<char>>,
) -> (Option<Seq<char>>, Option<Seq<char>>)
    decreases devs.len(),
{
    if devs.len() == 0 {
        (power, lid)
    } else {
        let (p, l) = devices_found(devs.drop_last(), power, lid);
        let d = devs.last();
        match event_node_spec(d) {
            None => (p, l),
            Some(node) => (
                if p is None && bitmap_bit(d.key, KEY_POWER as int) {
                    Some(node)
                } else {
                    p
                },
                if l is None && bitmap_bit(d.ev, EV_SW as int) && bitmap_bit(d.sw, SW_LID as int) {
                    Some(node)
                } else {
                    l
                },
            ),
        }
    }
}

/// A device that can serve as the power key: it has an event node and
/// reports KEY_POWER.
pub open spec fn is_power_key(d: InputDevView) -> bool {
    event_node_spec(d) is Some && bitmap_bit(d.key, KEY_POWER as int)
}

/// A device that can serve as the lid switch: it has an event node and
/// reports the switch event type with SW_LID.
pub open spec fn is_lid_switch(d: InputDevView) -> bool {
    event_node_spec(d) is Some && bitmap_bit(d.ev, EV_SW as int) && bitmap_bit(d.sw, SW_LID as int)
}

/// A power-key node already known is kept. Otherwise the node found is that
/// of the first device in the list that has an event node and KEY_POWER,
/// and none is found when no device has both.
pub proof fn lemma_first_power_key(
    devs: Seq<InputDevView>,
    power: Option<Seq<char>>,
    lid: Option<Seq<char>>,
)
    ensures
        power is Some ==> devices_found(devs, power, lid).0 == power,
        power is None && (forall|j: int| 0 <= j < devs.len() ==> !is_power_key(#[trigger] devs[j]))
            ==> devices_found(devs, power, lid).0 is None,
        forall|i: int|
            #![trigger is_power_key(devs[i])]
            power is None && 0 <= i < devs.len() && is_power_key(devs[i]) && (forall|j: int|
                0 <= j < i ==> !is_power_key(#[trigger] devs[j])) ==> devices_found(devs, power, lid).0
                == event_node_spec(devs[i]),
    decreases devs.len(),
{
    if devs.len() > 0 {
        let n = devs.len() - 1;
        let init = devs.drop_last();
        lemma_first_power_key(init, power, lid);
        assert forall|j: int| 0 <= j < n implies init[j] == devs[j] by {}
        assert forall|i: int|
            power is None && 0 <= i < devs.len() && is_power_key(devs[i]) && (forall|j: int|
                0 <= j < i ==> !is_power_key(#[trigger] devs[j])) implies devices_found(devs, power, lid).0
                == event_node_spec(devs[i]) by {
            if i < n {
                assert(init[i] == devs[i]);
                assert forall|j: int| 0 <= j < i implies !is_power_key(#[trigger] init[j]) by {
                    assert(init[j] == devs[j]);
                }
                assert(is_power_key(init[i]));
            } else {
                assert forall|j: int| 0 <= j < init.len() implies !is_power_key(#[trigger] init[j]) by {
                    assert(init[j] == devs[j]);
                }
            }
        }
        if forall|j: int| 0 <= j < devs.len() ==> !is_power_key(#[trigger] devs[j]) {
            assert forall|j: int| 0 <= j < init.len() implies !is_power_key(#[trigger] init[j]) by {
                assert(init[j] == devs[j]);
            }
            assert(!is_power_key(devs[n]));
        }
    }
}

/// A lid-switch node already known is kept. Otherwise the node found is
/// that of the first device in the list that has an event node and reports
/// SW_LID, and none is found when no device does.
pub proof fn lemma_first_lid_switch(
    devs: Seq<InputDevView>,
    power: Option<Seq<char>>,
    lid: Option<Seq<char>>,
)
    ensures
        lid is Some ==> devices_found(devs, power, lid).1 == lid,
        lid is None && (forall|j: int| 0 <= j < devs.len() ==> !is_lid_switch(#[trigger] devs[j]))
            ==> devices_found(devs, power, lid).1 is None,
        forall|i: int|
            #![trigger is_lid_switch(devs[i])]
            lid is None && 0 <= i < devs.len() && is_lid_switch(devs[i]) && (forall|j: int|
                0 <= j < i ==> !is_lid_switch(#[trigger] devs[j])) ==> devices_found(devs, power, lid).1
                == event_node_spec(devs[i]),
    decreases devs.len(),
{
    if devs.len() > 0 {
        let n = devs.len() - 1;
        let init = devs.drop_last();
        lemma_first_lid_switch(init, power, lid);
        assert forall|i: int|
            lid is None && 0 <= i < devs.len() && is_lid_switch(devs[i]) && (forall|j: int|
                0 <= j < i ==> !is_lid_switch(#[trigger] devs[j])) implies devices_found(devs, power, lid).1
                == event_node_spec(devs[i]) by {
            if i < n {
                assert(init[i] == devs[i]);
                assert forall|j: int| 0 <= j < i implies !is_lid_switch(#[trigger] init[j]) by {
                    assert(init[j] == devs[j]);
                }
                assert(is_lid_switch(init[i]));
            } else {
                assert forall|j: int| 0 <= j < init.len() implies !is_lid_switch(#[trigger] init[j]) by {
                    assert(init[j] == devs[j]);
                }
            }
        }
        if forall|j: int| 0 <= j < devs.len() ==> !is_lid_switch(#[trigger] devs[j]) {
            assert forall|j: int| 0 <= j < init.len() implies !is_lid_switch(#[trigger] init[j]) by {
                assert(init[j] == devs[j]);
            }
            assert(!is_lid_switch(devs[n]));
        }
    }
}

/// The view of an optional string.
pub open spec fn opt_view(s: Option<String>) -> Option<Seq<char>> {
    match s {
        Some(x) => Some(x@),
        None => None,
    }
}

/// The power-key and lid-switch nodes after looking through `devs`.
pub fn find_devices(devs: &Vec<InputDev>, power: Option<String>, lid: Option<String>) -> (r: (
    Option<String>,
    Option<String>,
))
    ensures
        (opt_view(r.0), opt_view(r.1)) == devices_found(dev_views(devs@), opt_view(power), opt_view(lid)),
{
    let ghost dv = dev_views(devs@);
    let ghost p0 = opt_view(power);
    let ghost l0 = opt_view(lid);
    let mut p = power;
    let mut l = lid;
    let mut i: usize = 0;
    while i < devs.len()
        invariant
            i <= devs.len(),
            dv == dev_views(devs@),
            (opt_view(p), opt_view(l)) == devices_found(dv.take(i as int), p0, l0),
        decreases devs.len() - i,
    {
        let d = &devs[i];
        proof {
            assert(dv.take(i + 1).drop_last() =~= dv.take(i as int));
            assert(dv.take(i + 1).last() == d@);
        }
        match event_node(d) {
            None => {},
            Some(node) => {
                if p.is_none() && bitmap_has(&d.key, KEY_POWER) {
                    p = Some(node.clone());
                }
                if l.is_none() && bitmap_has(&d.ev, EV_SW) && bitmap_has(&d.sw, SW_LID) {
                    l = Some(node);
                }
            },
        }
        i += 1;
    }
    assert(dv.take(devs.len() as int) =~= dv);
    (p, l)
}

// ---------------------------------------------------------------------------
// Keyboards and pointers, from udev properties.
// ---------------------------------------------------------------------------

/// Pointer properties of mice, touchpads and pointing sticks.
pub open spec fn other_pointer_props() -> Seq<Seq<char>> {
    seq!["ID_INPUT_MOUSE"@, "ID_INPUT_TOUCHPAD"@, "ID_INPUT_POINTINGSTICK"@]
}

/// One entry of `/sys/class/input` with its udev properties.
pub struct UdevDevice {
    /// The entry name, such as `event3`.
    pub name: String,
    /// What `udevadm info -q property` printed for it, if it could be run.
    pub properties: Option<String>,
}

/// `UdevDevice` as plain values.
pub struct UdevDeviceView {
    pub name: Seq<char>,
    pub properties: Option<Seq<char>>,
}

impl View for UdevDevice {
    type V = UdevDeviceView;

    open spec fn view(&self) -> UdevDeviceView {
        UdevDeviceView { name: self.name@, properties: opt_view(self.properties) }
    }
}

/// The views of a list of udev entries.
pub open spec fn udev_views(v: Seq<UdevDevice>) -> Seq<UdevDeviceView> {
    v.map_values(|d: UdevDevice| d@)
}

/// An entry name of an event device.
pub open spec fn is_event_name(name: Seq<char>) -> bool {
    text::starts_with(name, "event"@)
}

/// Whether `name` is that of an event device, whose udev properties are
/// worth reading.
pub fn is_event_entry(name: &str) -> (r: bool)
    ensures
        r == is_event_name(name@),
{
    text::str_starts_with(name, "event")
}

/// A line `KEY=1` with `KEY` among `keys`.
pub open spec fn flag_line(line: Seq<char>, keys: Seq<Seq<char>>) -> bool {
    match text::split_once(line, '=') {
        Some((k, v)) => keys.contains(k) && v == "1"@,
        None => false,
    }
}

/// The properties `out` set one of `keys` to 1.
pub open spec fn has_flag(out: Seq<char>, keys: Seq<Seq<char>>) -> bool {
    exists|i: int| 0 <= i < text::lines(out).len() && flag_line(#[trigger] text::lines(out)[i], keys)
}

/// An event device whose properties set one of `keys` to 1.
pub open spec fn matches_keys(d: UdevDeviceView, keys: Seq<Seq<char>>) -> bool {
    is_event_name(d.name) && (d.properties matches Some(out) && has_flag(out, keys))
}

/// The names of the entries that match `keys`, in order.
pub open spec fn matching_names(ds: Seq<UdevDeviceView>, keys: Seq<Seq<char>>) -> Seq<Seq<char>>
    decreases ds.len(),
{
    if ds.len() == 0 {
        Seq::empty()
    } else {
        let r = matching_names(ds.drop_last(), keys);
        if matches_keys(ds.last(), keys) {
            r.push(ds.last().name)
        } else {
            r
        }
    }
}

/// Whether the property line `line` sets one of `keys` to 1.
fn line_flags(line: &Vec<char>, keys: &[&str]) -> (r: bool)
    ensures
        r == flag_line(line@, crate::command::str_views(keys@)),
{
    let ghost kv = crate::command::str_views(keys@);
    match split_once_of(line, '=') {
        Some((k, v)) => {
            let ks = string_of(&k);
            let vs = string_of(&v);
            let mut found = false;
            let mut j: usize = 0;
            while j < keys.len()
                invariant
                    j <= keys@.len(),
                    kv == crate::command::str_views(keys@),
                    found == (exists|m: int| 0 <= m < j && kv[m] == k@),
                    ks@ == k@,
                decreases keys@.len() - j,
            {
                assert(kv[j as int] == keys@[j as int]@);
                if text::str_eq(ks.as_str(), keys[j]) {
                    found = true;
                }
                j += 1;
            }
            found && text::str_eq(vs.as_str(), "1")
        },
        None => false,
    }
}

/// Whether the properties `out` set one of `keys` to 1.
pub fn has_flag_in(out: &str, keys: &[&str]) -> (r: bool)
    ensures
        r == has_flag(out@, crate::command::str_views(keys@)),
{
    let v = chars_of(out);
    let ls = lines_of(&v);
    let ghost lv = text::views(ls@);
    let ghost kv = crate::command::str_views(keys@);
    let mut i: usize = 0;
    while i < ls.len()
        invariant
            i <= ls.len(),
            lv == text::views(ls@),
            lv == text::lines(out@),
            kv == crate::command::str_views(keys@),
            forall|j: int| 0 <= j < i ==> !flag_line(#[trigger] lv[j], kv),
        decreases ls.len() - i,
    {
        assert(lv[i as int] == ls@[i as int]@);
        if line_flags(&ls[i], keys) {
            return true;
        }
        i += 1;
    }
    false
}

/// The names of the event devices among `entries` whose properties set one
/// of `props` to 1.
pub fn find_pointer_events(entries: &Vec<UdevDevice>, props: &[&str]) -> (r: Vec<String>)
    ensures
        crate::command::string_views(r@) == matching_names(
            udev_views(entries@),
            crate::command::str_views(props@),
        ),
{
    let ghost dv = udev_views(entries@);
    let ghost kv = crate::command::str_views(props@);
    let mut r: Vec<String> = Vec::new();
    let mut i: usize = 0;
    while i < entries.len()
        invariant
            i <= entries.len(),
            dv == udev_views(entries@),
            kv == crate::command::str_views(props@),
            crate::command::string_views(r@) == matching_names(dv.take(i as int), kv),
        decreases entries.len() - i,
    {
        let e = &entries[i];
        proof {
            assert(dv.take(i + 1).drop_last() =~= dv.take(i as int));
            assert(dv.take(i + 1).last() == e@);
        }
        let matched = is_event_entry(e.name.as_str()) && match &e.properties {
            Some(out) => has_flag_in(out.as_str(), props),
            None => false,
        };
        if matched {
            let nm = e.name.clone();
            proof {
                assert(crate::command::string_views(r@.push(nm)) =~= crate::command::string_views(
                    r@,
                ).push(e.name@));
            }
            r.push(nm);
        }
        i += 1;
    }
    assert(dv.take(entries.len() as int) =~= dv);
    r
}

/// The paths `/dev/input/<name>` of `names`.
pub open spec fn input_paths(names: Seq<Seq<char>>) -> Seq<Seq<char>> {
    names.map_values(|n: Seq<char>| "/dev/input/"@ + n)
}

/// `/dev/input/<name>` for each of `names`.
fn to_input_paths(names: &Vec<String>) -> (r: Vec<String>)
    ensures
        crate::command::string_views(r@) == input_paths(crate::command::string_views(names@)),
{
    let ghost nv = crate::command::string_views(names@);
    let mut r: Vec<String> = Vec::new();
    let mut i: usize = 0;
    while i < names.len()
        invariant
            i <= names.len(),
            nv == crate::command::string_views(names@),
            crate::command::string_views(r@) == input_paths(nv.take(i as int)),
        decreases names.len() - i,
    {
        let p = concat2("/dev/input/", names[i].as_str());
        proof {
            assert(crate::command::string_views(r@.push(p)) =~= crate::command::string_views(
                r@,
            ).push(p@));
            assert(input_paths(nv.take(i + 1)) =~= input_paths(nv.take(i as int)).push(
                "/dev/input/"@ + nv[i as int],
            ));
        }
        r.push(p);
        i += 1;
    }
    assert(nv.take(names.len() as int) =~= nv);
    r
}

/// The device paths of the keyboards among `entries`.
pub fn find_keyboard_paths(entries: &Vec<UdevDevice>) -> (r: Vec<String>)
    ensures
        crate::command::string_views(r@) == input_paths(
            matching_names(udev_views(entries@), seq!["ID_INPUT_KEYBOARD"@]),
        ),
{
    let keys = vec!["ID_INPUT_KEYBOARD"];
    assert(crate::command::str_views(keys@) =~= seq!["ID_INPUT_KEYBOARD"@]);
    let names = find_pointer_events(entries, keys.as_slice());
    to_input_paths(&names)
}

/// The device paths of the mice, touchpads and pointing sticks among
/// `entries`.
pub fn find_pointer_paths(entries: &Vec<UdevDevice>) -> (r: Vec<String>)
    ensures
        crate::command::string_views(r@) == input_paths(
            matching_names(udev_views(entries@), other_pointer_props()),
        ),
{
    let keys = vec!["ID_INPUT_MOUSE", "ID_INPUT_TOUCHPAD", "ID_INPUT_POINTINGSTICK"];
    assert(crate::command::str_views(keys@) =~= other_pointer_props());
    let names = find_pointer_events(entries, keys.as_slice());
    to_input_paths(&names)
}

/// The names `ws` joined with commas.
pub open spec fn join_commas(ws: Seq<Seq<char>>) -> Seq<char>
    decreases ws.len(),
{
    if ws.len() == 0 {
        Seq::empty()
    } else if ws.len() == 1 {
        ws[0]
    } else {
        join_commas(ws.drop_last()) + seq![','] + ws.last()
    }
}

/// The event entries among `names`, in order.
pub open spec fn event_names(names: Seq<Seq<char>>) -> Seq<Seq<char>>
    decreases names.len(),
{
    if names.len() == 0 {
        Seq::empty()
    } else if is_event_name(names.last()) {
        event_names(names.drop_last()).push(names.last())
    } else {
        event_names(names.drop_last())
    }
}

/// A fingerprint of the present event devices: the `event*` names among the
/// sorted entry names `names`, joined with commas.
pub fn input_events_snapshot(names: &Vec<String>) -> (r: String)
    ensures
        r@ == join_commas(event_names(crate::command::string_views(names@))),
{
    let ghost nv = crate::command::string_views(names@);
    let mut r = String::new();
    let mut count: usize = 0;
    let mut i: usize = 0;
    while i < names.len()
        invariant
            i <= names.len(),
            nv == crate::command::string_views(names@),
            r@ == join_commas(event_names(nv.take(i as int))),
            count == event_names(nv.take(i as int)).len(),
            count <= i,
        decreases names.len() - i,
    {
        let ghost en = event_names(nv.take(i as int));
        proof {
            assert(nv.take(i + 1).drop_last() =~= nv.take(i as int));
            assert(nv.take(i + 1).last() == nv[i as int]);
            assert(nv[i as int] == names@[i as int]@);
            reveal_strlit(",");
        }
        if is_event_entry(names[i].as_str()) {
            assert(event_names(nv.take(i + 1)) == en.push(nv[i as int]));
            if count > 0 {
                r.append(",");
                assert(en.push(nv[i as int]).drop_last() =~= en);
            } else {
                assert(en.push(nv[i as int]) =~= seq![nv[i as int]]);
            }
            r.append(names[i].as_str());
            count += 1;
        }
        i += 1;
    }
    assert(nv.take(names.len() as int) =~= nv);
    r
}

// ---------------------------------------------------------------------------
// Reconciling the watched devices.
// ---------------------------------------------------------------------------

/// The positions, in order, of the watched paths that are no longer found.
pub open spec fn to_close(watched: Seq<Seq<char>>, found: Seq<Seq<char>>) -> Seq<int>
    decreases watched.len(),
{
    if watched.len() == 0 {
        Seq::empty()
    } else {
        let r = to_close(watched.drop_last(), found);
        if found.contains(watched.last()) {
            r
        } else {
            r.push(watched.len() - 1)
        }
    }
}

/// The found paths, in order and each once, that are not watched yet.
pub open spec fn to_open(found: Seq<Seq<char>>, watched: Seq<Seq<char>>) -> Seq<Seq<char>>
    decreases found.len(),
{
    if found.len() == 0 {
        Seq::empty()
    } else {
        let r = to_open(found.drop_last(), watched);
        let p = found.last();
        if watched.contains(p) || r.contains(p) {
            r
        } else {
            r.push(p)
        }
    }
}

/// What to change in the watched devices.
pub struct RescanPlan {
    /// Positions in the watched list of the devices to close, ascending.
    pub close: Vec<usize>,
    /// Paths of the devices to open, in order.
    pub open: Vec<String>,
}

/// Reconciles the watched device paths `watched` with the paths `found`
/// now: close those that disappeared, open those that appeared.
pub fn rescan_input_devices(watched: &Vec<String>, found: &Vec<String>) -> (r: RescanPlan)
    ensures
        r.close@.map_values(|k: usize| k as int) == to_close(
            crate::command::string_views(watched@),
            crate::command::string_views(found@),
        ),
        crate::command::string_views(r.open@) == to_open(
            crate::command::string_views(found@),
            crate::command::string_views(watched@),
        ),
{
    let ghost wv = crate::command::string_views(watched@);
    let ghost fv = crate::command::string_views(found@);
    let mut close: Vec<usize> = Vec::new();
    let mut i: usize = 0;
    while i < watched.len()
        invariant
            i <= watched.len(),
            wv == crate::command::string_views(watched@),
            fv == crate::command::string_views(found@),
            close@.map_values(|k: usize| k as int) == to_close(wv.take(i as int), fv),
        decreases watched.len() - i,
    {
        proof {
            assert(wv.take(i + 1).drop_last() =~= wv.take(i as int));
            assert(wv.take(i + 1).last() == wv[i as int]);
        }
        if !contains_string(found, watched[i].as_str()) {
            proof {
                assert(close@.push(i).map_values(|k: usize| k as int) =~= close@.map_values(
                    |k: usize| k as int,
                ).push(i as int));
            }
            close.push(i);
        }
        i += 1;
    }
    assert(wv.take(watched.len() as int) =~= wv);
    let mut open: Vec<String> = Vec::new();
    let mut j: usize = 0;
    while j < found.len()
        invariant
            j <= found.len(),
            wv == crate::command::string_views(watched@),
            fv == crate::command::string_views(found@),
            crate::command::string_views(open@) == to_open(fv.take(j as int), wv),
        decreases found.len() - j,
    {
        proof {
            assert(fv.take(j + 1).drop_last() =~= fv.take(j as int));
            assert(fv.take(j + 1).last() == fv[j as int]);
        }
        let p = found[j].as_str();
        if !contains_string(watched, p) && !contains_string(&open, p) {
            let q = found[j].clone();
            proof {
                assert(crate::command::string_views(open@.push(q)) =~= crate::command::string_views(
                    open@,
                ).push(fv[j as int]));
            }
            open.push(q);
        }
        j += 1;
    }
    assert(fv.take(found.len() as int) =~= fv);
    RescanPlan { close, open }
}

/// Whether `s` is among `v`.
pub fn contains_string(v: &Vec<String>, s: &str) -> (r: bool)
    ensures
        r == crate::command::string_views(v@).contains(s@),
{
    let ghost sv = crate::command::string_views(v@);
    let mut i: usize = 0;
    while i < v.len()
        invariant
            i <= v.len(),
            sv == crate::command::string_views(v@),
            forall|j: int| 0 <= j < i ==> sv[j] != s@,
        decreases v.len() - i,
    {
        if text::str_eq(v[i].as_str(), s) {
            assert(sv[i as int] == s@);
            return true;
        }
        i += 1;
    }
    false
}

proof fn lemma_push_contains(s: Seq<Seq<char>>, x: Seq<char>, y: Seq<char>)
    ensures
        s.push(x).contains(y) <==> (s.contains(y) || x == y),
{
    if s.contains(y) {
        let k = choose|k: int| 0 <= k < s.len() && s[k] == y;
        assert(s.push(x)[k] == y);
    }
    if x == y {
        assert(s.push(x)[s.len() as int] == y);
    }
    if s.push(x).contains(y) {
        let k = choose|k: int| 0 <= k < s.push(x).len() && s.push(x)[k] == y;
        if k < s.len() {
            assert(s[k] == y);
        }
    }
}

proof fn lemma_to_open(found: Seq<Seq<char>>, watched: Seq<Seq<char>>)
    ensures
        forall|p: Seq<char>|
            #![auto]
            to_open(found, watched).contains(p) <==> (found.contains(p) && !watched.contains(p)),
        to_open(found, watched).no_duplicates(),
    decreases found.len(),
{
    if found.len() > 0 {
        let f0 = found.drop_last();
        let r = to_open(f0, watched);
        let x = found.last();
        lemma_to_open(f0, watched);
        assert(found =~= f0.push(x));
        assert forall|p: Seq<char>| #![auto] found.contains(p) <==> (f0.contains(p) || x == p) by {
            lemma_push_contains(f0, x, p);
        }
        if !(watched.contains(x) || r.contains(x)) {
            assert forall|p: Seq<char>| #![auto] r.push(x).contains(p) <==> (r.contains(p) || x == p) by {
                lemma_push_contains(r, x, p);
            }
            assert forall|i: int, j: int|
                0 <= i < r.push(x).len() && 0 <= j < r.push(x).len() && i != j implies r.push(x)[i]
                != r.push(x)[j] by {
                if i < r.len() && j < r.len() {
                } else if i < r.len() {
                    assert(r[i] == r.push(x)[i]);
                } else if j < r.len() {
                    assert(r[j] == r.push(x)[j]);
                }
            }
        }
    }
}

proof fn lemma_to_close(watched: Seq<Seq<char>>, found: Seq<Seq<char>>)
    ensures
        forall|k: int|
            0 <= k < to_close(watched, found).len() ==> 0 <= #[trigger] to_close(watched, found)[k]
                < watched.len() && !found.contains(watched[to_close(watched, found)[k]]),
        forall|j: int|
            0 <= j < watched.len() && !found.contains(#[trigger] watched[j]) ==> to_close(
                watched,
                found,
            ).contains(j),
    decreases watched.len(),
{
    if watched.len() > 0 {
        let w0 = watched.drop_last();
        lemma_to_close(w0, found);
        let r = to_close(w0, found);
        assert forall|j: int|
            0 <= j < watched.len() && !found.contains(#[trigger] watched[j]) implies to_close(
            watched,
            found,
        ).contains(j) by {
            if j < w0.len() {
                assert(w0[j] == watched[j]);
                let k = choose|k: int| 0 <= k < r.len() && r[k] == j;
                if !found.contains(watched.last()) {
                    assert(r.push(watched.len() - 1)[k] == j);
                }
            } else {
                assert(r.push(watched.len() - 1)[r.len() as int] == j);
            }
        }
        assert forall|k: int|
            0 <= k < to_close(watched, found).len() implies 0 <= #[trigger] to_close(watched, found)[k]
            < watched.len() && !found.contains(watched[to_close(watched, found)[k]]) by {
            if k < r.len() {
                assert(to_close(watched, found)[k] == r[k]);
                assert(w0[r[k]] == watched[r[k]]);
            }
        }
    }
}

/// Reconciling the watched devices with the found ones leaves exactly the
/// found ones watched: the devices closed are the watched ones that are no
/// longer found, the devices opened are the found ones not watched yet, each
/// once, so that the watched ones kept and the ones opened are together the
/// found ones.
pub proof fn lemma_rescan_reconciles(watched: Seq<Seq<char>>, found: Seq<Seq<char>>)
    ensures
        forall|k: int|
            0 <= k < to_close(watched, found).len() ==> 0 <= #[trigger] to_close(watched, found)[k]
                < watched.len() && !found.contains(watched[to_close(watched, found)[k]]),
        forall|j: int|
            0 <= j < watched.len() && !found.contains(#[trigger] watched[j]) ==> to_close(
                watched,
                found,
            ).contains(j),
        to_open(found, watched).no_duplicates(),
        forall|p: Seq<char>|
            #![auto]
            found.contains(p) <==> ((watched.contains(p) && found.contains(p)) || to_open(
                found,
                watched,
            ).contains(p)),
        forall|p: Seq<char>| #![auto] to_open(found, watched).contains(p) ==> !watched.contains(p),
{
    lemma_to_open(found, watched);
    lemma_to_close(watched, found);
}

/// Reads the udev properties of the input device `name`:
/// `udevadm info -q property -n /dev/input/<name>`, 5 s.
pub fn udev_properties_plan(name: &str) -> (p: CmdPlan)
    ensures
        crate::command::plain_plan(
            p,
            "udevadm"@,
            seq!["info"@, "-q"@, "property"@, "-n"@, "/dev/input/"@ + name@],
            5,
        ),
{
    let device = concat2("/dev/input/", name);
    let cmd = vec!["udevadm", "info", "-q", "property", "-n", device.as_str()];
    let p = run_cmd(cmd.as_slice(), 5);
    assert(crate::command::str_views(cmd@).drop_first() =~= seq![
        "info"@,
        "-q"@,
        "property"@,
        "-n"@,
        "/dev/input/"@ + name@,
    ]);
    p
}

/// Re-announces the input device `sysname` to udev, removing it first
/// (`remove`) or adding it back: `udevadm trigger --action=<..> --sysname
/// <sysname>`, 5 s.
pub fn udev_trigger_plan(remove: bool, sysname: &str) -> (p: CmdPlan)
    ensures
        crate::command::plain_plan(
            p,
            "udevadm"@,
            seq![
                "trigger"@,
                if remove {
                    "--action=remove"@
                } else {
                    "--action=add"@
                },
                "--sysname"@,
                sysname@,
            ],
            5,
        ),
{
    let action = if remove {
        "--action=remove"
    } else {
        "--action=add"
    };
    let cmd = vec!["udevadm", "trigger", action, "--sysname", sysname];
    let p = run_cmd(cmd.as_slice(), 5);
    assert(crate::command::str_views(cmd@).drop_first() =~= seq![
        "trigger"@,
        action@,
        "--sysname"@,
        sysname@,
    ]);
    p
}

/// Waits for udev to finish its events: `udevadm settle --timeout=3`,
/// 10 s.
pub fn udev_settle_plan() -> (p: CmdPlan)
    ensures
        crate::command::plain_plan(p, "udevadm"@, seq!["settle"@, "--timeout=3"@], 10),
{
    let cmd = vec!["udevadm", "settle", "--timeout=3"];
    let p = run_cmd(cmd.as_slice(), 10);
    assert(crate::command::str_views(cmd@).drop_first() =~= seq!["settle"@, "--timeout=3"@]);
    p
}

} // verus!
