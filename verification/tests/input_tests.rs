use nabu_power::input::{
    bitmap_has, event_node, find_devices, find_keyboard_paths, find_pointer_events, find_pointer_paths,
    input_events_snapshot, is_event_entry, parse_bitmap_words, parse_input_devices, rescan_input_devices,
    UdevDevice, udev_properties_plan, udev_settle_plan, udev_trigger_plan,
};

const DEVICES: &str = "I: Bus=0000 Vendor=0000 Product=0000 Version=0000\n\
N: Name=\"pm8941_pwrkey\"\n\
P: Phys=pm8941_pwrkey/input0\n\
H: Handlers=kbd event0 \n\
B: PROP=0\n\
B: EV=3\n\
B: KEY=10000000000000 0\n\
\n\
I: Bus=0019 Vendor=0001 Product=0001 Version=0100\n\
N: Name=\"gpio-keys\"\n\
H: Handlers=event1\n\
B: EV=21\n\
B: SW=1\n\
\n\
\n\
N: Name=\"touchscreen\"\n\
H: Handlers=mouse0 event2\n\
B: EV=b\n";

#[test]
fn bitmaps_are_stored_lowest_word_first() {
    let words = parse_bitmap_words("10000000000000 0");
    assert_eq!(words, vec![0, 0x10000000000000]);
    assert!(bitmap_has(&words, 116));
    assert!(!bitmap_has(&words, 115));
    assert!(!bitmap_has(&words, 200));
    assert_eq!(parse_bitmap_words("  1 zz 3 "), vec![3, 1]);
    assert_eq!(parse_bitmap_words(""), Vec::<u64>::new());
    assert!(bitmap_has(&parse_bitmap_words("21"), 5));
    assert!(bitmap_has(&parse_bitmap_words("21"), 0));
}

#[test]
fn device_blocks() {
    let devs = parse_input_devices(DEVICES);
    assert_eq!(devs.len(), 3);
    assert_eq!(devs[0].name, "\"pm8941_pwrkey\"");
    assert_eq!(devs[0].handlers, vec!["kbd".to_string(), "event0".to_string()]);
    assert_eq!(devs[0].ev, vec![3]);
    assert_eq!(devs[1].sw, vec![1]);
    assert_eq!(devs[2].name, "\"touchscreen\"");
    assert_eq!(event_node(&devs[0]).as_deref(), Some("/dev/input/event0"));
    assert_eq!(event_node(&devs[2]).as_deref(), Some("/dev/input/event2"));
    assert!(parse_input_devices("").is_empty());
    assert!(parse_input_devices("\n\n   \n").is_empty());
}

#[test]
fn power_key_and_lid_found() {
    let devs = parse_input_devices(DEVICES);
    let (p, l) = find_devices(&devs, None, None);
    assert_eq!(p.as_deref(), Some("/dev/input/event0"));
    assert_eq!(l.as_deref(), Some("/dev/input/event1"));
    let (p2, l2) = find_devices(&devs, Some("/dev/input/event9".to_string()), None);
    assert_eq!(p2.as_deref(), Some("/dev/input/event9"));
    assert_eq!(l2.as_deref(), Some("/dev/input/event1"));
}

fn udev(name: &str, props: Option<&str>) -> UdevDevice {
    UdevDevice { name: name.to_string(), properties: props.map(String::from) }
}

#[test]
fn keyboards_and_pointers_from_udev() {
    let entries = vec![
        udev("event0", Some("ID_INPUT=1\nID_INPUT_KEY=1\n")),
        udev("event1", Some("ID_INPUT=1\nID_INPUT_KEYBOARD=1\n")),
        udev("event2", Some("ID_INPUT_TOUCHSCREEN=1\n")),
        udev("event3", Some("ID_INPUT_MOUSE=1\n")),
        udev("event4", None),
        udev("mouse0", Some("ID_INPUT_MOUSE=1\n")),
        udev("event5", Some("ID_INPUT_TOUCHPAD=0\n")),
    ];
    assert_eq!(find_keyboard_paths(&entries), vec!["/dev/input/event1".to_string()]);
    assert_eq!(find_pointer_paths(&entries), vec!["/dev/input/event3".to_string()]);
    assert_eq!(
        find_pointer_events(&entries, &["ID_INPUT_TOUCHSCREEN", "ID_INPUT_TABLET"]),
        vec!["event2".to_string()]
    );
    assert!(is_event_entry("event12"));
    assert!(!is_event_entry("mouse0"));
}

#[test]
fn snapshot_lists_event_nodes() {
    let names: Vec<String> = ["event0", "event1", "input3", "mice", "event10"].iter().map(|s| s.to_string()).collect();
    assert_eq!(input_events_snapshot(&names), "event0,event1,event10");
    assert_eq!(input_events_snapshot(&Vec::new()), "");
}

#[test]
fn rescan_reconciles_watched_with_found() {
    let watched: Vec<String> = ["/dev/input/event3", "/dev/input/event5"].iter().map(|s| s.to_string()).collect();
    let found: Vec<String> = ["/dev/input/event5", "/dev/input/event7"].iter().map(|s| s.to_string()).collect();
    let plan = rescan_input_devices(&watched, &found);
    assert_eq!(plan.close, vec![0]);
    assert_eq!(plan.open, vec!["/dev/input/event7".to_string()]);
    let mut now: Vec<String> = watched.iter().enumerate().filter(|(i, _)| !plan.close.contains(i)).map(|(_, p)| p.clone()).collect();
    now.extend(plan.open.iter().cloned());
    now.sort();
    assert_eq!(now, found);
    let none = rescan_input_devices(&found, &found);
    assert!(none.close.is_empty() && none.open.is_empty());
}

#[test]
fn udev_plans() {
    let i = udev_properties_plan("event3");
    assert_eq!(i.program, "udevadm");
    assert_eq!(i.args, vec!["info", "-q", "property", "-n", "/dev/input/event3"]);
    assert_eq!(i.timeout_secs, 5);
    assert_eq!(udev_trigger_plan(true, "event3").args, vec!["trigger", "--action=remove", "--sysname", "event3"]);
    assert_eq!(udev_trigger_plan(false, "event3").args[1], "--action=add");
    let s = udev_settle_plan();
    assert_eq!(s.args, vec!["settle", "--timeout=3"]);
    assert_eq!(s.timeout_secs, 10);
}
