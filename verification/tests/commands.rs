use battery_ha_bridge::command::{parse_command, receive, route, Command, Incoming};

fn toggle(topic: &str, payload: &str) -> (String, String, bool) {
    match parse_command("battery_control", topic, payload) {
        Some((slug, Command::Toggle { id, on })) => (slug, id, on),
        other => panic!("{other:?}"),
    }
}

#[test]
fn toggles_are_parsed() {
    let want = |on: bool| ("ble_aa".to_string(), "heater".to_string(), on);
    let topic = "battery_control/ble_aa/set/heater";
    assert_eq!(toggle(topic, "ON"), want(true));
    assert_eq!(toggle(topic, "on"), want(true));
    assert_eq!(toggle(topic, "oN"), want(true));
    assert_eq!(toggle(topic, "OFF"), want(false));
    assert_eq!(toggle(topic, "ON "), want(false));
    assert_eq!(toggle(topic, ""), want(false));
}

#[test]
fn ids_may_hold_separators() {
    let got = toggle("battery_control/ble_aa/set/heater/1", "ON");
    assert_eq!(got, ("ble_aa".to_string(), "heater/1".to_string(), true));
    let got = toggle("battery_control//set/", "ON");
    assert_eq!(got, (String::new(), String::new(), true));
}

#[test]
fn values_are_parsed() {
    match parse_command("a/b", "a/b/dev/setv/charge_limit", "80") {
        Some((slug, Command::SetValue { id, value })) => {
            assert_eq!(slug, "dev");
            assert_eq!(id, "charge_limit");
            assert_eq!(value, "80");
        }
        other => panic!("{other:?}"),
    }
}

#[test]
fn other_topics_are_no_commands() {
    for topic in [
        "battery_control/dev/set",
        "battery_control/dev/setx/id",
        "battery_control/dev/SET/id",
        "battery_control/dev",
        "battery_control/",
        "battery_control",
        "battery_controlX/dev/set/id",
        "battery_control2",
        "other/dev/set/id",
        "",
    ] {
        assert!(parse_command("battery_control", topic, "ON").is_none(), "{topic}");
    }
}

#[test]
fn restarts_are_recognized() {
    let at = |topic: &str, payload: &str| route("homeassistant", "battery_control", topic, payload);
    assert!(matches!(at("homeassistant/status", "online"), Incoming::Republish));
    assert!(matches!(at("homeassistant/status", "offline"), Incoming::Ignored));
    assert!(matches!(at("homeassistant/status", "ONLINE"), Incoming::Ignored));
    assert!(matches!(at("homeassistant/statu", "online"), Incoming::Ignored));
}

#[test]
fn the_status_topic_comes_before_commands() {
    let got = route("b/dev/set", "b", "b/dev/set/status", "ON");
    assert!(matches!(got, Incoming::Ignored));
}

#[test]
fn commands_are_delivered() {
    match receive("homeassistant", "battery_control", "battery_control/dev/setv/name", "Größe".as_bytes()) {
        Incoming::Command { slug, command: Command::SetValue { id, value } } => {
            assert_eq!(slug, "dev");
            assert_eq!(id, "name");
            assert_eq!(value, "Größe");
        }
        other => panic!("{other:?}"),
    }
}

#[test]
fn invalid_bytes_are_replaced() {
    match receive("homeassistant", "b", "b/dev/setv/name", &[0x61, 0xff, 0x62]) {
        Incoming::Command { command: Command::SetValue { value, .. }, .. } => {
            assert_eq!(value, "a\u{fffd}b");
        }
        other => panic!("{other:?}"),
    }
}

#[test]
fn a_toggle_is_delivered_to_its_device() {
    match route("homeassistant", "base", "base/dev/set/charging", "OFF") {
        Incoming::Command { slug, command: Command::Toggle { id, on } } => {
            assert_eq!(slug, "dev");
            assert_eq!(id, "charging");
            assert!(!on);
            assert_eq!(format!("base/{slug}/set/{id}"), "base/dev/set/charging");
        }
        other => panic!("{other:?}"),
    }
}

#[test]
fn a_value_is_delivered_to_its_device() {
    match route("homeassistant", "base", "base/dev/setv/charge_limit", "80") {
        Incoming::Command { slug, command: Command::SetValue { id, value } } => {
            assert_eq!(slug, "dev");
            assert_eq!(id, "charge_limit");
            assert_eq!(value, "80");
        }
        other => panic!("{other:?}"),
    }
    let got = route("b/dev/setv", "b", "b/dev/setv/status", "80");
    assert!(matches!(got, Incoming::Ignored));
}
