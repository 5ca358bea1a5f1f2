use battery_ha_bridge::command::{parse_command, Command};
use battery_ha_bridge::discovery::discovery_configs;
use battery_ha_bridge::reading::Reading;
use battery_ha_bridge::slug::slugify;
use battery_ha_bridge::state::flatten;
use battery_ha_bridge::status::{
    BatteryStatus, Capabilities, CellState, DeviceInfo, PortState, SwitchState, TemperatureProbe,
};
use serde_json::Value;

fn reading(v: f32) -> Reading {
    Reading { bits: v.to_bits() }
}

fn text(s: &str) -> Option<String> {
    Some(s.to_string())
}

/// A snapshot with something of everything.
fn full_status() -> BatteryStatus {
    BatteryStatus {
        soc: Some(reading(50.0)),
        soh: Some(reading(99.5)),
        voltage: Some(reading(52.1234)),
        current: Some(reading(-3.25)),
        power_in: Some(reading(0.0)),
        power_out: Some(reading(170.5)),
        time_remaining_h: Some(reading(7.5)),
        capacity_remaining_ah: Some(reading(50.0)),
        capacity_full_ah: Some(reading(100.0)),
        charge_current_limit_a: Some(reading(60.0)),
        discharge_current_limit_a: Some(reading(90.0)),
        soc_limit_max: Some(reading(80.0)),
        soc_limit_min: Some(reading(10.0)),
        temperature_c: Some(reading(21.5)),
        cell_min: Some(reading(3.25)),
        cell_max: Some(reading(3.3)),
        cell_delta: Some(reading(0.05)),
        cycles: Some(42),
        charging: Some(true),
        discharging: Some(false),
        temperatures: vec![
            TemperatureProbe { id: "MOS 1".to_string(), label: None, celsius: reading(30.0) },
            TemperatureProbe { id: "bms".to_string(), label: text("BMS"), celsius: reading(25.25) },
        ],
        switches: vec![
            SwitchState { id: "heater/1".to_string(), label: text("Heater"), on: true },
            SwitchState { id: "balancer".to_string(), label: None, on: false },
        ],
        ports: vec![
            PortState {
                id: "USB-C1".to_string(),
                label: text("USB C"),
                on: Some(true),
                watts: Some(reading(12.3456)),
            },
            PortState { id: "ac".to_string(), label: None, on: None, watts: None },
        ],
        cells: vec![
            CellState { index: 0, voltage: Some(reading(3.25)) },
            CellState { index: 10, voltage: Some(reading(3.3)) },
            CellState { index: 11, voltage: None },
        ],
        alarms: vec!["over temp".to_string(), "low soc".to_string()],
    }
}

fn all_capabilities() -> Capabilities {
    Capabilities {
        toggle_charge: true,
        toggle_discharge: true,
        toggle_ports: true,
        set_charge_limit: true,
        controllable: true,
    }
}

fn configs(caps: Capabilities, s: &BatteryStatus) -> Vec<(String, Value)> {
    let info = DeviceInfo {
        backend: "jk".to_string(),
        model: text("B2A8S20P"),
        serial: None,
        firmware: text("11.2"),
    };
    discovery_configs("homeassistant", "battery_control", "ble_aa", "Garage", &info, caps, s)
}

fn config(list: &[(String, Value)], component: &str, key: &str) -> Value {
    let topic = format!("homeassistant/{component}/bc_ble_aa/{key}/config");
    match list.iter().find(|(t, _)| *t == topic) {
        Some((_, v)) => v.clone(),
        None => panic!("no config on {topic}"),
    }
}

fn has(list: &[(String, Value)], component: &str, key: &str) -> bool {
    let topic = format!("homeassistant/{component}/bc_ble_aa/{key}/config");
    list.iter().any(|(t, _)| *t == topic)
}

/// The member of the state document that a config's template shows.
fn shown(config: &Value) -> &str {
    let template = config["value_template"].as_str().unwrap();
    template.strip_prefix("{{ value_json.").unwrap().strip_suffix(" }}").unwrap()
}

#[test]
fn slugs() {
    assert_eq!(slugify("ble:AA:BB:CC"), "ble_aa_bb_cc");
    assert_eq!(slugify("serial:/dev/ttyUSB0"), "serial_dev_ttyusb0");
    assert_eq!(slugify("usb_c1"), "usb_c1");
}

#[test]
fn slugs_at_the_edges() {
    assert_eq!(slugify(""), "");
    assert_eq!(slugify("::/"), "");
    assert_eq!(slugify("__a__b__"), "a_b");
    assert_eq!(slugify("Größe 9Z"), "gr_e_9z");
    assert_eq!(slugify("[`{@"), "");
}

#[test]
fn slugs_of_slugs_stay() {
    for id in ["ble:AA:BB:CC", "serial:/dev/ttyUSB0", "x+y#z", "  "] {
        let once = slugify(id);
        assert_eq!(slugify(&once), once);
        assert!(once.chars().all(|c| c.is_ascii_lowercase() || c.is_ascii_digit() || c == '_'));
    }
}

#[test]
fn flatten_basics() {
    let s = BatteryStatus { soc: Some(reading(87.129)), charging: Some(true), ..Default::default() };
    let v = flatten(&s);
    assert_eq!(v["soc"], 87.129);
    assert_eq!(v["charging"], "ON");
    assert_eq!(v["alarms"], "none");
    assert_eq!(v["alarm_active"], "OFF");
}

#[test]
fn an_empty_snapshot_tells_only_the_alarms() {
    let v = flatten(&BatteryStatus::default());
    assert_eq!(v.to_string(), r#"{"alarm_active":"OFF","alarms":"none"}"#);
}

#[test]
fn flatten_holds_everything_on_one_level() {
    let v = flatten(&full_status());
    let mut want = serde_json::Map::new();
    let numbers = [
        ("soc", 50.0),
        ("soh", 99.5),
        ("voltage", 52.123),
        ("current", -3.25),
        ("power_in", 0.0),
        ("power_out", 170.5),
        ("time_remaining_h", 7.5),
        ("capacity_remaining_ah", 50.0),
        ("capacity_full_ah", 100.0),
        ("charge_current_limit_a", 60.0),
        ("discharge_current_limit_a", 90.0),
        ("soc_limit_max", 80.0),
        ("soc_limit_min", 10.0),
        ("temperature", 21.5),
        ("cell_min", 3.25),
        ("cell_max", 3.3),
        ("cell_delta", 0.05),
        ("temp_mos_1", 30.0),
        ("temp_bms", 25.25),
        ("port_usb_c1_w", 12.346),
        ("cell_0", 3.25),
        ("cell_10", 3.3),
    ];
    for (key, n) in numbers {
        want.insert(key.to_string(), Value::from(n));
    }
    want.insert("cycles".to_string(), Value::from(42));
    let texts = [
        ("charging", "ON"),
        ("discharging", "OFF"),
        ("sw_heater_1", "ON"),
        ("sw_balancer", "OFF"),
        ("port_usb_c1", "ON"),
        ("alarms", "over temp, low soc"),
        ("alarm_active", "ON"),
    ];
    for (key, s) in texts {
        want.insert(key.to_string(), Value::from(s));
    }
    assert_eq!(v, Value::Object(want));
}

#[test]
fn the_later_of_two_equal_keys_counts() {
    let s = BatteryStatus {
        switches: vec![
            SwitchState { id: "A b".to_string(), label: None, on: true },
            SwitchState { id: "a-B".to_string(), label: None, on: false },
        ],
        ..Default::default()
    };
    assert_eq!(flatten(&s)["sw_a_b"], "OFF");
}

#[test]
fn configs_gate_on_snapshot_and_caps() {
    let s = BatteryStatus { soc: Some(reading(50.0)), charging: Some(true), ..Default::default() };
    let cfgs = discovery_configs(
        "homeassistant",
        "battery_control",
        "ble_aa",
        "Test",
        &DeviceInfo::default(),
        Capabilities::read_basic(),
        &s,
    );
    // soc sensor exists, voltage doesn't; charging is a binary_sensor (no TOGGLE_CHARGE).
    assert!(cfgs.iter().any(|(t, _)| t.contains("/sensor/bc_ble_aa/soc/")));
    assert!(!cfgs.iter().any(|(t, _)| t.contains("/voltage/")));
    assert!(cfgs.iter().any(|(t, _)| t.contains("/binary_sensor/bc_ble_aa/charging/")));
}

#[test]
fn a_sensor_config_reads_in_full() {
    let list = configs(Capabilities::read_basic(), &full_status());
    let got = config(&list, "sensor", "soc");
    let want: Value = serde_json::from_str(
        r#"{
            "name": "Battery",
            "value_template": "{{ value_json.soc }}",
            "device_class": "battery",
            "unit_of_measurement": "%",
            "state_class": "measurement",
            "unique_id": "bc_ble_aa_soc",
            "object_id": "ble_aa_soc",
            "state_topic": "battery_control/ble_aa/state",
            "availability": [
                { "topic": "battery_control/bridge/availability" },
                { "topic": "battery_control/ble_aa/availability" }
            ],
            "availability_mode": "all",
            "device": {
                "identifiers": ["bc_ble_aa"],
                "name": "Garage",
                "manufacturer": "jk",
                "model": "B2A8S20P",
                "serial_number": null,
                "sw_version": "11.2"
            }
        }"#,
    )
    .unwrap();
    assert_eq!(got, want);
}

#[test]
fn the_keys_come_in_order() {
    let list = configs(all_capabilities(), &full_status());
    let got: Vec<String> = list
        .iter()
        .map(|(t, _)| {
            let parts: Vec<&str> = t.split('/').collect();
            format!("{} {}", parts[1], parts[3])
        })
        .collect();
    let want = [
        "sensor soc",
        "sensor soh",
        "sensor voltage",
        "sensor current",
        "sensor power_in",
        "sensor power_out",
        "sensor time_remaining_h",
        "sensor capacity_remaining_ah",
        "sensor capacity_full_ah",
        "sensor cycles",
        "sensor charge_current_limit_a",
        "sensor discharge_current_limit_a",
        "sensor temperature",
        "sensor temp_mos_1",
        "sensor temp_bms",
        "sensor cell_min",
        "sensor cell_max",
        "sensor cell_delta",
        "sensor cell_0",
        "sensor cell_10",
        "binary_sensor alarm_active",
        "sensor alarms",
        "switch charging",
        "switch discharging",
        "switch sw_heater_1",
        "switch sw_balancer",
        "switch port_usb_c1",
        "sensor port_usb_c1_w",
        "number charge_limit",
    ];
    assert_eq!(got, want);
}

#[test]
fn probes_and_cells_are_disabled_at_first() {
    let list = configs(Capabilities::read_basic(), &full_status());
    let probe = config(&list, "sensor", "temp_mos_1");
    assert_eq!(probe["enabled_by_default"], false);
    assert_eq!(probe["name"], "Temperature MOS 1");
    assert_eq!(probe["unit_of_measurement"], "°C");
    assert_eq!(config(&list, "sensor", "temp_bms")["name"], "BMS");
    let cell = config(&list, "sensor", "cell_10");
    assert_eq!(cell["enabled_by_default"], false);
    assert_eq!(cell["name"], "Cell 11");
    assert_eq!(cell["value_template"], "{{ value_json.cell_10 }}");
    assert!(config(&list, "sensor", "cell_min").get("enabled_by_default").is_none());
}

#[test]
fn sensors_without_a_unit() {
    let list = configs(Capabilities::read_basic(), &full_status());
    let cycles = config(&list, "sensor", "cycles");
    assert_eq!(cycles["state_class"], "total_increasing");
    assert!(cycles.get("unit_of_measurement").is_none());
    assert!(cycles.get("device_class").is_none());
    let alarms = config(&list, "sensor", "alarms");
    assert!(alarms.get("state_class").is_none());
}

#[test]
fn switches_name_their_command_topics() {
    let list = configs(all_capabilities(), &full_status());
    let heater = config(&list, "switch", "sw_heater_1");
    assert_eq!(heater["name"], "Heater");
    assert_eq!(heater["command_topic"], "battery_control/ble_aa/set/heater/1");
    assert_eq!(heater["payload_on"], "ON");
    assert_eq!(heater["payload_off"], "OFF");
    assert_eq!(heater["state_on"], "ON");
    assert_eq!(heater["state_off"], "OFF");
    assert_eq!(config(&list, "switch", "sw_balancer")["name"], "balancer");
    let port = config(&list, "switch", "port_usb_c1");
    assert_eq!(port["command_topic"], "battery_control/ble_aa/set/USB-C1");
    assert_eq!(config(&list, "sensor", "port_usb_c1_w")["name"], "USB C power");
}

#[test]
fn the_charge_limit_is_a_slider() {
    let list = configs(all_capabilities(), &full_status());
    let limit = config(&list, "number", "charge_limit");
    assert_eq!(limit["command_topic"], "battery_control/ble_aa/setv/charge_limit");
    assert_eq!(limit["value_template"], "{{ value_json.soc_limit_max }}");
    assert_eq!(limit["min"], 0);
    assert_eq!(limit["max"], 100);
    assert_eq!(limit["step"], 1);
    assert_eq!(limit["mode"], "slider");
    assert_eq!(limit["icon"], "mdi:battery-charging-80");
    assert_eq!(limit["unit_of_measurement"], "%");
}

#[test]
fn what_cannot_be_controlled_takes_no_commands() {
    let list = configs(Capabilities::read_basic(), &full_status());
    for (_, v) in &list {
        assert!(v.get("command_topic").is_none());
    }
    assert_eq!(config(&list, "binary_sensor", "charging")["device_class"], "battery_charging");
    assert!(config(&list, "binary_sensor", "discharging").get("device_class").is_none());
    assert!(config(&list, "binary_sensor", "sw_balancer").get("device_class").is_none());
    assert_eq!(config(&list, "binary_sensor", "port_usb_c1")["device_class"], "power");
    assert_eq!(config(&list, "binary_sensor", "alarm_active")["device_class"], "problem");
    assert!(!has(&list, "number", "charge_limit"));
}

#[test]
fn each_capability_counts_by_itself() {
    let caps = Capabilities { toggle_charge: true, ..Capabilities::read_basic() };
    let list = configs(caps, &full_status());
    assert!(has(&list, "switch", "charging"));
    assert!(has(&list, "binary_sensor", "discharging"));
    assert!(has(&list, "binary_sensor", "sw_heater_1"));
    assert!(has(&list, "binary_sensor", "port_usb_c1"));
}

#[test]
fn states_are_switches_or_binary_sensors() {
    let s = full_status();
    for (caps, component) in [(all_capabilities(), "switch"), (Capabilities::read_basic(), "binary_sensor")] {
        let list = configs(caps, &s);
        for key in ["charging", "discharging", "sw_heater_1", "sw_balancer", "port_usb_c1"] {
            let found: Vec<&str> = list
                .iter()
                .map(|(t, _)| t.split('/').collect::<Vec<&str>>())
                .filter(|parts| parts[3] == key)
                .map(|parts| parts[1])
                .collect();
            assert_eq!(found, [component], "{key}");
        }
    }
}

#[test]
fn templates_show_members_of_the_state() {
    let s = full_status();
    let state = flatten(&s);
    for (_, v) in configs(all_capabilities(), &s) {
        assert!(state.get(shown(&v)).is_some(), "{v}");
    }
}

#[test]
fn only_the_charge_limit_can_show_nothing() {
    let s = BatteryStatus { soc_limit_max: None, ..full_status() };
    let state = flatten(&s);
    for (topic, v) in configs(all_capabilities(), &s) {
        assert_eq!(state.get(shown(&v)).is_none(), topic.contains("/number/"), "{topic}");
    }
}

#[test]
fn told_values_get_an_entity() {
    let s = full_status();
    let list = configs(Capabilities::read_basic(), &s);
    let state = flatten(&s);
    let mut unseen: Vec<&str> = state.as_object().unwrap().keys().map(|k| k.as_str()).collect();
    unseen.retain(|key| !list.iter().any(|(_, v)| v["object_id"] == format!("ble_aa_{key}")));
    assert_eq!(unseen, ["soc_limit_max", "soc_limit_min"]);
}

#[test]
fn silent_cells_get_no_sensor() {
    let s = BatteryStatus {
        cells: vec![
            CellState { index: 0, voltage: None },
            CellState { index: 1, voltage: Some(reading(3.25)) },
            CellState { index: 2, voltage: None },
            CellState { index: 2, voltage: Some(reading(3.5)) },
        ],
        cell_min: Some(reading(3.25)),
        ..Default::default()
    };
    let keys: Vec<String> = configs(Capabilities::read_basic(), &s)
        .iter()
        .map(|(t, _)| t.split('/').nth(3).unwrap().to_string())
        .collect();
    assert_eq!(keys, ["cell_min", "cell_1", "cell_2", "alarm_active", "alarms"]);
}

#[test]
fn cells_that_tell_nothing_get_no_extremes() {
    let s = BatteryStatus { cells: vec![CellState { index: 0, voltage: None }], ..Default::default() };
    let list = configs(Capabilities::read_basic(), &s);
    for key in ["cell_min", "cell_max", "cell_delta", "cell_0"] {
        assert!(!has(&list, "sensor", key), "{key}");
    }
    assert_eq!(list.len(), 2);
}

#[test]
fn capabilities_only_choose_controls() {
    let s = full_status();
    let basic = configs(Capabilities::read_basic(), &s);
    let mut all = configs(all_capabilities(), &s);
    assert_eq!(all.pop().unwrap().1["name"], "Charge limit");
    assert_eq!(all.len(), basic.len());
    for ((a, v), (b, w)) in all.iter().zip(&basic) {
        if a != b {
            assert_eq!(a.replace("/switch/", "/binary_sensor/"), *b);
        } else {
            assert_eq!(v, w);
        }
        assert_eq!(v["name"], w["name"]);
        assert_eq!(v["value_template"], w["value_template"]);
    }
}

#[test]
fn unique_ids_are_unique() {
    let list = configs(all_capabilities(), &full_status());
    let mut ids: Vec<&str> = list.iter().map(|(_, v)| v["unique_id"].as_str().unwrap()).collect();
    let mut topics: Vec<&String> = list.iter().map(|(t, _)| t).collect();
    let n = list.len();
    ids.sort();
    ids.dedup();
    topics.sort();
    topics.dedup();
    assert_eq!(ids.len(), n);
    assert_eq!(topics.len(), n);
}

#[test]
fn command_topics_reach_their_device() {
    let list = configs(all_capabilities(), &full_status());
    let mut got = Vec::new();
    for (_, v) in &list {
        if let Some(topic) = v.get("command_topic") {
            match parse_command("battery_control", topic.as_str().unwrap(), "ON") {
                Some((slug, Command::Toggle { id, on })) => {
                    assert_eq!(slug, "ble_aa");
                    assert!(on);
                    got.push(id);
                }
                Some((slug, Command::SetValue { id, value })) => {
                    assert_eq!(slug, "ble_aa");
                    assert_eq!(value, "ON");
                    got.push(id);
                }
                None => panic!("{topic}"),
            }
        }
    }
    assert_eq!(got, ["charging", "discharging", "heater/1", "balancer", "USB-C1", "charge_limit"]);
}
