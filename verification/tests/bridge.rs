use battery_ha_bridge::bridge::{birth, credentials, last_will, period, select, subscriptions};
use battery_ha_bridge::registry::Registry;

#[test]
fn the_bridge_announces_itself() {
    let will = last_will("battery_control");
    assert_eq!(will.topic, "battery_control/bridge/availability");
    assert_eq!(will.payload, "offline");
    assert!(will.retain);
    let hello = birth("battery_control");
    assert_eq!(hello.topic, "battery_control/bridge/availability");
    assert_eq!(hello.payload, "online");
    assert!(hello.retain);
}

#[test]
fn the_bridge_listens_to_three_filters() {
    assert_eq!(
        subscriptions("homeassistant", "battery_control"),
        ["battery_control/+/set/+", "battery_control/+/setv/+", "homeassistant/status"]
    );
}

#[test]
fn without_queries_everything_is_bridged() {
    assert_eq!(select(&Vec::new(), &vec![1, 2, 3], &Vec::new()), [1, 2, 3]);
}

#[test]
fn queries_choose_what_they_resolve_to() {
    let queries = vec!["b".to_string(), "x".to_string(), "a".to_string(), "b".to_string()];
    let resolved = vec![Some(2), None, Some(1), Some(2)];
    assert_eq!(select(&queries, &vec![1, 2, 3], &resolved), [2, 1, 2]);
    assert!(select(&queries, &vec![1, 2, 3], &vec![None, None, None, None]).is_empty());
}

#[test]
fn periods_last_a_second_at_least() {
    assert_eq!(period(0), 1);
    assert_eq!(period(1), 1);
    assert_eq!(period(15), 15);
}

#[test]
fn credentials_need_both_parts() {
    let u = Some("u".to_string());
    let p = Some("p".to_string());
    assert_eq!(credentials(&u, &p), Some(("u".to_string(), "p".to_string())));
    assert_eq!(credentials(&u, &None), None);
    assert_eq!(credentials(&None, &p), None);
}

#[test]
fn the_registry_keeps_one_entry_per_slug() {
    let mut r: Registry<u32> = Registry::new();
    assert_eq!(r.unclaimed("ble:AA"), Some("ble_aa".to_string()));
    r.insert("ble_aa".to_string(), 1);
    r.insert("can0".to_string(), 2);
    assert!(r.contains("ble_aa"));
    assert_eq!(r.unclaimed("ble:AA"), None);
    assert_eq!(r.get("ble_aa"), Some(&1));
    r.insert("ble_aa".to_string(), 3);
    assert_eq!(r.get("ble_aa"), Some(&3));
    assert_eq!(r.get("can0"), Some(&2));
    r.remove("ble_aa");
    assert_eq!(r.get("ble_aa"), None);
    assert_eq!(r.get("can0"), Some(&2));
    r.remove("ble_aa");
    assert_eq!(r.unclaimed("ble:AA"), Some("ble_aa".to_string()));
}

#[test]
fn one_task_runs_per_slug() {
    let mut r: Registry<u32> = Registry::new();
    let mut running: Vec<String> = Vec::new();
    for (n, id) in ["ble:AA", "can0", "ble-aa", "BLE AA", "can0"].iter().enumerate() {
        if let Some(slug) = r.unclaimed(id) {
            assert!(!running.contains(&slug));
            r.insert(slug.clone(), n as u32);
            running.push(slug);
        }
    }
    assert_eq!(running, ["ble_aa", "can0"]);
    assert_eq!(r.get("ble_aa"), Some(&0));
    let slug = r.unclaimed("usb1").unwrap();
    r.remove("ble_aa");
    r.insert(slug, 7);
    assert_eq!(r.get("usb1"), Some(&7));
    assert_eq!(r.unclaimed("ble:AA"), Some("ble_aa".to_string()));
    assert_eq!(r.unclaimed("usb1"), None);
}
