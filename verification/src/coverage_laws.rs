//! What is told gets an entity.

use crate::discovery::{binary, cell_extremes, cell_sensor, charge_limit, device_sensors, entities, probe_sensor, sensor, toggle, with_alarm_sensors, with_cell_sensors, with_each_cell, with_entities, with_entity, with_mosfets, with_port_entities, with_probe_sensors, with_switch_entities, EntityView};
use crate::discovery_laws::{lemma_sensor_keys, port_entity, port_power_entity, switch_entity};
use crate::state::{cell_key, device_values, port_key, probe_key, state_members, switch_key};
use crate::state_laws::{key_of_port, law_state_holds_only_what_is_reported, of_cell, of_port, of_probe, of_switch};
use crate::status::{BatteryStatus, Capabilities, CellState, PortState, SwitchState, TemperatureProbe};
use vstd::prelude::*;

verus! {

/// One of the entities has the key.
pub open spec fn has_key(es: Seq<EntityView>, key: Seq<char>) -> bool {
    exists|i: int| 0 <= i < es.len() && (#[trigger] es[i]).key == key
}

/// One more entity takes no key away, and brings its own.
proof fn lemma_key_with(es: Seq<EntityView>, present: bool, e: EntityView, key: Seq<char>)
    requires
        has_key(es, key) || (present && e.key == key),
    ensures
        has_key(with_entity(es, present, e), key),
{
    let more = with_entity(es, present, e);
    if has_key(es, key) {
        let i = choose|i: int| 0 <= i < es.len() && (#[trigger] es[i]).key == key;
        assert(more[i].key == key);
    } else {
        assert(more[es.len() as int].key == key);
    }
}

/// The key of an entity of a list of which what it shows is present.
spec fn listed(list: Seq<(bool, EntityView)>, key: Seq<char>) -> bool {
    exists|i: int| 0 <= i < list.len() && (#[trigger] list[i]).0 && list[i].1.key == key
}

/// The entities of a list take no key away, and each brings its own.
proof fn lemma_listed_keys_shown(es: Seq<EntityView>, list: Seq<(bool, EntityView)>, key: Seq<char>)
    requires
        has_key(es, key) || listed(list, key),
    ensures
        has_key(with_entities(es, list), key),
    decreases list.len(),
{
    if list.len() > 0 {
        let before = list.drop_last();
        let (present, e) = list[list.len() - 1];
        if !present || e.key != key {
            if !has_key(es, key) {
                let i = choose|i: int| 0 <= i < list.len() && (#[trigger] list[i]).0 && list[i].1.key == key;
                assert(before[i].0 && before[i].1.key == key);
            }
            lemma_listed_keys_shown(es, before, key);
        }
        lemma_key_with(with_entities(es, before), present, e, key);
    }
}

/// Probes take no key away, and each has its own.
proof fn lemma_probe_keys_shown(es: Seq<EntityView>, probes: Seq<TemperatureProbe>, key: Seq<char>)
    requires
        has_key(es, key) || of_probe(probes, key),
    ensures
        has_key(with_probe_sensors(es, probes), key),
    decreases probes.len(),
{
    if probes.len() > 0 {
        let before = probes.drop_last();
        let last = probes[probes.len() - 1];
        if probe_key(last.id@) != key {
            if !has_key(es, key) {
                let i = choose|i: int| 0 <= i < probes.len() && probe_key((#[trigger] probes[i]).id@) == key;
                assert(probe_key(before[i].id@) == key);
            }
            lemma_probe_keys_shown(es, before, key);
        }
        lemma_key_with(with_probe_sensors(es, before), true, probe_sensor(last), key);
    }
}

/// Cells take no key away, and each that tells its voltage has its own.
proof fn lemma_cell_keys_shown(es: Seq<EntityView>, cells: Seq<CellState>, key: Seq<char>)
    requires
        has_key(es, key) || of_cell(cells, key),
    ensures
        has_key(with_each_cell(es, cells), key),
    decreases cells.len(),
{
    if cells.len() > 0 {
        let before = cells.drop_last();
        let last = cells[cells.len() - 1];
        if last.voltage is None || cell_key(last.index) != key {
            if !has_key(es, key) {
                let i = choose|i: int|
                    0 <= i < cells.len() && (#[trigger] cells[i]).voltage is Some && cell_key(cells[i].index) == key;
                assert(before[i].voltage is Some && cell_key(before[i].index) == key);
            }
            lemma_cell_keys_shown(es, before, key);
        }
        lemma_key_with(with_each_cell(es, before), last.voltage is Some, cell_sensor(last), key);
    }
}

/// The extremes of the cells take no key away, and each has its own, as have the cells.
proof fn lemma_cell_sensor_keys_shown(es: Seq<EntityView>, s: BatteryStatus, key: Seq<char>)
    requires
        has_key(es, key) || (s.cells@.len() > 0 && listed(cell_extremes(s), key)) || of_cell(s.cells@, key),
    ensures
        has_key(with_cell_sensors(es, s), key),
{
    if s.cells@.len() > 0 {
        if has_key(es, key) || listed(cell_extremes(s), key) {
            lemma_listed_keys_shown(es, cell_extremes(s), key);
        }
        lemma_cell_keys_shown(with_entities(es, cell_extremes(s)), s.cells@, key);
    }
}

/// Switches take no key away, and each has its own.
proof fn lemma_switch_keys_shown(
    es: Seq<EntityView>,
    root: Seq<char>,
    caps: Capabilities,
    switches: Seq<SwitchState>,
    key: Seq<char>,
)
    requires
        has_key(es, key) || of_switch(switches, key),
    ensures
        has_key(with_switch_entities(es, root, caps, switches), key),
    decreases switches.len(),
{
    if switches.len() > 0 {
        let before = switches.drop_last();
        let last = switches[switches.len() - 1];
        if switch_key(last.id@) != key {
            if !has_key(es, key) {
                let i = choose|i: int| 0 <= i < switches.len() && switch_key((#[trigger] switches[i]).id@) == key;
                assert(switch_key(before[i].id@) == key);
            }
            lemma_switch_keys_shown(es, root, caps, before, key);
        }
        lemma_key_with(
            with_switch_entities(es, root, caps, before),
            true,
            switch_entity(root, caps, last),
            key,
        );
    }
}

/// Ports take no key away, and each has its own for what it reports.
proof fn lemma_port_keys_shown(
    es: Seq<EntityView>,
    root: Seq<char>,
    caps: Capabilities,
    ports: Seq<PortState>,
    key: Seq<char>,
)
    requires
        has_key(es, key) || of_port(ports, key),
    ensures
        has_key(with_port_entities(es, root, caps, ports), key),
    decreases ports.len(),
{
    if ports.len() > 0 {
        let before = ports.drop_last();
        let last = ports[ports.len() - 1];
        if !key_of_port(last, key) {
            if !has_key(es, key) {
                let i = choose|i: int| 0 <= i < ports.len() && key_of_port(#[trigger] ports[i], key);
                assert(key_of_port(before[i], key));
            }
            lemma_port_keys_shown(es, root, caps, before, key);
        }
        let es = with_port_entities(es, root, caps, before);
        let e = port_entity(root, caps, last);
        if has_key(es, key) || (last.on is Some && key == port_key(last.id@)) {
            lemma_key_with(es, last.on is Some, e, key);
        }
        lemma_key_with(with_entity(es, last.on is Some, e), last.watts is Some, port_power_entity(last), key);
    }
}

/// The values of the device as a whole are shown among its sensors or the extremes of the
/// cells, but for charging and discharging and the two limits of the state of charge.
proof fn lemma_device_value_shown(s: BatteryStatus, i: int)
    requires
        0 <= i < device_values(s).len(),
        device_values(s)[i].1 is Some,
    ensures
        ({
            let key = device_values(s)[i].0;
            ||| listed(device_sensors(s), key)
            ||| listed(cell_extremes(s), key) && (key == "cell_min"@ || key == "cell_max"@ || key == "cell_delta"@)
            ||| s.charging is Some && key == "charging"@
            ||| s.discharging is Some && key == "discharging"@
            ||| key == "soc_limit_max"@ || key == "soc_limit_min"@
        }),
{
    lemma_sensor_keys(s);
    if i <= 8 {
        assert(device_sensors(s)[i].0);
    } else if i <= 10 {
        assert(device_sensors(s)[i + 1].0);
    } else if i == 13 {
        assert(device_sensors(s)[12].0);
    } else if 14 <= i <= 16 {
        assert(cell_extremes(s)[i - 14].0);
    } else if i == 17 {
        assert(device_sensors(s)[9].0);
    }
}

/// What the state document tells gets an entity with its key: all of it but the two limits of
/// the state of charge, and but the extremes of the cells where no cells are listed.
pub proof fn law_told_values_get_an_entity(root: Seq<char>, caps: Capabilities, s: BatteryStatus, key: Seq<char>)
    requires
        state_members(s).contains_key(key),
        key != "soc_limit_max"@,
        key != "soc_limit_min"@,
        s.cells@.len() == 0 ==> key != "cell_min"@ && key != "cell_max"@ && key != "cell_delta"@,
    ensures
        has_key(entities(root, caps, s), key),
{
    law_state_holds_only_what_is_reported(s, key);
    if exists|i: int|
        0 <= i < device_values(s).len() && (#[trigger] device_values(s)[i]).0 == key && device_values(s)[i].1 is Some {
        let i = choose|i: int|
            0 <= i < device_values(s).len() && (#[trigger] device_values(s)[i]).0 == key && device_values(s)[i].1 is Some;
        lemma_device_value_shown(s, i);
    }
    if listed(device_sensors(s), key) {
        lemma_listed_keys_shown(Seq::empty(), device_sensors(s), key);
    }
    let es = with_entities(Seq::empty(), device_sensors(s));
    if has_key(es, key) || of_probe(s.temperatures@, key) {
        lemma_probe_keys_shown(es, s.temperatures@, key);
    }
    let es = with_probe_sensors(es, s.temperatures@);
    if has_key(es, key) || (s.cells@.len() > 0 && listed(cell_extremes(s), key)) || of_cell(s.cells@, key) {
        lemma_cell_sensor_keys_shown(es, s, key);
    }
    let es = with_cell_sensors(es, s);
    let active = binary("Alarm"@, "alarm_active"@, Some("problem"@));
    let alarms = sensor("Alarms"@, "alarms"@, None, None, None);
    if has_key(es, key) || key == "alarm_active"@ {
        lemma_key_with(es, true, active, key);
    }
    if has_key(es.push(active), key) || key == "alarms"@ {
        lemma_key_with(es.push(active), true, alarms, key);
    }
    let es = with_alarm_sensors(es);
    let charging = toggle(root, caps.toggle_charge, "Charging"@, "charging"@, "charging"@, Some("battery_charging"@));
    let discharging = toggle(root, caps.toggle_discharge, "Discharging"@, "discharging"@, "discharging"@, None);
    if has_key(es, key) || (s.charging is Some && key == "charging"@) {
        lemma_key_with(es, s.charging is Some, charging, key);
    }
    let more = with_entity(es, s.charging is Some, charging);
    if has_key(more, key) || (s.discharging is Some && key == "discharging"@) {
        lemma_key_with(more, s.discharging is Some, discharging, key);
    }
    let es = with_mosfets(es, root, caps, s);
    if has_key(es, key) || of_switch(s.switches@, key) {
        lemma_switch_keys_shown(es, root, caps, s.switches@, key);
    }
    let es = with_switch_entities(es, root, caps, s.switches@);
    if has_key(es, key) || of_port(s.ports@, key) {
        lemma_port_keys_shown(es, root, caps, s.ports@, key);
    }
    let es = with_port_entities(es, root, caps, s.ports@);
    lemma_key_with(es, caps.set_charge_limit, charge_limit(root), key);
}

} // verus!
