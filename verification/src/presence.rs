//! What is made for a status is among its entities.

use crate::discovery::{binary, cell_extremes, cell_sensor, charge_limit, device_sensors, entities, probe_sensor, sensor, toggle, with_alarm_sensors, with_cell_sensors, with_each_cell, with_entities, with_entity, with_mosfets, with_port_entities, with_probe_sensors, with_switch_entities, EntityView};
use crate::discovery_laws::{port_entity, port_power_entity, switch_entity};
use crate::status::{BatteryStatus, Capabilities, CellState, PortState, SwitchState, TemperatureProbe};
use vstd::prelude::*;

verus! {

/// One more entity takes none away, and is there.
proof fn lemma_held_with(es: Seq<EntityView>, present: bool, x: EntityView, e: EntityView)
    requires
        es.contains(e) || (present && x == e),
    ensures
        with_entity(es, present, x).contains(e),
{
    let more = with_entity(es, present, x);
    if es.contains(e) {
        let i = choose|i: int| 0 <= i < es.len() && es[i] == e;
        assert(more[i] == e);
    } else {
        assert(more[es.len() as int] == e);
    }
}

/// An entity of a list.
pub(crate) open spec fn of_list(list: Seq<(bool, EntityView)>, e: EntityView) -> bool {
    exists|i: int| 0 <= i < list.len() && #[trigger] list[i] == (true, e)
}

/// The entities of a list are there.
proof fn lemma_held_listed(es: Seq<EntityView>, list: Seq<(bool, EntityView)>, e: EntityView)
    requires
        es.contains(e) || of_list(list, e),
    ensures
        with_entities(es, list).contains(e),
    decreases list.len(),
{
    if list.len() > 0 {
        let before = list.drop_last();
        let (present, x) = list[list.len() - 1];
        if !present || x != e {
            if !es.contains(e) {
                let i = choose|i: int| 0 <= i < list.len() && #[trigger] list[i] == (true, e);
                assert(before[i] == (true, e));
            }
            lemma_held_listed(es, before, e);
        }
        lemma_held_with(with_entities(es, before), present, x, e);
    }
}

/// The sensor of a probe.
pub(crate) open spec fn sensor_of_probe(probes: Seq<TemperatureProbe>, e: EntityView) -> bool {
    exists|i: int| 0 <= i < probes.len() && probe_sensor(#[trigger] probes[i]) == e
}

/// The sensors of the probes are there.
proof fn lemma_held_probes(es: Seq<EntityView>, probes: Seq<TemperatureProbe>, e: EntityView)
    requires
        es.contains(e) || sensor_of_probe(probes, e),
    ensures
        with_probe_sensors(es, probes).contains(e),
    decreases probes.len(),
{
    if probes.len() > 0 {
        let before = probes.drop_last();
        let x = probe_sensor(probes[probes.len() - 1]);
        if x != e {
            if !es.contains(e) {
                let i = choose|i: int| 0 <= i < probes.len() && probe_sensor(#[trigger] probes[i]) == e;
                assert(probe_sensor(before[i]) == e);
            }
            lemma_held_probes(es, before, e);
        }
        lemma_held_with(with_probe_sensors(es, before), true, x, e);
    }
}

/// The sensor of a cell that tells its voltage.
pub(crate) open spec fn sensor_of_cell(cells: Seq<CellState>, e: EntityView) -> bool {
    exists|i: int| 0 <= i < cells.len() && (#[trigger] cells[i]).voltage is Some && cell_sensor(cells[i]) == e
}

/// The sensors of the cells are there.
proof fn lemma_held_cells(es: Seq<EntityView>, cells: Seq<CellState>, e: EntityView)
    requires
        es.contains(e) || sensor_of_cell(cells, e),
    ensures
        with_each_cell(es, cells).contains(e),
    decreases cells.len(),
{
    if cells.len() > 0 {
        let before = cells.drop_last();
        let c = cells[cells.len() - 1];
        if c.voltage is None || cell_sensor(c) != e {
            if !es.contains(e) {
                let i = choose|i: int|
                    0 <= i < cells.len() && (#[trigger] cells[i]).voltage is Some && cell_sensor(cells[i]) == e;
                assert(before[i].voltage is Some && cell_sensor(before[i]) == e);
            }
            lemma_held_cells(es, before, e);
        }
        lemma_held_with(with_each_cell(es, before), c.voltage is Some, cell_sensor(c), e);
    }
}

/// The entity of a switch.
pub(crate) open spec fn entity_of_switch(root: Seq<char>, caps: Capabilities, switches: Seq<SwitchState>, e: EntityView) -> bool {
    exists|i: int| 0 <= i < switches.len() && switch_entity(root, caps, #[trigger] switches[i]) == e
}

/// The entities of the switches are there.
proof fn lemma_held_switches(
    es: Seq<EntityView>,
    root: Seq<char>,
    caps: Capabilities,
    switches: Seq<SwitchState>,
    e: EntityView,
)
    requires
        es.contains(e) || entity_of_switch(root, caps, switches, e),
    ensures
        with_switch_entities(es, root, caps, switches).contains(e),
    decreases switches.len(),
{
    if switches.len() > 0 {
        let before = switches.drop_last();
        let x = switch_entity(root, caps, switches[switches.len() - 1]);
        if x != e {
            if !es.contains(e) {
                let i = choose|i: int|
                    0 <= i < switches.len() && switch_entity(root, caps, #[trigger] switches[i]) == e;
                assert(switch_entity(root, caps, before[i]) == e);
            }
            lemma_held_switches(es, root, caps, before, e);
        }
        lemma_held_with(with_switch_entities(es, root, caps, before), true, x, e);
    }
}

/// An entity of a port.
pub(crate) open spec fn is_of_port(root: Seq<char>, caps: Capabilities, p: PortState, e: EntityView) -> bool {
    (p.on is Some && port_entity(root, caps, p) == e) || (p.watts is Some && port_power_entity(p) == e)
}

/// An entity of one of the ports.
pub(crate) open spec fn entity_of_port(root: Seq<char>, caps: Capabilities, ports: Seq<PortState>, e: EntityView) -> bool {
    exists|i: int| 0 <= i < ports.len() && is_of_port(root, caps, #[trigger] ports[i], e)
}

/// The entities of the ports are there.
proof fn lemma_held_ports(
    es: Seq<EntityView>,
    root: Seq<char>,
    caps: Capabilities,
    ports: Seq<PortState>,
    e: EntityView,
)
    requires
        es.contains(e) || entity_of_port(root, caps, ports, e),
    ensures
        with_port_entities(es, root, caps, ports).contains(e),
    decreases ports.len(),
{
    if ports.len() > 0 {
        let before = ports.drop_last();
        let p = ports[ports.len() - 1];
        if !is_of_port(root, caps, p, e) {
            if !es.contains(e) {
                let i = choose|i: int| 0 <= i < ports.len() && is_of_port(root, caps, #[trigger] ports[i], e);
                assert(is_of_port(root, caps, before[i], e));
            }
            lemma_held_ports(es, root, caps, before, e);
        }
        let es = with_port_entities(es, root, caps, before);
        let x = port_entity(root, caps, p);
        if es.contains(e) || (p.on is Some && x == e) {
            lemma_held_with(es, p.on is Some, x, e);
        }
        lemma_held_with(with_entity(es, p.on is Some, x), p.watts is Some, port_power_entity(p), e);
    }
}

/// An entity that is made for what the status holds.
pub(crate) open spec fn made(root: Seq<char>, caps: Capabilities, s: BatteryStatus, e: EntityView) -> bool {
    ||| of_list(device_sensors(s), e)
    ||| sensor_of_probe(s.temperatures@, e)
    ||| s.cells@.len() > 0 && of_list(cell_extremes(s), e)
    ||| sensor_of_cell(s.cells@, e)
    ||| e == binary("Alarm"@, "alarm_active"@, Some("problem"@))
    ||| e == sensor("Alarms"@, "alarms"@, None, None, None)
    ||| s.charging is Some && e == toggle(
        root,
        caps.toggle_charge,
        "Charging"@,
        "charging"@,
        "charging"@,
        Some("battery_charging"@),
    )
    ||| s.discharging is Some && e == toggle(
        root,
        caps.toggle_discharge,
        "Discharging"@,
        "discharging"@,
        "discharging"@,
        None,
    )
    ||| entity_of_switch(root, caps, s.switches@, e)
    ||| entity_of_port(root, caps, s.ports@, e)
    ||| caps.set_charge_limit && e == charge_limit(root)
}

/// What is made is among the entities.
pub(crate) proof fn lemma_held(root: Seq<char>, caps: Capabilities, s: BatteryStatus, e: EntityView)
    requires
        made(root, caps, s, e),
    ensures
        entities(root, caps, s).contains(e),
{
    let es = with_entities(Seq::empty(), device_sensors(s));
    if of_list(device_sensors(s), e) {
        lemma_held_listed(Seq::empty(), device_sensors(s), e);
    }
    if es.contains(e) || sensor_of_probe(s.temperatures@, e) {
        lemma_held_probes(es, s.temperatures@, e);
    }
    let es = with_probe_sensors(es, s.temperatures@);
    let more = with_entities(es, cell_extremes(s));
    if es.contains(e) || of_list(cell_extremes(s), e) {
        lemma_held_listed(es, cell_extremes(s), e);
    }
    if more.contains(e) || sensor_of_cell(s.cells@, e) {
        lemma_held_cells(more, s.cells@, e);
    }
    let es = with_cell_sensors(es, s);
    let active = binary("Alarm"@, "alarm_active"@, Some("problem"@));
    let alarms = sensor("Alarms"@, "alarms"@, None, None, None);
    if es.contains(e) || e == active {
        lemma_held_with(es, true, active, e);
    }
    if es.push(active).contains(e) || e == alarms {
        lemma_held_with(es.push(active), true, alarms, e);
    }
    let es = with_alarm_sensors(es);
    let charging = toggle(root, caps.toggle_charge, "Charging"@, "charging"@, "charging"@, Some("battery_charging"@));
    let discharging = toggle(root, caps.toggle_discharge, "Discharging"@, "discharging"@, "discharging"@, None);
    if es.contains(e) || (s.charging is Some && e == charging) {
        lemma_held_with(es, s.charging is Some, charging, e);
    }
    let more = with_entity(es, s.charging is Some, charging);
    if more.contains(e) || (s.discharging is Some && e == discharging) {
        lemma_held_with(more, s.discharging is Some, discharging, e);
    }
    let es = with_mosfets(es, root, caps, s);
    if es.contains(e) || entity_of_switch(root, caps, s.switches@, e) {
        lemma_held_switches(es, root, caps, s.switches@, e);
    }
    let es = with_switch_entities(es, root, caps, s.switches@);
    if es.contains(e) || entity_of_port(root, caps, s.ports@, e) {
        lemma_held_ports(es, root, caps, s.ports@, e);
    }
    let es = with_port_entities(es, root, caps, s.ports@);
    lemma_held_with(es, caps.set_charge_limit, charge_limit(root), e);
}

} // verus!
