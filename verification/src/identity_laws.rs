//! What tells the entities of a device apart.

use crate::command::{cut, lemma_cut};
use crate::discovery::{binary, cell_extremes, charge_limit, config_topic, configs, device_sensors, entities, probe_sensor, sensor, toggle, with_alarm_sensors, with_cell_sensors, with_each_cell, with_entities, with_entity, with_mosfets, with_port_entities, with_probe_sensors, with_switch_entities, EntityView, Target};
use crate::discovery_laws::{config_members, formed, law_absent_values_get_no_entity, law_configs_are_complete, law_entities_are_formed, toggled};
use crate::state::{cell_key, device_values, port_key, port_power_key, probe_key, switch_key};
use crate::state_laws::{cell_like, key_of_port, lemma_decimal_starts, lemma_device_keys_are_fixed, lemma_key_shapes, lemma_marks, mark, member, of_cell, of_port, of_probe, of_switch, port_like, probe_like, reported, switch_like};
use crate::status::{BatteryStatus, Capabilities, CellState, PortState, SwitchState, TemperatureProbe};
use crate::text::{decimal, digit};
use vstd::prelude::*;

verus! {

/// The entities of a list have different keys.
pub open spec fn different_keys(es: Seq<EntityView>) -> bool {
    forall|i: int, j: int| 0 <= i < j < es.len() ==> (#[trigger] es[i]).key != (#[trigger] es[j]).key
}

/// Probes, switches, ports and cells that are told apart by their keys.
pub open spec fn different_parts(s: BatteryStatus) -> bool {
    &&& forall|i: int, j: int|
        0 <= i < j < s.temperatures@.len() ==> probe_key((#[trigger] s.temperatures@[i]).id@) != probe_key(
            (#[trigger] s.temperatures@[j]).id@,
        )
    &&& different_cells(s.cells@)
    &&& forall|i: int, j: int|
        0 <= i < j < s.switches@.len() ==> switch_key((#[trigger] s.switches@[i]).id@) != switch_key(
            (#[trigger] s.switches@[j]).id@,
        )
    &&& different_ports(s.ports@)
}

/// Cells of which no two that tell their voltage have the same index.
pub open spec fn different_cells(cells: Seq<CellState>) -> bool {
    forall|i: int, j: int|
        0 <= i < j < cells.len() && (#[trigger] cells[i]).voltage is Some && (#[trigger] cells[j]).voltage is Some
            ==> cells[i].index != cells[j].index
}

/// Ports of which no two reported values have the same key.
pub open spec fn different_ports(ports: Seq<PortState>) -> bool {
    forall|i: int, j: int|
        0 <= i < ports.len() && 0 <= j < ports.len() ==> {
            let a = #[trigger] ports[i];
            let b = #[trigger] ports[j];
            &&& i != j && a.on is Some && b.on is Some ==> port_key(a.id@) != port_key(b.id@)
            &&& i != j && a.watts is Some && b.watts is Some ==> port_power_key(a.id@) != port_power_key(b.id@)
            &&& a.on is Some && b.watts is Some ==> port_key(a.id@) != port_power_key(b.id@)
        }
}

/// Where the entity with a key stands among all entities.
spec fn rank(key: Seq<char>) -> int {
    let m = mark(key);
    if probe_like(key) { 13 }
    else if cell_like(key) { 17 }
    else if switch_like(key) { 22 }
    else if port_like(key) { 23 }
    else if m == 3_115_099 { 0 }
    else if m == 3_115_104 { 1 }
    else if m == 7_118_101 { 2 }
    else if m == 7_099_116 { 3 }
    else if m == 8_112_110 { 4 }
    else if m == 9_112_116 { 5 }
    else if m == 16_116_104 { 6 }
    else if m == 21_099_104 { 7 }
    else if m == 16_099_104 { 8 }
    else if m == 6_099_115 { 9 }
    else if m == 22_099_097 { 10 }
    else if m == 25_100_097 { 11 }
    else if m == 11_116_101 { 12 }
    else if m == 8_099_110 { 14 }
    else if m == 8_099_120 { 15 }
    else if m == 10_099_097 { 16 }
    else if m == 12_097_101 { 18 }
    else if m == 6_097_115 { 19 }
    else if m == 8_099_103 { 20 }
    else if m == 11_100_103 { 21 }
    else { 24 }
}

/// The ranks of the fixed keys.
proof fn lemma_ranks(s: BatteryStatus)
    ensures
        rank("soc"@) == 0,
        rank("soh"@) == 1,
        rank("voltage"@) == 2,
        rank("current"@) == 3,
        rank("power_in"@) == 4,
        rank("power_out"@) == 5,
        rank("time_remaining_h"@) == 6,
        rank("capacity_remaining_ah"@) == 7,
        rank("capacity_full_ah"@) == 8,
        rank("cycles"@) == 9,
        rank("charge_current_limit_a"@) == 10,
        rank("discharge_current_limit_a"@) == 11,
        rank("temperature"@) == 12,
        rank("cell_min"@) == 14,
        rank("cell_max"@) == 15,
        rank("cell_delta"@) == 16,
        rank("alarm_active"@) == 18,
        rank("alarms"@) == 19,
        rank("charging"@) == 20,
        rank("discharging"@) == 21,
        rank("charge_limit"@) == 24,
{
    lemma_marks();
    assert forall|i: int| 0 <= i < device_values(s).len() implies crate::state_laws::fixed(
        (#[trigger] device_values(s)[i]).0,
    ) by {
        lemma_device_keys_are_fixed(s, i);
    }
    let list = device_values(s);
    assert(list[0].0 == "soc"@ && list[1].0 == "soh"@ && list[2].0 == "voltage"@);
    assert(list[3].0 == "current"@ && list[4].0 == "power_in"@ && list[5].0 == "power_out"@);
    assert(list[6].0 == "time_remaining_h"@ && list[7].0 == "capacity_remaining_ah"@);
    assert(list[8].0 == "capacity_full_ah"@ && list[9].0 == "charge_current_limit_a"@);
    assert(list[10].0 == "discharge_current_limit_a"@ && list[13].0 == "temperature"@);
    assert(list[14].0 == "cell_min"@ && list[15].0 == "cell_max"@ && list[16].0 == "cell_delta"@);
    assert(list[17].0 == "cycles"@ && list[18].0 == "charging"@ && list[19].0 == "discharging"@);
    reveal_strlit("alarms");
    reveal_strlit("alarm_active");
    reveal_strlit("charge_limit");
}

/// Different keys, none of them of a rank above `top`.
#[verifier::opaque]
spec fn ranked(es: Seq<EntityView>, top: int) -> bool {
    &&& different_keys(es)
    &&& forall|i: int| 0 <= i < es.len() ==> rank((#[trigger] es[i]).key) <= top
}

/// An entity of a higher rank can follow.
proof fn lemma_next(es: Seq<EntityView>, present: bool, e: EntityView, top: int)
    requires
        ranked(es, top),
        top < rank(e.key),
    ensures
        ranked(with_entity(es, present, e), rank(e.key)),
{
    reveal(ranked);
}

/// The entities of a list with rising ranks have different keys.
proof fn lemma_listed_ranked(es: Seq<EntityView>, list: Seq<(bool, EntityView)>, first: int)
    requires
        ranked(es, first - 1),
        forall|i: int| 0 <= i < list.len() ==> rank((#[trigger] list[i]).1.key) == first + i,
    ensures
        ranked(with_entities(es, list), first + list.len() - 1),
    decreases list.len(),
{
    if list.len() > 0 {
        let before = list.drop_last();
        assert(forall|i: int| 0 <= i < before.len() ==> #[trigger] before[i] == list[i]);
        lemma_listed_ranked(es, before, first);
        let (present, e) = list[list.len() - 1];
        lemma_next(with_entities(es, before), present, e, first + before.len() - 1);
    }
}

/// Each probe has a key of its own.
proof fn lemma_probes_ranked(es: Seq<EntityView>, probes: Seq<TemperatureProbe>)
    requires
        ranked(es, 12),
        forall|i: int, j: int|
            0 <= i < j < probes.len() ==> probe_key((#[trigger] probes[i]).id@) != probe_key((#[trigger] probes[j]).id@),
    ensures
        ranked(with_probe_sensors(es, probes), 13),
        with_probe_sensors(es, probes).len() == es.len() + probes.len(),
        forall|i: int| 0 <= i < es.len() ==> #[trigger] with_probe_sensors(es, probes)[i] == es[i],
        forall|i: int| 0 <= i < probes.len() ==> #[trigger] with_probe_sensors(es, probes)[es.len() + i] == probe_sensor(probes[i]),
    decreases probes.len(),
{
    reveal(ranked);
    if probes.len() > 0 {
        let before = probes.drop_last();
        assert(forall|i: int| 0 <= i < before.len() ==> #[trigger] before[i] == probes[i]);
        lemma_probes_ranked(es, before);
        lemma_key_shapes(probes.last().id@, 0);
        let list = with_probe_sensors(es, before);
        let n = es.len() as int;
        assert forall|i: int| 0 <= i < list.len() implies (#[trigger] list[i]).key != probe_key(probes.last().id@) by {
            if i < n {
                assert(rank(es[i].key) <= 12);
            } else {
                let k = i - n;
                assert(list[n + k] == probe_sensor(before[k]));
                assert(probe_key(probes[k].id@) != probe_key(probes[probes.len() - 1].id@));
            }
        }
    }
}

/// Different numbers have different digits.
proof fn lemma_decimal_tells_apart(a: nat, b: nat)
    requires
        decimal(a) == decimal(b),
    ensures
        a == b,
    decreases a,
{
    let x = decimal(a);
    let y = decimal(b);
    lemma_decimal_starts(a / 10);
    lemma_decimal_starts(b / 10);
    assert(x.last() == digit((a % 10) as int));
    assert(y.last() == digit((b % 10) as int));
    assert(a % 10 == b % 10);
    assert(x.len() == y.len());
    if a >= 10 && b >= 10 {
        assert(x.drop_last() =~= decimal(a / 10));
        assert(y.drop_last() =~= decimal(b / 10));
        lemma_decimal_tells_apart(a / 10, b / 10);
    }
}

/// Different cells have different keys.
pub(crate) proof fn lemma_cell_keys_tell_apart(a: u64, b: u64)
    requires
        cell_key(a) == cell_key(b),
    ensures
        a == b,
{
    let n = "cell_"@.len() as int;
    assert(cell_key(a).skip(n) =~= decimal(a as nat));
    assert(cell_key(b).skip(n) =~= decimal(b as nat));
    lemma_decimal_tells_apart(a as nat, b as nat);
}

/// Each cell that tells its voltage has a key of its own.
proof fn lemma_cells_ranked(es: Seq<EntityView>, cells: Seq<CellState>)
    requires
        ranked(es, 16),
        different_cells(cells),
    ensures
        ranked(with_each_cell(es, cells), 17),
        forall|i: int| 0 <= i < with_each_cell(es, cells).len() ==> rank((#[trigger] with_each_cell(es, cells)[i]).key)
            <= 16 || of_cell(cells, with_each_cell(es, cells)[i].key),
    decreases cells.len(),
{
    reveal(ranked);
    if cells.len() > 0 {
        let before = cells.drop_last();
        let c = cells[cells.len() - 1];
        assert(forall|i: int| 0 <= i < before.len() ==> #[trigger] before[i] == cells[i]);
        lemma_cells_ranked(es, before);
        lemma_key_shapes(Seq::empty(), c.index);
        let list = with_each_cell(es, before);
        assert forall|i: int| 0 <= i < list.len() implies {
            &&& c.voltage is Some ==> (#[trigger] list[i]).key != cell_key(c.index)
            &&& rank(list[i].key) <= 16 || of_cell(cells, list[i].key)
        } by {
            if rank(list[i].key) > 16 {
                let k = choose|k: int|
                    0 <= k < before.len() && (#[trigger] before[k]).voltage is Some && cell_key(before[k].index)
                        == list[i].key;
                assert(cells[k].voltage is Some && cell_key(cells[k].index) == list[i].key);
                if c.voltage is Some && cell_key(cells[k].index) == cell_key(c.index) {
                    lemma_cell_keys_tell_apart(cells[k].index, c.index);
                }
            }
        }
        assert(c.voltage is Some ==> of_cell(cells, cell_key(c.index)));
    }
}

/// The extremes of the cells and the cells have keys of their own.
proof fn lemma_cell_sensors_ranked(es: Seq<EntityView>, s: BatteryStatus)
    requires
        ranked(es, 13),
        different_cells(s.cells@),
    ensures
        ranked(with_cell_sensors(es, s), 17),
{
    lemma_ranks(s);
    if s.cells@.len() == 0 {
        reveal(ranked);
    } else {
        lemma_listed_ranked(es, cell_extremes(s), 14);
        lemma_cells_ranked(with_entities(es, cell_extremes(s)), s.cells@);
    }
}

/// Each switch has a key of its own.
proof fn lemma_switches_ranked(es: Seq<EntityView>, root: Seq<char>, caps: Capabilities, switches: Seq<SwitchState>)
    requires
        ranked(es, 21),
        forall|i: int, j: int|
            0 <= i < j < switches.len() ==> switch_key((#[trigger] switches[i]).id@) != switch_key(
                (#[trigger] switches[j]).id@,
            ),
    ensures
        ranked(with_switch_entities(es, root, caps, switches), 22),
        with_switch_entities(es, root, caps, switches).len() == es.len() + switches.len(),
        forall|i: int| 0 <= i < es.len() ==> #[trigger] with_switch_entities(es, root, caps, switches)[i] == es[i],
        forall|i: int| 0 <= i < switches.len() ==> (#[trigger] with_switch_entities(es, root, caps, switches)[es.len() + i]).key == switch_key(switches[i].id@),
    decreases switches.len(),
{
    reveal(ranked);
    if switches.len() > 0 {
        let before = switches.drop_last();
        assert(forall|i: int| 0 <= i < before.len() ==> #[trigger] before[i] == switches[i]);
        lemma_switches_ranked(es, root, caps, before);
        lemma_key_shapes(switches.last().id@, 0);
        let list = with_switch_entities(es, root, caps, before);
        let n = es.len() as int;
        assert forall|i: int| 0 <= i < list.len() implies (#[trigger] list[i]).key != switch_key(switches.last().id@) by {
            if i < n {
                assert(rank(es[i].key) <= 21);
            } else {
                let k = i - n;
                assert(list[n + k].key == switch_key(before[k].id@));
                assert(switch_key(switches[k].id@) != switch_key(switches[switches.len() - 1].id@));
            }
        }
    }
}

/// Each value of each port has a key of its own.
proof fn lemma_ports_ranked(es: Seq<EntityView>, root: Seq<char>, caps: Capabilities, ports: Seq<PortState>)
    requires
        ranked(es, 22),
        different_ports(ports),
    ensures
        ranked(with_port_entities(es, root, caps, ports), 23),
        forall|i: int| 0 <= i < with_port_entities(es, root, caps, ports).len() ==> rank(
            (#[trigger] with_port_entities(es, root, caps, ports)[i]).key,
        ) <= 22 || of_port(ports, with_port_entities(es, root, caps, ports)[i].key),
    decreases ports.len(),
{
    reveal(ranked);
    if ports.len() > 0 {
        let before = ports.drop_last();
        let p = ports[ports.len() - 1];
        assert(forall|i: int| 0 <= i < before.len() ==> #[trigger] before[i] == ports[i]);
        lemma_ports_ranked(es, root, caps, before);
        lemma_key_shapes(p.id@, 0);
        let list = with_port_entities(es, root, caps, before);
        assert forall|i: int| 0 <= i < list.len() implies {
            &&& p.on is Some ==> (#[trigger] list[i]).key != port_key(p.id@)
            &&& p.watts is Some ==> list[i].key != port_power_key(p.id@)
            &&& rank(list[i].key) <= 22 || of_port(ports, list[i].key)
        } by {
            if rank(list[i].key) > 22 {
                let k = choose|k: int| 0 <= k < before.len() && key_of_port(#[trigger] before[k], list[i].key);
                assert(before[k] == ports[k]);
                assert(key_of_port(ports[k], list[i].key));
            }
        }
        assert(p.on is Some ==> key_of_port(ports[ports.len() - 1], port_key(p.id@)));
        assert(p.watts is Some ==> key_of_port(ports[ports.len() - 1], port_power_key(p.id@)));
    }
}

/// As long as its probes, switches, ports and cells are told apart by their keys, all
/// entities of a device have different keys.
pub proof fn law_entities_have_different_keys(root: Seq<char>, caps: Capabilities, s: BatteryStatus)
    requires
        different_parts(s),
    ensures
        different_keys(entities(root, caps, s)),
{
    lemma_ranks(s);
    assert(ranked(Seq::empty(), -1)) by {
        reveal(ranked);
    }
    lemma_listed_ranked(Seq::empty(), device_sensors(s), 0);
    let es = with_entities(Seq::empty(), device_sensors(s));
    lemma_probes_ranked(es, s.temperatures@);
    let es = with_probe_sensors(es, s.temperatures@);
    lemma_cell_sensors_ranked(es, s);
    let es = with_cell_sensors(es, s);
    let active = binary("Alarm"@, "alarm_active"@, Some("problem"@));
    let alarms = sensor("Alarms"@, "alarms"@, None, None, None);
    lemma_next(es, true, active, 17);
    lemma_next(es.push(active), true, alarms, 18);
    let es = with_alarm_sensors(es);
    let charging = toggle(root, caps.toggle_charge, "Charging"@, "charging"@, "charging"@, Some("battery_charging"@));
    let discharging = toggle(root, caps.toggle_discharge, "Discharging"@, "discharging"@, "discharging"@, None);
    lemma_next(es, s.charging is Some, charging, 19);
    lemma_next(with_entity(es, s.charging is Some, charging), s.discharging is Some, discharging, 20);
    let es = with_mosfets(es, root, caps, s);
    lemma_switches_ranked(es, root, caps, s.switches@);
    let es = with_switch_entities(es, root, caps, s.switches@);
    lemma_ports_ranked(es, root, caps, s.ports@);
    let es = with_port_entities(es, root, caps, s.ports@);
    lemma_next(es, caps.set_charge_limit, charge_limit(root), 23);
    reveal(ranked);
}

/// Behind the prefix, a config topic comes apart into component, device and key.
proof fn lemma_config_topic_parts(t: Target, component: Seq<char>, key: Seq<char>)
    requires
        !component.contains('/'),
    ensures
        ({
            let rest = config_topic(t, component, key).skip(t.prefix.len() as int + 1);
            let tail = "bc_"@ + t.slug + seq!['/'] + (key + "/config"@);
            &&& cut(rest) == Some((component, tail))
            &&& !t.slug.contains('/') ==> cut(tail) == Some(("bc_"@ + t.slug, key + "/config"@))
        }),
{
    reveal_strlit("/");
    reveal_strlit("/bc_");
    reveal_strlit("bc_");
    let rest = config_topic(t, component, key).skip(t.prefix.len() as int + 1);
    let tail = "bc_"@ + t.slug + seq!['/'] + (key + "/config"@);
    assert(rest =~= component + seq!['/'] + tail);
    lemma_cut(component, tail);
    if !t.slug.contains('/') {
        assert(!("bc_"@ + t.slug).contains('/')) by {
            if ("bc_"@ + t.slug).contains('/') {
                let i = choose|i: int| 0 <= i < ("bc_"@ + t.slug).len() && ("bc_"@ + t.slug)[i] == '/';
                assert(i >= 3);
                assert(t.slug[i - 3] == '/');
            }
        }
        lemma_cut("bc_"@ + t.slug, key + "/config"@);
    }
}

/// What stands before a common end is told apart.
proof fn lemma_same_before(a: Seq<char>, b: Seq<char>, end: Seq<char>)
    requires
        a + end == b + end,
    ensures
        a == b,
{
    let n = (a + end).len() - end.len();
    assert((a + end).take(n) =~= a);
    assert((b + end).take(n) =~= b);
}

/// Under one discovery prefix, a config topic belongs to one entity of one device.
pub proof fn law_config_topics_tell_entities_apart(
    a: Target,
    component_a: Seq<char>,
    key_a: Seq<char>,
    b: Target,
    component_b: Seq<char>,
    key_b: Seq<char>,
)
    requires
        a.prefix == b.prefix,
        !a.slug.contains('/'),
        !b.slug.contains('/'),
        !component_a.contains('/'),
        !component_b.contains('/'),
        config_topic(a, component_a, key_a) == config_topic(b, component_b, key_b),
    ensures
        a.slug == b.slug,
        component_a == component_b,
        key_a == key_b,
{
    lemma_config_topic_parts(a, component_a, key_a);
    lemma_config_topic_parts(b, component_b, key_b);
    let n = "bc_"@.len() as int;
    assert(("bc_"@ + a.slug).skip(n) =~= a.slug);
    assert(("bc_"@ + b.slug).skip(n) =~= b.slug);
    lemma_same_before(key_a, key_b, "/config"@);
}

/// The config topics of one device, whatever its slug is, belong to one entity each.
pub(crate) proof fn lemma_topics_of_one_device(
    t: Target,
    component_a: Seq<char>,
    key_a: Seq<char>,
    component_b: Seq<char>,
    key_b: Seq<char>,
)
    requires
        !component_a.contains('/'),
        !component_b.contains('/'),
        config_topic(t, component_a, key_a) == config_topic(t, component_b, key_b),
    ensures
        component_a == component_b,
        key_a == key_b,
{
    lemma_config_topic_parts(t, component_a, key_a);
    lemma_config_topic_parts(t, component_b, key_b);
    let lead = "bc_"@ + t.slug + seq!['/'];
    let n = lead.len() as int;
    assert((lead + (key_a + "/config"@)).skip(n) =~= key_a + "/config"@);
    assert((lead + (key_b + "/config"@)).skip(n) =~= key_b + "/config"@);
    lemma_same_before(key_a, key_b, "/config"@);
}

/// No component's name holds a separator.
pub(crate) proof fn lemma_components_hold_no_separator(root: Seq<char>, caps: Capabilities, s: BatteryStatus, e: EntityView)
    requires
        formed(root, caps, s, e),
    ensures
        !e.component.contains('/'),
{
    reveal_strlit("sensor");
    reveal_strlit("binary_sensor");
    reveal_strlit("switch");
    reveal_strlit("number");
}

/// As long as its probes, switches, ports and cells are told apart by their keys, a device
/// has no two configs with the same unique id, and none with the same topic.
pub proof fn law_configs_are_told_apart(t: Target, caps: Capabilities, s: BatteryStatus, i: int, j: int)
    requires
        different_parts(s),
        0 <= i < j < configs(t, caps, s).len(),
    ensures
        member(config_members(t, caps, s, i), "unique_id"@) != member(config_members(t, caps, s, j), "unique_id"@),
        configs(t, caps, s)[i].0 != configs(t, caps, s)[j].0,
{
    let es = entities(t.root(), caps, s);
    law_entities_have_different_keys(t.root(), caps, s);
    assert(es[i].key != es[j].key);
    law_configs_are_complete(t, caps, s, i);
    law_configs_are_complete(t, caps, s, j);
    let lead = "bc_"@ + t.slug + "_"@;
    let n = lead.len() as int;
    assert((lead + es[i].key).skip(n) =~= es[i].key);
    assert((lead + es[j].key).skip(n) =~= es[j].key);
    law_entities_are_formed(t.root(), caps, s);
    lemma_components_hold_no_separator(t.root(), caps, s, es[i]);
    lemma_components_hold_no_separator(t.root(), caps, s, es[j]);
    if configs(t, caps, s)[i].0 == configs(t, caps, s)[j].0 {
        lemma_topics_of_one_device(t, es[i].component, es[i].key, es[j].component, es[j].key);
    }
}

/// A cell that tells no voltage gets no config, unless another with the same index does.
pub proof fn law_silent_cells_get_no_config(t: Target, caps: Capabilities, s: BatteryStatus, index: u64)
    requires
        forall|i: int| 0 <= i < s.cells@.len() && (#[trigger] s.cells@[i]).index == index ==> s.cells@[i].voltage is None,
    ensures
        forall|i: int| 0 <= i < configs(t, caps, s).len() ==> (#[trigger] configs(t, caps, s)[i]).0 != config_topic(
            t,
            "sensor"@,
            cell_key(index),
        ),
{
    let es = entities(t.root(), caps, s);
    let list = configs(t, caps, s);
    law_entities_are_formed(t.root(), caps, s);
    assert forall|i: int| 0 <= i < list.len() implies (#[trigger] list[i]).0 != config_topic(
        t,
        "sensor"@,
        cell_key(index),
    ) by {
        if list[i].0 == config_topic(t, "sensor"@, cell_key(index)) {
            reveal_strlit("sensor");
            reveal_strlit("number");
            lemma_components_hold_no_separator(t.root(), caps, s, es[i]);
            lemma_topics_of_one_device(t, es[i].component, es[i].key, "sensor"@, cell_key(index));
            assert("sensor"@[0] != "number"@[0]);
            law_absent_values_get_no_entity(t.root(), caps, s, i);
            lemma_silent_cell_is_not_reported(s, index);
        }
    }
}

/// The key of a cell stands for nothing but the voltage of a cell with its index.
proof fn lemma_silent_cell_is_not_reported(s: BatteryStatus, index: u64)
    requires
        forall|i: int| 0 <= i < s.cells@.len() && (#[trigger] s.cells@[i]).index == index ==> s.cells@[i].voltage is None,
    ensures
        !reported(s, cell_key(index)),
{
    let key = cell_key(index);
    if reported(s, key) {
        lemma_key_shapes(Seq::empty(), index);
        reveal_strlit("alarms");
        reveal_strlit("alarm_active");
        if of_probe(s.temperatures@, key) {
            let i = choose|i: int|
                0 <= i < s.temperatures@.len() && probe_key((#[trigger] s.temperatures@[i]).id@) == key;
            lemma_key_shapes(s.temperatures@[i].id@, 0);
        } else if of_switch(s.switches@, key) {
            let i = choose|i: int| 0 <= i < s.switches@.len() && switch_key((#[trigger] s.switches@[i]).id@) == key;
            lemma_key_shapes(s.switches@[i].id@, 0);
        } else if of_port(s.ports@, key) {
            let i = choose|i: int| 0 <= i < s.ports@.len() && key_of_port(#[trigger] s.ports@[i], key);
            lemma_key_shapes(s.ports@[i].id@, 0);
        } else if of_cell(s.cells@, key) {
            let i = choose|i: int|
                0 <= i < s.cells@.len() && (#[trigger] s.cells@[i]).voltage is Some && cell_key(s.cells@[i].index)
                    == key;
            lemma_cell_keys_tell_apart(s.cells@[i].index, index);
        } else {
            let i = choose|i: int|
                0 <= i < device_values(s).len() && (#[trigger] device_values(s)[i]).0 == key && device_values(
                    s,
                )[i].1 is Some;
            lemma_device_keys_are_fixed(s, i);
        }
    }
}

/// What can be toggled is a switch, and what cannot is a binary sensor, as long as the key of a
/// port's state is not that of a port's power.
pub proof fn law_states_are_switches_or_binary_sensors(
    root: Seq<char>,
    caps: Capabilities,
    s: BatteryStatus,
    i: int,
    id: Seq<char>,
    able: bool,
)
    requires
        0 <= i < entities(root, caps, s).len(),
        toggled(caps, s, entities(root, caps, s)[i].key, id, able),
        port_like(entities(root, caps, s)[i].key) ==> different_ports(s.ports@),
    ensures
        entities(root, caps, s)[i].component == if able {
            "switch"@
        } else {
            "binary_sensor"@
        },
{
    let e = entities(root, caps, s)[i];
    law_entities_are_formed(root, caps, s);
    assert(formed(root, caps, s, e));
    lemma_toggled_key(caps, s, e.key, id, able);
    if e.component == "switch"@ {
        let other = choose|other: Seq<char>| #[trigger] toggled(caps, s, e.key, other, true);
        lemma_toggled_key(caps, s, e.key, other, true);
    } else if e.component == "binary_sensor"@ {
        if e.key != "alarm_active"@ {
            let other = choose|other: Seq<char>| #[trigger] toggled(caps, s, e.key, other, false);
            lemma_toggled_key(caps, s, e.key, other, false);
        }
    }
}

/// What a device lets others do with the state under a key.
spec fn ability(caps: Capabilities, key: Seq<char>) -> bool {
    if switch_like(key) {
        caps.controllable
    } else if port_like(key) {
        caps.toggle_ports
    } else if key == "charging"@ {
        caps.toggle_charge
    } else {
        caps.toggle_discharge
    }
}

/// The key of a state tells whether it can be toggled, and it is no key of anything else.
proof fn lemma_toggled_key(caps: Capabilities, s: BatteryStatus, key: Seq<char>, id: Seq<char>, able: bool)
    requires
        toggled(caps, s, key, id, able),
    ensures
        able == ability(caps, key),
        key != "alarm_active"@,
        key != "charge_limit"@,
        port_like(key) && different_ports(s.ports@) ==> forall|i: int|
            0 <= i < s.ports@.len() && (#[trigger] s.ports@[i]).watts is Some ==> port_power_key(s.ports@[i].id@)
                != key,
        port_like(key) || switch_like(key) || key == "charging"@ || key == "discharging"@,
{
    reveal_strlit("charging");
    reveal_strlit("discharging");
    reveal_strlit("alarm_active");
    reveal_strlit("charge_limit");
    lemma_key_shapes(id, 0);
    assert("charging"@.len() != "charge_limit"@.len() && "charging"@.len() != "discharging"@.len());
    assert("discharging"@.len() != "charge_limit"@.len() && "alarm_active"@[0] == 'a');
}

} // verus!
