//! What stands in every state document, field by field.

use crate::json::{Json, Members};
use crate::reading::{reading_json, Reading};
use crate::slug::slug;
use crate::state::{cell_key, device_values, probe_key, state_members, switch_key, with_cells, with_members, with_ports, with_probes, with_switches};
use crate::state_laws::{law_alarms_are_always_told, law_device_values_stand_under_their_keys, law_state_holds_only_what_is_reported, lemma_cells_keep, lemma_key_shapes, lemma_ports_keep, lemma_switches_keep, member, of_cell, of_port, of_probe, of_switch, key_of_port};
use crate::status::{BatteryStatus, CellState, PortState, SwitchState, TemperatureProbe};
use crate::text::{decimal, texts};
use crate::text_laws::law_lists_are_joined_in_order;
use vstd::prelude::*;

verus! {

/// A measured value is told as its JSON number, and not at all where it is not reported.
pub open spec fn told(v: Option<Reading>) -> Option<Json> {
    match v {
        Some(r) => Some(reading_json(r)),
        None => None,
    }
}

/// A count is told as an integer, and not at all where it is not reported.
pub open spec fn counted(v: Option<u64>) -> Option<Json> {
    match v {
        Some(n) => Some(Json::Integer(n)),
        None => None,
    }
}

/// What is on is told as `ON`, what is off as `OFF`, and what is not reported not at all.
pub open spec fn on_or_off(v: Option<bool>) -> Option<Json> {
    match v {
        Some(true) => Some(Json::Text("ON"@)),
        Some(false) => Some(Json::Text("OFF"@)),
        None => None,
    }
}

/// Each field of a status is told under its own key, as it is, and where it is not reported
/// nothing stands there.
pub proof fn law_fields_are_told(s: BatteryStatus)
    ensures
        member(state_members(s), "soc"@) == told(s.soc),
        member(state_members(s), "soh"@) == told(s.soh),
        member(state_members(s), "voltage"@) == told(s.voltage),
        member(state_members(s), "current"@) == told(s.current),
        member(state_members(s), "power_in"@) == told(s.power_in),
        member(state_members(s), "power_out"@) == told(s.power_out),
        member(state_members(s), "time_remaining_h"@) == told(s.time_remaining_h),
        member(state_members(s), "capacity_remaining_ah"@) == told(s.capacity_remaining_ah),
        member(state_members(s), "capacity_full_ah"@) == told(s.capacity_full_ah),
        member(state_members(s), "charge_current_limit_a"@) == told(s.charge_current_limit_a),
        member(state_members(s), "discharge_current_limit_a"@) == told(s.discharge_current_limit_a),
        member(state_members(s), "soc_limit_max"@) == told(s.soc_limit_max),
        member(state_members(s), "soc_limit_min"@) == told(s.soc_limit_min),
        member(state_members(s), "temperature"@) == told(s.temperature_c),
        member(state_members(s), "cell_min"@) == told(s.cell_min),
        member(state_members(s), "cell_max"@) == told(s.cell_max),
        member(state_members(s), "cell_delta"@) == told(s.cell_delta),
        member(state_members(s), "cycles"@) == counted(s.cycles),
        member(state_members(s), "charging"@) == on_or_off(s.charging),
        member(state_members(s), "discharging"@) == on_or_off(s.discharging),
        member(state_members(s), "alarm_active"@) == on_or_off(Some(s.alarms@.len() > 0)),
{
    let list = device_values(s);
    law_device_values_stand_under_their_keys(s);
    law_alarms_are_always_told(s);
    assert(list[0].0 == "soc"@ && list[0].1 == told(s.soc));
    assert(list[1].0 == "soh"@ && list[1].1 == told(s.soh));
    assert(list[2].0 == "voltage"@ && list[2].1 == told(s.voltage));
    assert(list[3].0 == "current"@ && list[3].1 == told(s.current));
    assert(list[4].0 == "power_in"@ && list[4].1 == told(s.power_in));
    assert(list[5].0 == "power_out"@ && list[5].1 == told(s.power_out));
    assert(list[6].0 == "time_remaining_h"@ && list[6].1 == told(s.time_remaining_h));
    assert(list[7].0 == "capacity_remaining_ah"@ && list[7].1 == told(s.capacity_remaining_ah));
    assert(list[8].0 == "capacity_full_ah"@ && list[8].1 == told(s.capacity_full_ah));
    assert(list[9].0 == "charge_current_limit_a"@ && list[9].1 == told(s.charge_current_limit_a));
    assert(list[10].0 == "discharge_current_limit_a"@ && list[10].1 == told(s.discharge_current_limit_a));
    assert(list[11].0 == "soc_limit_max"@ && list[11].1 == told(s.soc_limit_max));
    assert(list[12].0 == "soc_limit_min"@ && list[12].1 == told(s.soc_limit_min));
    assert(list[13].0 == "temperature"@ && list[13].1 == told(s.temperature_c));
    assert(list[14].0 == "cell_min"@ && list[14].1 == told(s.cell_min));
    assert(list[15].0 == "cell_max"@ && list[15].1 == told(s.cell_max));
    assert(list[16].0 == "cell_delta"@ && list[16].1 == told(s.cell_delta));
    assert(list[17].0 == "cycles"@ && list[17].1 == counted(s.cycles));
    assert(list[18].0 == "charging"@ && list[18].1 == on_or_off(s.charging));
    assert(list[19].0 == "discharging"@ && list[19].1 == on_or_off(s.discharging));
}

/// Without alarms, `none` stands under `alarms`; one alarm stands there as it is; and one more
/// alarm stands behind the others, parted by a comma and a space.
pub proof fn law_alarms_are_listed(s: BatteryStatus, more: BatteryStatus, alarm: String)
    requires
        more.alarms@ == s.alarms@.push(alarm),
    ensures
        s.alarms@.len() == 0 ==> member(state_members(s), "alarms"@) == Some(Json::Text("none"@)),
        s.alarms@.len() == 0 ==> member(state_members(more), "alarms"@) == Some(Json::Text(alarm@)),
        s.alarms@.len() > 0 ==> (member(state_members(s), "alarms"@) matches Some(Json::Text(line)) && member(
            state_members(more),
            "alarms"@,
        ) == Some(Json::Text(line + ", "@ + alarm@))),
{
    law_alarms_are_always_told(s);
    law_alarms_are_always_told(more);
    law_lists_are_joined_in_order(texts(s.alarms@), seq![alarm@], alarm@, ", "@);
    if s.alarms@.len() == 0 {
        assert(texts(more.alarms@) =~= seq![alarm@]);
    } else {
        assert(texts(more.alarms@) =~= texts(s.alarms@) + seq![alarm@]);
    }
}

/// Each probe is told under `temp_` and the slug of its id, unless a later one has the same.
pub proof fn law_probes_are_told(s: BatteryStatus, i: int)
    requires
        0 <= i < s.temperatures@.len(),
        forall|j: int| i < j < s.temperatures@.len() ==> slug((#[trigger] s.temperatures@[j]).id@) != slug(
            s.temperatures@[i].id@,
        ),
    ensures
        member(state_members(s), "temp_"@ + slug(s.temperatures@[i].id@)) == told(Some(s.temperatures@[i].celsius)),
{
    let key = "temp_"@ + slug(s.temperatures@[i].id@);
    let d0 = with_members(Members::empty(), device_values(s));
    assert forall|j: int| i < j < s.temperatures@.len() implies probe_key((#[trigger] s.temperatures@[j]).id@) != key by {
        lemma_behind("temp_"@, slug(s.temperatures@[j].id@), slug(s.temperatures@[i].id@));
    }
    lemma_probe_counts(d0, s.temperatures@, i);
    lemma_key_shapes(s.temperatures@[i].id@, 0);
    lemma_kept_to_the_end(s, key);
    lemma_switches_keep(with_probes(d0, s.temperatures@), s.switches@, key);
    lemma_ports_keep(with_switches(with_probes(d0, s.temperatures@), s.switches@), s.ports@, key);
}

/// Each switch is told under `sw_` and the slug of its id, unless a later one has the same.
pub proof fn law_switches_are_told(s: BatteryStatus, i: int)
    requires
        0 <= i < s.switches@.len(),
        forall|j: int| i < j < s.switches@.len() ==> slug((#[trigger] s.switches@[j]).id@) != slug(
            s.switches@[i].id@,
        ),
    ensures
        member(state_members(s), "sw_"@ + slug(s.switches@[i].id@)) == on_or_off(Some(s.switches@[i].on)),
{
    let key = "sw_"@ + slug(s.switches@[i].id@);
    let d1 = with_probes(with_members(Members::empty(), device_values(s)), s.temperatures@);
    assert forall|j: int| i < j < s.switches@.len() implies switch_key((#[trigger] s.switches@[j]).id@) != key by {
        lemma_behind("sw_"@, slug(s.switches@[j].id@), slug(s.switches@[i].id@));
    }
    lemma_switch_counts(d1, s.switches@, i);
    lemma_key_shapes(s.switches@[i].id@, 0);
    lemma_kept_to_the_end(s, key);
    lemma_ports_keep(with_switches(d1, s.switches@), s.ports@, key);
}

/// A port tells something under a key.
pub open spec fn port_tells(p: PortState, key: Seq<char>) -> bool {
    ||| p.on is Some && key == "port_"@ + slug(p.id@)
    ||| p.watts is Some && key == "port_"@ + slug(p.id@) + "_w"@
}

/// The state of each port is told under `port_` and the slug of its id, and its power under the
/// same with `_w` behind, unless a later port tells something there.
pub proof fn law_ports_are_told(s: BatteryStatus, i: int)
    requires
        0 <= i < s.ports@.len(),
    ensures
        s.ports@[i].on is Some && (forall|j: int|
            i < j < s.ports@.len() ==> !port_tells(#[trigger] s.ports@[j], "port_"@ + slug(s.ports@[i].id@))) ==> member(
            state_members(s),
            "port_"@ + slug(s.ports@[i].id@),
        ) == on_or_off(s.ports@[i].on),
        s.ports@[i].watts is Some && (forall|j: int|
            i < j < s.ports@.len() ==> !port_tells(#[trigger] s.ports@[j], "port_"@ + slug(s.ports@[i].id@) + "_w"@))
            ==> member(state_members(s), "port_"@ + slug(s.ports@[i].id@) + "_w"@) == told(s.ports@[i].watts),
{
    let p = s.ports@[i];
    let key = "port_"@ + slug(p.id@);
    let power = key + "_w"@;
    let d0 = with_members(Members::empty(), device_values(s));
    let d2 = with_switches(with_probes(d0, s.temperatures@), s.switches@);
    lemma_key_shapes(p.id@, 0);
    lemma_kept_to_the_end(s, key);
    lemma_kept_to_the_end(s, power);
    reveal_strlit("_w");
    assert(power.len() != key.len());
    if p.on is Some && forall|j: int| i < j < s.ports@.len() ==> !port_tells(#[trigger] s.ports@[j], key) {
        lemma_port_counts(d2, s.ports@, i, key);
    }
    if p.watts is Some && forall|j: int| i < j < s.ports@.len() ==> !port_tells(#[trigger] s.ports@[j], power) {
        lemma_port_counts(d2, s.ports@, i, power);
    }
}

/// Each cell that tells its voltage is told under `cell_` and its index, unless a later one with
/// the same index tells its own.
pub proof fn law_cells_are_told(s: BatteryStatus, i: int)
    requires
        0 <= i < s.cells@.len(),
        s.cells@[i].voltage is Some,
        forall|j: int| i < j < s.cells@.len() && (#[trigger] s.cells@[j]).index == s.cells@[i].index
            ==> s.cells@[j].voltage is None,
    ensures
        member(state_members(s), "cell_"@ + decimal(s.cells@[i].index as nat)) == told(s.cells@[i].voltage),
{
    let key = "cell_"@ + decimal(s.cells@[i].index as nat);
    let d0 = with_members(Members::empty(), device_values(s));
    let d3 = with_ports(with_switches(with_probes(d0, s.temperatures@), s.switches@), s.ports@);
    assert forall|j: int| i < j < s.cells@.len() && (#[trigger] s.cells@[j]).voltage is Some implies cell_key(
        s.cells@[j].index,
    ) != key by {
        if cell_key(s.cells@[j].index) == key {
            crate::identity_laws::lemma_cell_keys_tell_apart(s.cells@[j].index, s.cells@[i].index);
        }
    }
    lemma_cell_counts(d3, s.cells@, i);
    lemma_key_shapes(Seq::empty(), s.cells@[i].index);
    reveal_strlit("alarms");
    reveal_strlit("alarm_active");
}

/// One of the keys of the device as a whole.
pub open spec fn device_key(key: Seq<char>) -> bool {
    ||| key == "soc"@ || key == "soh"@ || key == "voltage"@
    ||| key == "current"@ || key == "power_in"@ || key == "power_out"@
    ||| key == "time_remaining_h"@ || key == "capacity_remaining_ah"@ || key == "capacity_full_ah"@
    ||| key == "charge_current_limit_a"@ || key == "discharge_current_limit_a"@ || key == "soc_limit_max"@
    ||| key == "soc_limit_min"@ || key == "temperature"@ || key == "cell_min"@
    ||| key == "cell_max"@ || key == "cell_delta"@ || key == "cycles"@
    ||| key == "charging"@ || key == "discharging"@
    ||| key == "alarms"@ || key == "alarm_active"@
}

/// Nothing else is told: every key is one of the device as a whole, or that of a probe, a
/// switch, a value that a port reports, or a cell that tells its voltage.
pub proof fn law_nothing_else_is_told(s: BatteryStatus, key: Seq<char>)
    requires
        state_members(s).contains_key(key),
    ensures
        ({
            ||| device_key(key)
            ||| exists|i: int| 0 <= i < s.temperatures@.len() && "temp_"@ + slug((#[trigger] s.temperatures@[i]).id@) == key
            ||| exists|i: int| 0 <= i < s.switches@.len() && "sw_"@ + slug((#[trigger] s.switches@[i]).id@) == key
            ||| exists|i: int| 0 <= i < s.ports@.len() && port_tells(#[trigger] s.ports@[i], key)
            ||| exists|i: int|
                0 <= i < s.cells@.len() && (#[trigger] s.cells@[i]).voltage is Some && "cell_"@ + decimal(
                    s.cells@[i].index as nat,
                ) == key
        }),
{
    law_state_holds_only_what_is_reported(s, key);
    if of_probe(s.temperatures@, key) {
        let i = choose|i: int| 0 <= i < s.temperatures@.len() && probe_key((#[trigger] s.temperatures@[i]).id@) == key;
        assert("temp_"@ + slug(s.temperatures@[i].id@) == key);
    } else if of_switch(s.switches@, key) {
        let i = choose|i: int| 0 <= i < s.switches@.len() && switch_key((#[trigger] s.switches@[i]).id@) == key;
        assert("sw_"@ + slug(s.switches@[i].id@) == key);
    } else if of_port(s.ports@, key) {
        let i = choose|i: int| 0 <= i < s.ports@.len() && key_of_port(#[trigger] s.ports@[i], key);
        assert(port_tells(s.ports@[i], key));
    } else if of_cell(s.cells@, key) {
        let i = choose|i: int|
            0 <= i < s.cells@.len() && (#[trigger] s.cells@[i]).voltage is Some && cell_key(s.cells@[i].index) == key;
        assert("cell_"@ + decimal(s.cells@[i].index as nat) == key);
    } else if key != "alarms"@ && key != "alarm_active"@ {
        let i = choose|i: int|
            0 <= i < device_values(s).len() && (#[trigger] device_values(s)[i]).0 == key && device_values(s)[i].1 is Some;
        lemma_device_value_keys(s, i);
    }
}

/// The keys of the device as a whole.
proof fn lemma_device_value_keys(s: BatteryStatus, i: int)
    requires
        0 <= i < device_values(s).len(),
    ensures
        device_key(device_values(s)[i].0),
{
}

/// Texts with the same lead differ behind it.
proof fn lemma_behind(lead: Seq<char>, a: Seq<char>, b: Seq<char>)
    requires
        a != b,
    ensures
        lead + a != lead + b,
{
    let n = lead.len() as int;
    assert((lead + a).skip(n) =~= a);
    assert((lead + b).skip(n) =~= b);
}

/// What no cell and no alarm has as its key stays to the end.
proof fn lemma_kept_to_the_end(s: BatteryStatus, key: Seq<char>)
    requires
        key.len() > 0,
        key[0] == 't' || key[0] == 's' || key[0] == 'p',
    ensures
        ({
            let d0 = with_members(Members::empty(), device_values(s));
            let d3 = with_ports(with_switches(with_probes(d0, s.temperatures@), s.switches@), s.ports@);
            member(state_members(s), key) == member(d3, key)
        }),
{
    let d0 = with_members(Members::empty(), device_values(s));
    let d3 = with_ports(with_switches(with_probes(d0, s.temperatures@), s.switches@), s.ports@);
    lemma_cells_keep(d3, s.cells@, key);
    reveal_strlit("alarms");
    reveal_strlit("alarm_active");
}

/// The last probe with a key counts.
proof fn lemma_probe_counts(doc: Members, probes: Seq<TemperatureProbe>, i: int)
    requires
        0 <= i < probes.len(),
        forall|j: int| i < j < probes.len() ==> probe_key((#[trigger] probes[j]).id@) != probe_key(probes[i].id@),
    ensures
        member(with_probes(doc, probes), probe_key(probes[i].id@)) == Some(reading_json(probes[i].celsius)),
    decreases probes.len(),
{
    if i < probes.len() - 1 {
        let before = probes.drop_last();
        assert(probe_key(probes[probes.len() - 1].id@) != probe_key(probes[i].id@));
        assert(before[i] == probes[i]);
        assert(forall|j: int| i < j < before.len() ==> #[trigger] before[j] == probes[j]);
        lemma_probe_counts(doc, before, i);
    }
}

/// The last switch with a key counts.
proof fn lemma_switch_counts(doc: Members, switches: Seq<SwitchState>, i: int)
    requires
        0 <= i < switches.len(),
        forall|j: int| i < j < switches.len() ==> switch_key((#[trigger] switches[j]).id@) != switch_key(switches[i].id@),
    ensures
        member(with_switches(doc, switches), switch_key(switches[i].id@)) == on_or_off(Some(switches[i].on)),
    decreases switches.len(),
{
    if i < switches.len() - 1 {
        let before = switches.drop_last();
        assert(switch_key(switches[switches.len() - 1].id@) != switch_key(switches[i].id@));
        assert(before[i] == switches[i]);
        assert(forall|j: int| i < j < before.len() ==> #[trigger] before[j] == switches[j]);
        lemma_switch_counts(doc, before, i);
    }
}

/// The last port that tells something under a key counts.
proof fn lemma_port_counts(doc: Members, ports: Seq<PortState>, i: int, key: Seq<char>)
    requires
        0 <= i < ports.len(),
        port_tells(ports[i], key),
        forall|j: int| i < j < ports.len() ==> !port_tells(#[trigger] ports[j], key),
    ensures
        key == "port_"@ + slug(ports[i].id@) ==> member(with_ports(doc, ports), key) == on_or_off(ports[i].on),
        key == "port_"@ + slug(ports[i].id@) + "_w"@ ==> member(with_ports(doc, ports), key) == told(ports[i].watts),
    decreases ports.len(),
{
    reveal_strlit("_w");
    let own = "port_"@ + slug(ports[i].id@);
    assert((own + "_w"@).len() != own.len());
    if i < ports.len() - 1 {
        let before = ports.drop_last();
        assert(!port_tells(ports[ports.len() - 1], key));
        assert(before[i] == ports[i]);
        assert(forall|j: int| i < j < before.len() ==> #[trigger] before[j] == ports[j]);
        lemma_port_counts(doc, before, i, key);
    }
}

/// The last cell with an index that tells its voltage counts.
proof fn lemma_cell_counts(doc: Members, cells: Seq<CellState>, i: int)
    requires
        0 <= i < cells.len(),
        cells[i].voltage is Some,
        forall|j: int| i < j < cells.len() && (#[trigger] cells[j]).voltage is Some ==> cell_key(cells[j].index)
            != cell_key(cells[i].index),
    ensures
        member(with_cells(doc, cells), cell_key(cells[i].index)) == told(cells[i].voltage),
    decreases cells.len(),
{
    if i < cells.len() - 1 {
        let before = cells.drop_last();
        assert(cells[cells.len() - 1].voltage is Some ==> cell_key(cells[cells.len() - 1].index) != cell_key(
            cells[i].index,
        ));
        assert(before[i] == cells[i]);
        assert(forall|j: int| i < j < before.len() ==> #[trigger] before[j] == cells[j]);
        lemma_cell_counts(doc, before, i);
    }
}

} // verus!
