//! What holds of every state document.

use crate::json::{Json, Members};
use crate::slug::slug;
use crate::state::{alarm_text, cell_key, device_values, onoff_json, port_key, port_power_key, probe_key, state_members, switch_key, with_cells, with_members, with_ports, with_probes, with_switches};
use crate::status::{BatteryStatus, CellState, PortState, SwitchState, TemperatureProbe};
use crate::text::{decimal, digit};
use vstd::prelude::*;

verus! {

/// The member under a key, if there is one.
pub open spec fn member(doc: Members, key: Seq<char>) -> Option<Json> {
    if doc.contains_key(key) {
        Some(doc[key])
    } else {
        None
    }
}

/// A number by which the fixed keys differ.
pub open spec fn mark(key: Seq<char>) -> int {
    key.len() * 1_000_000 + key[0] as int * 1_000 + key.last() as int
}

/// The fixed keys are all different.
pub(crate) proof fn lemma_marks()
    ensures
        mark("soc"@) == 3_115_099,
        mark("soh"@) == 3_115_104,
        mark("voltage"@) == 7_118_101,
        mark("current"@) == 7_099_116,
        mark("power_in"@) == 8_112_110,
        mark("power_out"@) == 9_112_116,
        mark("time_remaining_h"@) == 16_116_104,
        mark("capacity_remaining_ah"@) == 21_099_104,
        mark("capacity_full_ah"@) == 16_099_104,
        mark("charge_current_limit_a"@) == 22_099_097,
        mark("discharge_current_limit_a"@) == 25_100_097,
        mark("soc_limit_max"@) == 13_115_120,
        mark("soc_limit_min"@) == 13_115_110,
        mark("temperature"@) == 11_116_101,
        mark("cell_min"@) == 8_099_110,
        mark("cell_max"@) == 8_099_120,
        mark("cell_delta"@) == 10_099_097,
        mark("cycles"@) == 6_099_115,
        mark("charging"@) == 8_099_103,
        mark("discharging"@) == 11_100_103,
        mark("alarms"@) == 6_097_115,
        mark("alarm_active"@) == 12_097_101,
{
    reveal_strlit("soc");
    reveal_strlit("soh");
    reveal_strlit("voltage");
    reveal_strlit("current");
    reveal_strlit("power_in");
    reveal_strlit("power_out");
    reveal_strlit("time_remaining_h");
    reveal_strlit("capacity_remaining_ah");
    reveal_strlit("capacity_full_ah");
    reveal_strlit("charge_current_limit_a");
    reveal_strlit("discharge_current_limit_a");
    reveal_strlit("soc_limit_max");
    reveal_strlit("soc_limit_min");
    reveal_strlit("temperature");
    reveal_strlit("cell_min");
    reveal_strlit("cell_max");
    reveal_strlit("cell_delta");
    reveal_strlit("cycles");
    reveal_strlit("charging");
    reveal_strlit("discharging");
    reveal_strlit("alarms");
    reveal_strlit("alarm_active");
}

/// Where a fixed key stands in the list of values, by its mark.
pub open spec fn place(mark: int) -> int {
    if mark == 3_115_099 { 0 }
    else if mark == 3_115_104 { 1 }
    else if mark == 7_118_101 { 2 }
    else if mark == 7_099_116 { 3 }
    else if mark == 8_112_110 { 4 }
    else if mark == 9_112_116 { 5 }
    else if mark == 16_116_104 { 6 }
    else if mark == 21_099_104 { 7 }
    else if mark == 16_099_104 { 8 }
    else if mark == 22_099_097 { 9 }
    else if mark == 25_100_097 { 10 }
    else if mark == 13_115_120 { 11 }
    else if mark == 13_115_110 { 12 }
    else if mark == 11_116_101 { 13 }
    else if mark == 8_099_110 { 14 }
    else if mark == 8_099_120 { 15 }
    else if mark == 10_099_097 { 16 }
    else if mark == 6_099_115 { 17 }
    else if mark == 8_099_103 { 18 }
    else if mark == 11_100_103 { 19 }
    else { -1 }
}

/// Where the keys of a list differ, each member of it stands under its key.
proof fn lemma_members_found(list: Seq<(Seq<char>, Option<Json>)>)
    requires
        forall|i: int, j: int| 0 <= i < j < list.len() ==> (#[trigger] list[i]).0 != (#[trigger] list[j]).0,
    ensures
        forall|i: int| 0 <= i < list.len() ==> member(with_members(Members::empty(), list), (#[trigger] list[i]).0)
            == list[i].1,
        forall|k: Seq<char>| #[trigger] with_members(Members::empty(), list).contains_key(k) ==> exists|i: int|
            0 <= i < list.len() && (#[trigger] list[i]).0 == k,
    decreases list.len(),
{
    if list.len() > 0 {
        let before = list.drop_last();
        lemma_members_found(before);
        let doc = with_members(Members::empty(), list);
        assert forall|i: int| 0 <= i < list.len() implies member(doc, (#[trigger] list[i]).0) == list[i].1 by {
            if i < before.len() {
                assert(before[i] == list[i]);
                assert(list[i].0 != list[list.len() - 1].0);
            } else if with_members(Members::empty(), before).contains_key(list[i].0) {
                let j = choose|j: int| 0 <= j < before.len() && (#[trigger] before[j]).0 == list[i].0;
                assert(list[j].0 != list[i].0);
            }
        }
        assert forall|k: Seq<char>| #[trigger] doc.contains_key(k) implies exists|i: int|
            0 <= i < list.len() && (#[trigger] list[i]).0 == k by {
            if k == list.last().0 {
                assert(list[list.len() - 1].0 == k);
            } else {
                assert(with_members(Members::empty(), before).contains_key(k));
                let j = choose|j: int| 0 <= j < before.len() && (#[trigger] before[j]).0 == k;
                assert(list[j].0 == k);
            }
        }
    }
}

/// The keys of the device as a whole are all different.
pub(crate) proof fn lemma_device_keys(s: BatteryStatus)
    ensures
        forall|i: int| 0 <= i < device_values(s).len() ==> place(mark((#[trigger] device_values(s)[i]).0)) == i,
        device_values(s).len() == 20,
{
    lemma_marks();
}

/// No two values of the device as a whole have the same key.
proof fn lemma_device_values_apart(s: BatteryStatus)
    ensures
        forall|i: int, j: int|
            0 <= i < j < device_values(s).len() ==> (#[trigger] device_values(s)[i]).0 != (#[trigger] device_values(s)[j]).0,
{
    lemma_device_keys(s);
    let list = device_values(s);
    assert forall|i: int, j: int| 0 <= i < j < list.len() implies (#[trigger] list[i]).0 != (#[trigger] list[j]).0 by {
        assert(place(mark(list[i].0)) == i);
        assert(place(mark(list[j].0)) == j);
    }
}

/// `temp_` and more.
pub open spec fn probe_like(k: Seq<char>) -> bool {
    k.len() >= 5 && k[0] == 't' && k[1] == 'e' && k[2] == 'm' && k[3] == 'p' && k[4] == '_'
}

/// `sw_` and more.
pub open spec fn switch_like(k: Seq<char>) -> bool {
    k.len() >= 3 && k[0] == 's' && k[1] == 'w' && k[2] == '_'
}

/// `port_` and more.
pub open spec fn port_like(k: Seq<char>) -> bool {
    k.len() >= 5 && k[0] == 'p' && k[1] == 'o' && k[2] == 'r' && k[3] == 't' && k[4] == '_'
}

/// `cell_`, a digit and more.
pub open spec fn cell_like(k: Seq<char>) -> bool {
    &&& k.len() >= 6 && k[0] == 'c' && k[1] == 'e' && k[2] == 'l' && k[3] == 'l' && k[4] == '_'
    &&& '0' <= k[5] <= '9'
}

/// A key that no probe, switch, port or cell can have.
pub open spec fn fixed(k: Seq<char>) -> bool {
    !probe_like(k) && !switch_like(k) && !port_like(k) && !cell_like(k)
}

/// A decimal number starts with a digit.
pub(crate) proof fn lemma_decimal_starts(n: nat)
    ensures
        decimal(n).len() > 0,
        '0' <= decimal(n)[0] <= '9',
    decreases n,
{
    if n >= 10 {
        lemma_decimal_starts(n / 10);
    }
}

/// The keys of probes, switches, ports and cells start as they should.
pub(crate) proof fn lemma_key_shapes(id: Seq<char>, index: u64)
    ensures
        probe_like(probe_key(id)),
        switch_like(switch_key(id)),
        port_like(port_key(id)),
        port_like(port_power_key(id)),
        cell_like(cell_key(index)),
{
    reveal_strlit("temp_");
    reveal_strlit("sw_");
    reveal_strlit("port_");
    reveal_strlit("cell_");
    lemma_decimal_starts(index as nat);
}

/// The probes leave other members alone.
pub(crate) proof fn lemma_probes_keep(doc: Members, probes: Seq<TemperatureProbe>, k: Seq<char>)
    requires
        !probe_like(k),
    ensures
        member(with_probes(doc, probes), k) == member(doc, k),
    decreases probes.len(),
{
    if probes.len() > 0 {
        lemma_probes_keep(doc, probes.drop_last(), k);
        lemma_key_shapes(probes.last().id@, 0);
    }
}

/// The switches leave other members alone.
pub(crate) proof fn lemma_switches_keep(doc: Members, switches: Seq<SwitchState>, k: Seq<char>)
    requires
        !switch_like(k),
    ensures
        member(with_switches(doc, switches), k) == member(doc, k),
    decreases switches.len(),
{
    if switches.len() > 0 {
        lemma_switches_keep(doc, switches.drop_last(), k);
        lemma_key_shapes(switches.last().id@, 0);
    }
}

/// The ports leave other members alone.
pub(crate) proof fn lemma_ports_keep(doc: Members, ports: Seq<PortState>, k: Seq<char>)
    requires
        !port_like(k),
    ensures
        member(with_ports(doc, ports), k) == member(doc, k),
    decreases ports.len(),
{
    if ports.len() > 0 {
        lemma_ports_keep(doc, ports.drop_last(), k);
        lemma_key_shapes(ports.last().id@, 0);
    }
}

/// The cells leave other members alone.
pub(crate) proof fn lemma_cells_keep(doc: Members, cells: Seq<CellState>, k: Seq<char>)
    requires
        !cell_like(k),
    ensures
        member(with_cells(doc, cells), k) == member(doc, k),
    decreases cells.len(),
{
    if cells.len() > 0 {
        lemma_cells_keep(doc, cells.drop_last(), k);
        lemma_key_shapes(Seq::empty(), cells.last().index);
    }
}

/// The document after the probes, the switches, the ports and the cells.
spec fn before_alarms(s: BatteryStatus) -> Members {
    let d = with_probes(with_members(Members::empty(), device_values(s)), s.temperatures@);
    let d = with_switches(d, s.switches@);
    let d = with_ports(d, s.ports@);
    with_cells(d, s.cells@)
}

/// Probes, switches, ports and cells leave the fixed keys alone.
proof fn lemma_fixed_members(s: BatteryStatus, k: Seq<char>)
    requires
        fixed(k),
    ensures
        member(before_alarms(s), k) == member(with_members(Members::empty(), device_values(s)), k),
{
    let d0 = with_members(Members::empty(), device_values(s));
    let d1 = with_probes(d0, s.temperatures@);
    let d2 = with_switches(d1, s.switches@);
    let d3 = with_ports(d2, s.ports@);
    lemma_probes_keep(d0, s.temperatures@, k);
    lemma_switches_keep(d1, s.switches@, k);
    lemma_ports_keep(d2, s.ports@, k);
    lemma_cells_keep(d3, s.cells@, k);
}

/// The keys of the device as a whole are fixed, and none is an alarm key.
pub(crate) proof fn lemma_device_keys_are_fixed(s: BatteryStatus, i: int)
    requires
        0 <= i < device_values(s).len(),
    ensures
        fixed(device_values(s)[i].0),
        device_values(s)[i].0 != "alarms"@,
        device_values(s)[i].0 != "alarm_active"@,
{
    lemma_marks();
    lemma_device_keys(s);
    reveal_strlit("soc");
    reveal_strlit("soh");
    reveal_strlit("voltage");
    reveal_strlit("current");
    reveal_strlit("power_in");
    reveal_strlit("power_out");
    reveal_strlit("time_remaining_h");
    reveal_strlit("capacity_remaining_ah");
    reveal_strlit("capacity_full_ah");
    reveal_strlit("charge_current_limit_a");
    reveal_strlit("discharge_current_limit_a");
    reveal_strlit("soc_limit_max");
    reveal_strlit("soc_limit_min");
    reveal_strlit("temperature");
    reveal_strlit("cell_min");
    reveal_strlit("cell_max");
    reveal_strlit("cell_delta");
    reveal_strlit("cycles");
    reveal_strlit("charging");
    reveal_strlit("discharging");
}

/// Each value of the device as a whole stands in the state document under its key if it is
/// reported, and nothing stands there if it is not, whatever probes, switches, ports and
/// cells the device has.
pub proof fn law_device_values_stand_under_their_keys(s: BatteryStatus)
    ensures
        forall|i: int|
            0 <= i < device_values(s).len() ==> member(state_members(s), (#[trigger] device_values(s)[i]).0)
                == device_values(s)[i].1,
{
    let list = device_values(s);
    lemma_device_values_apart(s);
    lemma_members_found(list);
    assert forall|i: int| 0 <= i < list.len() implies member(state_members(s), (#[trigger] list[i]).0) == list[i].1 by {
        lemma_device_keys_are_fixed(s, i);
        lemma_fixed_members(s, list[i].0);
        assert(member(with_members(Members::empty(), list), list[i].0) == list[i].1);
    }
}

/// The state document always tells the alarms, and whether there are any.
pub proof fn law_alarms_are_always_told(s: BatteryStatus)
    ensures
        member(state_members(s), "alarms"@) == Some(Json::Text(alarm_text(s.alarms@))),
        member(state_members(s), "alarm_active"@) == Some(onoff_json(s.alarms@.len() > 0)),
{
    lemma_marks();
}

/// A document that holds all keys of another.
pub open spec fn covers(doc: Members, other: Members) -> bool {
    forall|k: Seq<char>| #[trigger] other.contains_key(k) ==> doc.contains_key(k)
}

/// Probes take no key away, and each has its own.
proof fn lemma_probes_present(doc: Members, probes: Seq<TemperatureProbe>)
    ensures
        covers(with_probes(doc, probes), doc),
        forall|i: int| 0 <= i < probes.len() ==> with_probes(doc, probes).contains_key(
            probe_key((#[trigger] probes[i]).id@),
        ),
    decreases probes.len(),
{
    if probes.len() > 0 {
        let before = probes.drop_last();
        lemma_probes_present(doc, before);
        assert forall|i: int| 0 <= i < probes.len() implies with_probes(doc, probes).contains_key(
            probe_key((#[trigger] probes[i]).id@),
        ) by {
            if i < before.len() {
                assert(before[i] == probes[i]);
            }
        }
    }
}

/// Switches take no key away, and each has its own.
proof fn lemma_switches_present(doc: Members, switches: Seq<SwitchState>)
    ensures
        covers(with_switches(doc, switches), doc),
        forall|i: int| 0 <= i < switches.len() ==> with_switches(doc, switches).contains_key(
            switch_key((#[trigger] switches[i]).id@),
        ),
    decreases switches.len(),
{
    if switches.len() > 0 {
        let before = switches.drop_last();
        lemma_switches_present(doc, before);
        assert forall|i: int| 0 <= i < switches.len() implies with_switches(doc, switches).contains_key(
            switch_key((#[trigger] switches[i]).id@),
        ) by {
            if i < before.len() {
                assert(before[i] == switches[i]);
            }
        }
    }
}

/// Ports take no key away, and each has its own for what it reports.
proof fn lemma_ports_present(doc: Members, ports: Seq<PortState>)
    ensures
        covers(with_ports(doc, ports), doc),
        forall|i: int| 0 <= i < ports.len() && (#[trigger] ports[i]).on is Some ==> with_ports(
            doc,
            ports,
        ).contains_key(port_key(ports[i].id@)),
        forall|i: int| 0 <= i < ports.len() && (#[trigger] ports[i]).watts is Some ==> with_ports(
            doc,
            ports,
        ).contains_key(port_power_key(ports[i].id@)),
    decreases ports.len(),
{
    if ports.len() > 0 {
        let before = ports.drop_last();
        lemma_ports_present(doc, before);
        assert forall|i: int| 0 <= i < ports.len() && (#[trigger] ports[i]).on is Some implies with_ports(
            doc,
            ports,
        ).contains_key(port_key(ports[i].id@)) by {
            if i < before.len() {
                assert(before[i] == ports[i]);
            }
        }
        assert forall|i: int| 0 <= i < ports.len() && (#[trigger] ports[i]).watts is Some implies with_ports(
            doc,
            ports,
        ).contains_key(port_power_key(ports[i].id@)) by {
            if i < before.len() {
                assert(before[i] == ports[i]);
            }
        }
    }
}

/// Cells take no key away, and each that has a voltage has its own.
proof fn lemma_cells_present(doc: Members, cells: Seq<CellState>)
    ensures
        covers(with_cells(doc, cells), doc),
        forall|i: int| 0 <= i < cells.len() && (#[trigger] cells[i]).voltage is Some ==> with_cells(
            doc,
            cells,
        ).contains_key(cell_key(cells[i].index)),
    decreases cells.len(),
{
    if cells.len() > 0 {
        let before = cells.drop_last();
        lemma_cells_present(doc, before);
        assert forall|i: int| 0 <= i < cells.len() && (#[trigger] cells[i]).voltage is Some implies with_cells(
            doc,
            cells,
        ).contains_key(cell_key(cells[i].index)) by {
            if i < before.len() {
                assert(before[i] == cells[i]);
            }
        }
    }
}

/// Every probe, every switch, every reported port value and every cell with a voltage has a
/// member in the state document.
pub proof fn law_listed_values_are_present(s: BatteryStatus)
    ensures
        forall|i: int| 0 <= i < s.temperatures@.len() ==> state_members(s).contains_key(
            probe_key((#[trigger] s.temperatures@[i]).id@),
        ),
        forall|i: int| 0 <= i < s.switches@.len() ==> state_members(s).contains_key(
            switch_key((#[trigger] s.switches@[i]).id@),
        ),
        forall|i: int| 0 <= i < s.ports@.len() && (#[trigger] s.ports@[i]).on is Some ==> state_members(
            s,
        ).contains_key(port_key(s.ports@[i].id@)),
        forall|i: int| 0 <= i < s.ports@.len() && (#[trigger] s.ports@[i]).watts is Some ==> state_members(
            s,
        ).contains_key(port_power_key(s.ports@[i].id@)),
        forall|i: int| 0 <= i < s.cells@.len() && (#[trigger] s.cells@[i]).voltage is Some ==> state_members(
            s,
        ).contains_key(cell_key(s.cells@[i].index)),
{
    let d0 = with_members(Members::empty(), device_values(s));
    let d1 = with_probes(d0, s.temperatures@);
    let d2 = with_switches(d1, s.switches@);
    let d3 = with_ports(d2, s.ports@);
    let d4 = with_cells(d3, s.cells@);
    lemma_probes_present(d0, s.temperatures@);
    lemma_switches_present(d1, s.switches@);
    lemma_ports_present(d2, s.ports@);
    lemma_cells_present(d3, s.cells@);
    assert(covers(state_members(s), d4));
    assert(covers(state_members(s), d3));
    assert(covers(state_members(s), d2));
    assert(covers(state_members(s), d1));
}

/// The key of a value that the snapshot holds: a value of the device as a whole, a probe, a
/// switch, a state or a power of a port, the voltage of a cell, or one of the alarm keys.
pub open spec fn reported(s: BatteryStatus, key: Seq<char>) -> bool {
    ||| key == "alarms"@ || key == "alarm_active"@
    ||| exists|i: int|
        0 <= i < device_values(s).len() && (#[trigger] device_values(s)[i]).0 == key && device_values(s)[i].1 is Some
    ||| of_probe(s.temperatures@, key)
    ||| of_switch(s.switches@, key)
    ||| of_port(s.ports@, key)
    ||| of_cell(s.cells@, key)
}

/// The key of a probe.
pub open spec fn of_probe(probes: Seq<TemperatureProbe>, key: Seq<char>) -> bool {
    exists|i: int| 0 <= i < probes.len() && probe_key((#[trigger] probes[i]).id@) == key
}

/// The key of a switch.
pub open spec fn of_switch(switches: Seq<SwitchState>, key: Seq<char>) -> bool {
    exists|i: int| 0 <= i < switches.len() && switch_key((#[trigger] switches[i]).id@) == key
}

/// The key of a value that a port reports.
pub open spec fn key_of_port(p: PortState, key: Seq<char>) -> bool {
    (p.on is Some && key == port_key(p.id@)) || (p.watts is Some && key == port_power_key(p.id@))
}

/// The key of a value that one of the ports reports.
pub open spec fn of_port(ports: Seq<PortState>, key: Seq<char>) -> bool {
    exists|i: int| 0 <= i < ports.len() && key_of_port(#[trigger] ports[i], key)
}

/// The key of a cell that tells its voltage.
pub open spec fn of_cell(cells: Seq<CellState>, key: Seq<char>) -> bool {
    exists|i: int| 0 <= i < cells.len() && (#[trigger] cells[i]).voltage is Some && cell_key(cells[i].index) == key
}

/// Probes add only keys of their own.
proof fn lemma_probes_add(doc: Members, probes: Seq<TemperatureProbe>, key: Seq<char>)
    requires
        with_probes(doc, probes).contains_key(key),
    ensures
        doc.contains_key(key) || of_probe(probes, key),
    decreases probes.len(),
{
    if probes.len() > 0 {
        let before = probes.drop_last();
        if key == probe_key(probes.last().id@) {
            assert(probe_key(probes[probes.len() - 1].id@) == key);
        } else {
            lemma_probes_add(doc, before, key);
            if of_probe(before, key) {
                let i = choose|i: int| 0 <= i < before.len() && probe_key((#[trigger] before[i]).id@) == key;
                assert(probe_key(probes[i].id@) == key);
            }
        }
    }
}

/// Switches add only keys of their own.
proof fn lemma_switches_add(doc: Members, switches: Seq<SwitchState>, key: Seq<char>)
    requires
        with_switches(doc, switches).contains_key(key),
    ensures
        doc.contains_key(key) || of_switch(switches, key),
    decreases switches.len(),
{
    if switches.len() > 0 {
        let before = switches.drop_last();
        if key == switch_key(switches.last().id@) {
            assert(switch_key(switches[switches.len() - 1].id@) == key);
        } else {
            lemma_switches_add(doc, before, key);
            if of_switch(before, key) {
                let i = choose|i: int| 0 <= i < before.len() && switch_key((#[trigger] before[i]).id@) == key;
                assert(switch_key(switches[i].id@) == key);
            }
        }
    }
}

/// Ports add only keys of what they report.
proof fn lemma_ports_add(doc: Members, ports: Seq<PortState>, key: Seq<char>)
    requires
        with_ports(doc, ports).contains_key(key),
    ensures
        doc.contains_key(key) || of_port(ports, key),
    decreases ports.len(),
{
    if ports.len() > 0 {
        let before = ports.drop_last();
        if key_of_port(ports.last(), key) {
            assert(key_of_port(ports[ports.len() - 1], key));
        } else {
            lemma_ports_add(doc, before, key);
            if of_port(before, key) {
                let i = choose|i: int| 0 <= i < before.len() && key_of_port(#[trigger] before[i], key);
                assert(key_of_port(ports[i], key));
            }
        }
    }
}

/// Cells add only keys of those that tell their voltage.
proof fn lemma_cells_add(doc: Members, cells: Seq<CellState>, key: Seq<char>)
    requires
        with_cells(doc, cells).contains_key(key),
    ensures
        doc.contains_key(key) || of_cell(cells, key),
    decreases cells.len(),
{
    if cells.len() > 0 {
        let before = cells.drop_last();
        if cells.last().voltage is Some && key == cell_key(cells.last().index) {
            assert(cell_key(cells[cells.len() - 1].index) == key);
        } else {
            lemma_cells_add(doc, before, key);
            if of_cell(before, key) {
                let i = choose|i: int|
                    0 <= i < before.len() && (#[trigger] before[i]).voltage is Some && cell_key(before[i].index) == key;
                assert(cells[i].voltage is Some && cell_key(cells[i].index) == key);
            }
        }
    }
}

/// The state document holds nothing but the alarms and what the snapshot reports.
pub proof fn law_state_holds_only_what_is_reported(s: BatteryStatus, key: Seq<char>)
    requires
        state_members(s).contains_key(key),
    ensures
        reported(s, key),
{
    if key != "alarms"@ && key != "alarm_active"@ {
        let d0 = with_members(Members::empty(), device_values(s));
        let d1 = with_probes(d0, s.temperatures@);
        let d2 = with_switches(d1, s.switches@);
        let d3 = with_ports(d2, s.ports@);
        lemma_cells_add(d3, s.cells@, key);
        if d3.contains_key(key) {
            lemma_ports_add(d2, s.ports@, key);
        }
        if d2.contains_key(key) {
            lemma_switches_add(d1, s.switches@, key);
        }
        if d1.contains_key(key) {
            lemma_probes_add(d0, s.temperatures@, key);
        }
        if d0.contains_key(key) {
            lemma_device_values_apart(s);
            lemma_members_found(device_values(s));
            let i = choose|i: int| 0 <= i < device_values(s).len() && (#[trigger] device_values(s)[i]).0 == key;
            assert(member(d0, device_values(s)[i].0) == device_values(s)[i].1);
        }
    }
}

} // verus!
