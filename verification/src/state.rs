//! The state document of a device.

use crate::json::{content, integer, members, no_members, object, put, string, Json, Members};
use crate::reading::{r3, reading_json, Reading};
use crate::slug::{slug, slugify};
use crate::status::{BatteryStatus, CellState, PortState, SwitchState, TemperatureProbe};
use crate::text::{decimal, join, joined, push_decimal, texts};
use vstd::prelude::*;
use vstd::string::*;

verus! {

/// `ON` or `OFF`.
pub open spec fn onoff_json(on: bool) -> Json {
    Json::Text(if on { "ON"@ } else { "OFF"@ })
}

/// A measured value as a member.
pub open spec fn reading_member(v: Option<Reading>) -> Option<Json> {
    match v {
        Some(r) => Some(reading_json(r)),
        None => None,
    }
}

/// An `ON`/`OFF` state as a member.
pub open spec fn onoff_member(v: Option<bool>) -> Option<Json> {
    match v {
        Some(on) => Some(onoff_json(on)),
        None => None,
    }
}

/// A count as a member.
pub open spec fn count_member(v: Option<u64>) -> Option<Json> {
    match v {
        Some(n) => Some(Json::Integer(n)),
        None => None,
    }
}

/// Adds a member, if it is present.
pub open spec fn with_member(doc: Members, key: Seq<char>, v: Option<Json>) -> Members {
    match v {
        Some(j) => doc.insert(key, j),
        None => doc,
    }
}

/// Adds the members of a list that are present, one after another.
pub open spec fn with_members(doc: Members, list: Seq<(Seq<char>, Option<Json>)>) -> Members
    decreases list.len(),
{
    if list.len() == 0 {
        doc
    } else {
        let (key, v) = list.last();
        with_member(with_members(doc, list.drop_last()), key, v)
    }
}

/// The values of the device as a whole, under their keys.
pub open spec fn device_values(s: BatteryStatus) -> Seq<(Seq<char>, Option<Json>)> {
    Seq::empty()
        .push(("soc"@, reading_member(s.soc)))
        .push(("soh"@, reading_member(s.soh)))
        .push(("voltage"@, reading_member(s.voltage)))
        .push(("current"@, reading_member(s.current)))
        .push(("power_in"@, reading_member(s.power_in)))
        .push(("power_out"@, reading_member(s.power_out)))
        .push(("time_remaining_h"@, reading_member(s.time_remaining_h)))
        .push(("capacity_remaining_ah"@, reading_member(s.capacity_remaining_ah)))
        .push(("capacity_full_ah"@, reading_member(s.capacity_full_ah)))
        .push(("charge_current_limit_a"@, reading_member(s.charge_current_limit_a)))
        .push(("discharge_current_limit_a"@, reading_member(s.discharge_current_limit_a)))
        .push(("soc_limit_max"@, reading_member(s.soc_limit_max)))
        .push(("soc_limit_min"@, reading_member(s.soc_limit_min)))
        .push(("temperature"@, reading_member(s.temperature_c)))
        .push(("cell_min"@, reading_member(s.cell_min)))
        .push(("cell_max"@, reading_member(s.cell_max)))
        .push(("cell_delta"@, reading_member(s.cell_delta)))
        .push(("cycles"@, count_member(s.cycles)))
        .push(("charging"@, onoff_member(s.charging)))
        .push(("discharging"@, onoff_member(s.discharging)))
}

/// The key of a temperature probe.
pub open spec fn probe_key(id: Seq<char>) -> Seq<char> {
    "temp_"@ + slug(id)
}

/// The key of a switch.
pub open spec fn switch_key(id: Seq<char>) -> Seq<char> {
    "sw_"@ + slug(id)
}

/// The key of a port's state.
pub open spec fn port_key(id: Seq<char>) -> Seq<char> {
    "port_"@ + slug(id)
}

/// The key of a port's power.
pub open spec fn port_power_key(id: Seq<char>) -> Seq<char> {
    port_key(id) + "_w"@
}

/// The key of a cell.
pub open spec fn cell_key(index: u64) -> Seq<char> {
    "cell_"@ + decimal(index as nat)
}

/// Adds the temperature probes, one after another.
pub open spec fn with_probes(doc: Members, probes: Seq<TemperatureProbe>) -> Members
    decreases probes.len(),
{
    if probes.len() == 0 {
        doc
    } else {
        let p = probes.last();
        with_probes(doc, probes.drop_last()).insert(probe_key(p.id@), reading_json(p.celsius))
    }
}

/// Adds the switches, one after another.
pub open spec fn with_switches(doc: Members, switches: Seq<SwitchState>) -> Members
    decreases switches.len(),
{
    if switches.len() == 0 {
        doc
    } else {
        let w = switches.last();
        with_switches(doc, switches.drop_last()).insert(switch_key(w.id@), onoff_json(w.on))
    }
}

/// Adds the ports, one after another.
pub open spec fn with_ports(doc: Members, ports: Seq<PortState>) -> Members
    decreases ports.len(),
{
    if ports.len() == 0 {
        doc
    } else {
        let p = ports.last();
        let d = with_member(with_ports(doc, ports.drop_last()), port_key(p.id@), onoff_member(p.on));
        with_member(d, port_power_key(p.id@), reading_member(p.watts))
    }
}

/// Adds the cells, one after another.
pub open spec fn with_cells(doc: Members, cells: Seq<CellState>) -> Members
    decreases cells.len(),
{
    if cells.len() == 0 {
        doc
    } else {
        let c = cells.last();
        with_member(with_cells(doc, cells.drop_last()), cell_key(c.index), reading_member(c.voltage))
    }
}

/// The alarms in one line, or `none`.
pub open spec fn alarm_text(alarms: Seq<String>) -> Seq<char> {
    if alarms.len() == 0 {
        "none"@
    } else {
        joined(texts(alarms), ", "@)
    }
}

/// The state document: one member for each value that the snapshot holds, on one level.
/// Where two values have the same key, the later one counts.
pub open spec fn state_members(s: BatteryStatus) -> Members {
    let d = with_probes(with_members(Members::empty(), device_values(s)), s.temperatures@);
    let d = with_switches(d, s.switches@);
    let d = with_ports(d, s.ports@);
    let d = with_cells(d, s.cells@);
    d.insert("alarms"@, Json::Text(alarm_text(s.alarms@))).insert(
        "alarm_active"@,
        onoff_json(s.alarms@.len() > 0),
    )
}

/// `ON` or `OFF` as a JSON string.
pub fn onoff(on: bool) -> (r: serde_json::Value)
    ensures
        content(r) == onoff_json(on),
        content(r) == Json::Text(if on { "ON"@ } else { "OFF"@ }),
{
    if on {
        string("ON")
    } else {
        string("OFF")
    }
}

/// Sets a measured value, if there is one.
fn put_reading(m: &mut serde_json::Map<String, serde_json::Value>, key: &str, v: Option<Reading>)
    ensures
        members(*final(m)) == with_member(members(*old(m)), key@, reading_member(v)),
{
    if let Some(r) = v {
        put(m, key, r3(r));
    }
}

/// Sets an `ON`/`OFF` member, if its state is known.
fn put_onoff(m: &mut serde_json::Map<String, serde_json::Value>, key: &str, v: Option<bool>)
    ensures
        members(*final(m)) == with_member(members(*old(m)), key@, onoff_member(v)),
{
    if let Some(on) = v {
        put(m, key, onoff(on));
    }
}

/// Builds a key out of a prefix and the slug of an id.
pub fn slug_key(prefix: &str, id: &str) -> (r: String)
    ensures
        r@ == prefix@ + slug(id@),
{
    prefix.to_owned().concat(slugify(id).as_str())
}

/// Builds the key of a cell.
pub fn make_cell_key(index: u64) -> (r: String)
    ensures
        r@ == cell_key(index),
        r@ == "cell_"@ + decimal(index as nat),
{
    let mut key = "cell_".to_owned();
    push_decimal(&mut key, index as u128);
    key
}

/// A list with one more member.
proof fn lemma_one_more(doc: Members, list: Seq<(Seq<char>, Option<Json>)>, key: Seq<char>, v: Option<Json>)
    ensures
        with_members(doc, list.push((key, v))) == with_member(with_members(doc, list), key, v),
{
    assert(list.push((key, v)).drop_last() =~= list);
}

/// Collects the values of the device as a whole.
fn collect_device_values(s: &BatteryStatus) -> (m: serde_json::Map<String, serde_json::Value>)
    ensures
        members(m) == with_members(Members::empty(), device_values(*s)),
{
    proof {
        assert forall|list: Seq<(Seq<char>, Option<Json>)>, key: Seq<char>, v: Option<Json>|
            #[trigger] with_members(Members::empty(), list.push((key, v))) == with_member(
                with_members(Members::empty(), list),
                key,
                v,
            ) by {
            lemma_one_more(Members::empty(), list, key, v);
        }
    }
    let mut m = no_members();
    put_reading(&mut m, "soc", s.soc);
    put_reading(&mut m, "soh", s.soh);
    put_reading(&mut m, "voltage", s.voltage);
    put_reading(&mut m, "current", s.current);
    put_reading(&mut m, "power_in", s.power_in);
    put_reading(&mut m, "power_out", s.power_out);
    put_reading(&mut m, "time_remaining_h", s.time_remaining_h);
    put_reading(&mut m, "capacity_remaining_ah", s.capacity_remaining_ah);
    put_reading(&mut m, "capacity_full_ah", s.capacity_full_ah);
    put_reading(&mut m, "charge_current_limit_a", s.charge_current_limit_a);
    put_reading(&mut m, "discharge_current_limit_a", s.discharge_current_limit_a);
    put_reading(&mut m, "soc_limit_max", s.soc_limit_max);
    put_reading(&mut m, "soc_limit_min", s.soc_limit_min);
    put_reading(&mut m, "temperature", s.temperature_c);
    put_reading(&mut m, "cell_min", s.cell_min);
    put_reading(&mut m, "cell_max", s.cell_max);
    put_reading(&mut m, "cell_delta", s.cell_delta);
    if let Some(n) = s.cycles {
        put(&mut m, "cycles", integer(n));
    }
    put_onoff(&mut m, "charging", s.charging);
    put_onoff(&mut m, "discharging", s.discharging);
    m
}

/// Flattens a status snapshot into the single-level JSON object that is the state document.
pub fn flatten(s: &BatteryStatus) -> (r: serde_json::Value)
    ensures
        content(r) == Json::Object(state_members(*s)),
{
    let mut m = collect_device_values(s);

    let ghost d = members(m);
    let mut i: usize = 0;
    while i < s.temperatures.len()
        invariant
            i <= s.temperatures.len(),
            members(m) == with_probes(d, s.temperatures@.take(i as int)),
        decreases s.temperatures.len() - i,
    {
        assert(s.temperatures@.take(i + 1).drop_last() =~= s.temperatures@.take(i as int));
        let p = &s.temperatures[i];
        put(&mut m, slug_key("temp_", p.id.as_str()).as_str(), r3(p.celsius));
        i += 1;
    }
    assert(s.temperatures@.take(i as int) =~= s.temperatures@);

    let ghost d = members(m);
    let mut i: usize = 0;
    while i < s.switches.len()
        invariant
            i <= s.switches.len(),
            members(m) == with_switches(d, s.switches@.take(i as int)),
        decreases s.switches.len() - i,
    {
        assert(s.switches@.take(i + 1).drop_last() =~= s.switches@.take(i as int));
        let w = &s.switches[i];
        put(&mut m, slug_key("sw_", w.id.as_str()).as_str(), onoff(w.on));
        i += 1;
    }
    assert(s.switches@.take(i as int) =~= s.switches@);

    let ghost d = members(m);
    let mut i: usize = 0;
    while i < s.ports.len()
        invariant
            i <= s.ports.len(),
            members(m) == with_ports(d, s.ports@.take(i as int)),
        decreases s.ports.len() - i,
    {
        assert(s.ports@.take(i + 1).drop_last() =~= s.ports@.take(i as int));
        let p = &s.ports[i];
        let key = slug_key("port_", p.id.as_str());
        put_onoff(&mut m, key.as_str(), p.on);
        put_reading(&mut m, key.concat("_w").as_str(), p.watts);
        i += 1;
    }
    assert(s.ports@.take(i as int) =~= s.ports@);

    let ghost d = members(m);
    let mut i: usize = 0;
    while i < s.cells.len()
        invariant
            i <= s.cells.len(),
            members(m) == with_cells(d, s.cells@.take(i as int)),
        decreases s.cells.len() - i,
    {
        assert(s.cells@.take(i + 1).drop_last() =~= s.cells@.take(i as int));
        let c = &s.cells[i];
        put_reading(&mut m, make_cell_key(c.index).as_str(), c.voltage);
        i += 1;
    }
    assert(s.cells@.take(i as int) =~= s.cells@);

    if s.alarms.len() == 0 {
        put(&mut m, "alarms", string("none"));
    } else {
        put(&mut m, "alarms", string(join(&s.alarms, ", ").as_str()));
    }
    put(&mut m, "alarm_active", onoff(s.alarms.len() > 0));
    object(m)
}

} // verus!
