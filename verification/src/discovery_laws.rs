//! What holds of the discovery configs of every device.

use crate::command::{law_toggle_topics_are_read_back, law_value_topics_are_read_back, parsed, CommandView};
use crate::discovery::{availability_json, binary, cell_extremes, cell_sensor, charge_limit, complete, configs, device_json, device_sensors, disabled, entities, label_or, measurement, probe_sensor, sensor, state_topic, switch, template, toggle, toggle_topic, value_topic, with_alarm_sensors, with_cell_sensors, with_each_cell, with_entities, with_entity, with_mosfets, with_port_entities, with_probe_sensors, with_switch_entities, EntityView, Target};
use crate::json::{Json, Members};
use crate::state::{cell_key, device_values, port_key, port_power_key, probe_key, state_members, switch_key};
use crate::state_laws::{fixed, law_alarms_are_always_told, law_device_values_stand_under_their_keys, law_listed_values_are_present, law_state_holds_only_what_is_reported, lemma_device_keys, lemma_device_keys_are_fixed, lemma_key_shapes, lemma_marks, mark, member, port_like, reported, switch_like};
use crate::status::{BatteryStatus, Capabilities, CellState, PortState, SwitchState, TemperatureProbe};
use crate::text::equal_ignoring_ascii_case;
use vstd::prelude::*;

verus! {

/// Something of the device can be switched.
pub open spec fn can_toggle(caps: Capabilities) -> bool {
    caps.toggle_charge || caps.toggle_discharge || caps.toggle_ports || caps.controllable
}

/// An `ON`/`OFF` state that the snapshot holds, by the key under which it is shown, the id by
/// which it is commanded, and whether the device lets it be toggled: charging, discharging,
/// a free-form switch or a port.
pub open spec fn toggled(caps: Capabilities, s: BatteryStatus, key: Seq<char>, id: Seq<char>, able: bool) -> bool {
    ||| s.charging is Some && key == "charging"@ && id == "charging"@ && able == caps.toggle_charge
    ||| s.discharging is Some && key == "discharging"@ && id == "discharging"@ && able == caps.toggle_discharge
    ||| able == caps.controllable && key == switch_key(id) && exists|i: int|
        0 <= i < s.switches@.len() && (#[trigger] s.switches@[i]).id@ == id
    ||| able == caps.toggle_ports && key == port_key(id) && exists|i: int|
        0 <= i < s.ports@.len() && (#[trigger] s.ports@[i]).id@ == id && s.ports@[i].on is Some
}

/// What an entity's config says of what it shows and what it commands.
pub open spec fn formed(root: Seq<char>, caps: Capabilities, s: BatteryStatus, e: EntityView) -> bool {
    if e.component == "number"@ {
        caps.set_charge_limit && e == charge_limit(root)
    } else {
        &&& member(e.config, "value_template"@) == Some(Json::Text(template(e.key)))
        &&& if e.component == "switch"@ {
            exists|id: Seq<char>| #[trigger]
                toggled(caps, s, e.key, id, true) && member(e.config, "command_topic"@) == Some(
                    Json::Text(toggle_topic(root, id)),
                )
        } else {
            &&& member(e.config, "command_topic"@) is None
            &&& if e.component == "binary_sensor"@ {
                e.key == "alarm_active"@ || exists|id: Seq<char>| #[trigger] toggled(caps, s, e.key, id, false)
            } else {
                e.component == "sensor"@ && measured(s, e.key)
            }
        }
    }
}

/// The key of something that is shown and cannot be toggled: neither charging nor discharging
/// nor a switch, and of the ports only a power that is reported.
pub open spec fn measured(s: BatteryStatus, key: Seq<char>) -> bool {
    &&& key != "charging"@
    &&& key != "discharging"@
    &&& !switch_like(key)
    &&& port_like(key) ==> exists|i: int|
        0 <= i < s.ports@.len() && (#[trigger] s.ports@[i]).watts is Some && port_power_key(s.ports@[i].id@) == key
}

/// All entities of a list have a property.
#[verifier::opaque]
pub(crate) open spec fn all(es: Seq<EntityView>, p: spec_fn(EntityView) -> bool) -> bool {
    forall|i: int| 0 <= i < es.len() ==> p(#[trigger] es[i])
}

/// The keys of configs differ in their lengths from the two that matter here.
proof fn lemma_config_keys()
    ensures
        "value_template"@.len() == 14,
        "command_topic"@.len() == 13,
        "name"@.len() == 4,
        "device_class"@.len() == 12,
        "unit_of_measurement"@.len() == 19,
        "state_class"@.len() == 11,
        "payload_on"@.len() == 10,
        "payload_off"@.len() == 11,
        "state_on"@.len() == 8,
        "state_off"@.len() == 9,
        "enabled_by_default"@.len() == 18,
        "min"@.len() == 3,
        "max"@.len() == 3,
        "step"@.len() == 4,
        "mode"@.len() == 4,
        "icon"@.len() == 4,
        "unique_id"@.len() == 9,
        "object_id"@.len() == 9,
        "state_topic"@.len() == 11,
        "availability"@.len() == 12,
        "availability_mode"@.len() == 17,
        "device"@.len() == 6,
        "sensor"@.len() == 6,
        "binary_sensor"@.len() == 13,
        "switch"@.len() == 6,
        "number"@.len() == 6,
        "sensor"@[0] == 's' && "sensor"@[1] == 'e',
        "switch"@[0] == 's' && "switch"@[1] == 'w',
        "number"@[0] == 'n',
        "unique_id"@[0] == 'u',
        "object_id"@[0] == 'o',
{
    reveal_strlit("value_template");
    reveal_strlit("command_topic");
    reveal_strlit("name");
    reveal_strlit("device_class");
    reveal_strlit("unit_of_measurement");
    reveal_strlit("state_class");
    reveal_strlit("payload_on");
    reveal_strlit("payload_off");
    reveal_strlit("state_on");
    reveal_strlit("state_off");
    reveal_strlit("enabled_by_default");
    reveal_strlit("min");
    reveal_strlit("max");
    reveal_strlit("step");
    reveal_strlit("mode");
    reveal_strlit("icon");
    reveal_strlit("unique_id");
    reveal_strlit("object_id");
    reveal_strlit("state_topic");
    reveal_strlit("availability");
    reveal_strlit("availability_mode");
    reveal_strlit("device");
    reveal_strlit("sensor");
    reveal_strlit("binary_sensor");
    reveal_strlit("switch");
    reveal_strlit("number");
}

/// Sensors show their key and command nothing.
proof fn lemma_sensor_formed(
    root: Seq<char>,
    caps: Capabilities,
    s: BatteryStatus,
    name: Seq<char>,
    key: Seq<char>,
    device_class: Option<Seq<char>>,
    unit: Option<Seq<char>>,
    state_class: Option<Seq<char>>,
)
    requires
        measured(s, key),
    ensures
        formed(root, caps, s, sensor(name, key, device_class, unit, state_class)),
        formed(root, caps, s, disabled(sensor(name, key, device_class, unit, state_class))),
{
    lemma_config_keys();
}

/// Switches show their key and command their id.
proof fn lemma_switch_formed(
    root: Seq<char>,
    caps: Capabilities,
    s: BatteryStatus,
    name: Seq<char>,
    key: Seq<char>,
    id: Seq<char>,
)
    requires
        toggled(caps, s, key, id, true),
    ensures
        formed(root, caps, s, switch(root, name, key, id)),
{
    lemma_config_keys();
    let e = switch(root, name, key, id);
    assert(member(e.config, "value_template"@) == Some(Json::Text(template(key))));
    assert(member(e.config, "command_topic"@) == Some(Json::Text(toggle_topic(root, id))));
    assert(toggled(caps, s, e.key, id, true));
}

/// Binary sensors show their key and command nothing.
proof fn lemma_binary_formed(
    root: Seq<char>,
    caps: Capabilities,
    s: BatteryStatus,
    name: Seq<char>,
    key: Seq<char>,
    id: Seq<char>,
    device_class: Option<Seq<char>>,
)
    requires
        key == "alarm_active"@ || toggled(caps, s, key, id, false),
    ensures
        formed(root, caps, s, binary(name, key, device_class)),
{
    lemma_config_keys();
    let e = binary(name, key, device_class);
    assert(member(e.config, "value_template"@) == Some(Json::Text(template(key))));
    assert(member(e.config, "command_topic"@) is None);
    assert(key != "alarm_active"@ ==> toggled(caps, s, e.key, id, false));
}

/// What can be toggled is well formed as a switch, and what cannot as a binary sensor.
proof fn lemma_toggle_formed(
    root: Seq<char>,
    caps: Capabilities,
    s: BatteryStatus,
    able: bool,
    name: Seq<char>,
    key: Seq<char>,
    id: Seq<char>,
    device_class: Option<Seq<char>>,
)
    requires
        toggled(caps, s, key, id, able),
    ensures
        formed(root, caps, s, toggle(root, able, name, key, id, device_class)),
{
    if able {
        lemma_switch_formed(root, caps, s, name, key, id);
    } else {
        lemma_binary_formed(root, caps, s, name, key, id, device_class);
    }
}

/// A property that one more entity has, too.
proof fn lemma_all_push(es: Seq<EntityView>, e: EntityView, p: spec_fn(EntityView) -> bool)
    requires
        all(es, p),
        p(e),
    ensures
        all(es.push(e), p),
{
    reveal(all);
}

/// A property that one more entity has, too, if it is added.
proof fn lemma_all_with(es: Seq<EntityView>, present: bool, e: EntityView, p: spec_fn(EntityView) -> bool)
    requires
        all(es, p),
        present ==> p(e),
    ensures
        all(with_entity(es, present, e), p),
{
    if present {
        lemma_all_push(es, e, p);
    }
}

/// A property that the entities of a list have, too.
proof fn lemma_all_listed(es: Seq<EntityView>, list: Seq<(bool, EntityView)>, p: spec_fn(EntityView) -> bool)
    requires
        all(es, p),
        forall|i: int| 0 <= i < list.len() && (#[trigger] list[i]).0 ==> p(list[i].1),
    ensures
        all(with_entities(es, list), p),
    decreases list.len(),
{
    if list.len() > 0 {
        let before = list.drop_last();
        assert(forall|i: int| 0 <= i < before.len() ==> #[trigger] before[i] == list[i]);
        lemma_all_listed(es, before, p);
        let (present, e) = list[list.len() - 1];
        lemma_all_with(with_entities(es, before), present, e, p);
    }
}

/// A property of every kind of entity is one of all entities.
pub(crate) proof fn lemma_all_entities(
    root: Seq<char>,
    caps: Capabilities,
    s: BatteryStatus,
    p: spec_fn(EntityView) -> bool,
)
    requires
        forall|i: int| 0 <= i < device_sensors(s).len() && (#[trigger] device_sensors(s)[i]).0 ==> p(
            device_sensors(s)[i].1,
        ),
        forall|i: int| 0 <= i < s.temperatures@.len() ==> p(probe_sensor(#[trigger] s.temperatures@[i])),
        s.cells@.len() > 0 ==> forall|i: int|
            0 <= i < cell_extremes(s).len() && (#[trigger] cell_extremes(s)[i]).0 ==> p(cell_extremes(s)[i].1),
        forall|i: int| 0 <= i < s.cells@.len() && (#[trigger] s.cells@[i]).voltage is Some ==> p(
            cell_sensor(s.cells@[i]),
        ),
        p(binary("Alarm"@, "alarm_active"@, Some("problem"@))),
        p(sensor("Alarms"@, "alarms"@, None, None, None)),
        s.charging is Some ==> p(
            toggle(root, caps.toggle_charge, "Charging"@, "charging"@, "charging"@, Some("battery_charging"@)),
        ),
        s.discharging is Some ==> p(
            toggle(root, caps.toggle_discharge, "Discharging"@, "discharging"@, "discharging"@, None),
        ),
        forall|i: int| 0 <= i < s.switches@.len() ==> p(switch_entity(root, caps, #[trigger] s.switches@[i])),
        forall|i: int| 0 <= i < s.ports@.len() && (#[trigger] s.ports@[i]).on is Some ==> p(
            port_entity(root, caps, s.ports@[i]),
        ),
        forall|i: int| 0 <= i < s.ports@.len() && (#[trigger] s.ports@[i]).watts is Some ==> p(
            port_power_entity(s.ports@[i]),
        ),
        caps.set_charge_limit ==> p(charge_limit(root)),
    ensures
        all(entities(root, caps, s), p),
{
    assert(all(Seq::empty(), p)) by {
        reveal(all);
    }
    lemma_all_listed(Seq::empty(), device_sensors(s), p);
    let es = with_entities(Seq::empty(), device_sensors(s));
    lemma_all_probes(es, s.temperatures@, p);
    let es = with_probe_sensors(es, s.temperatures@);
    lemma_all_cell_sensors(es, s, p);
    let es = with_cell_sensors(es, s);
    let active = binary("Alarm"@, "alarm_active"@, Some("problem"@));
    let alarms = sensor("Alarms"@, "alarms"@, None, None, None);
    lemma_all_push(es, active, p);
    lemma_all_push(es.push(active), alarms, p);
    let es = with_alarm_sensors(es);
    let charging = toggle(root, caps.toggle_charge, "Charging"@, "charging"@, "charging"@, Some("battery_charging"@));
    let discharging = toggle(root, caps.toggle_discharge, "Discharging"@, "discharging"@, "discharging"@, None);
    lemma_all_with(es, s.charging is Some, charging, p);
    lemma_all_with(with_entity(es, s.charging is Some, charging), s.discharging is Some, discharging, p);
    let es = with_mosfets(es, root, caps, s);
    lemma_all_switches(es, root, caps, s.switches@, p);
    let es = with_switch_entities(es, root, caps, s.switches@);
    lemma_all_ports(es, root, caps, s.ports@, p);
    let es = with_port_entities(es, root, caps, s.ports@);
    lemma_all_with(es, caps.set_charge_limit, charge_limit(root), p);
}

/// The entity of a free-form switch.
pub open spec fn switch_entity(root: Seq<char>, caps: Capabilities, w: SwitchState) -> EntityView {
    toggle(root, caps.controllable, label_or(w.label, w.id@), switch_key(w.id@), w.id@, None)
}

/// The entity of a port's state.
pub open spec fn port_entity(root: Seq<char>, caps: Capabilities, p: PortState) -> EntityView {
    toggle(root, caps.toggle_ports, label_or(p.label, p.id@), port_key(p.id@), p.id@, Some("power"@))
}

/// The entity of a port's power.
pub open spec fn port_power_entity(p: PortState) -> EntityView {
    measurement(label_or(p.label, p.id@) + " power"@, port_power_key(p.id@), Some("power"@), "W"@)
}

/// A property that the entities of all probes have, too.
proof fn lemma_all_probes(es: Seq<EntityView>, probes: Seq<TemperatureProbe>, p: spec_fn(EntityView) -> bool)
    requires
        all(es, p),
        forall|i: int| 0 <= i < probes.len() ==> p(probe_sensor(#[trigger] probes[i])),
    ensures
        all(with_probe_sensors(es, probes), p),
    decreases probes.len(),
{
    if probes.len() > 0 {
        let before = probes.drop_last();
        assert(forall|i: int| 0 <= i < before.len() ==> #[trigger] before[i] == probes[i]);
        lemma_all_probes(es, before, p);
        lemma_all_push(with_probe_sensors(es, before), probe_sensor(probes[probes.len() - 1]), p);
    }
}

/// A property that the extremes of the cells and the entities of all cells have, too.
proof fn lemma_all_cell_sensors(es: Seq<EntityView>, s: BatteryStatus, p: spec_fn(EntityView) -> bool)
    requires
        all(es, p),
        s.cells@.len() > 0 ==> forall|i: int|
            0 <= i < cell_extremes(s).len() && (#[trigger] cell_extremes(s)[i]).0 ==> p(cell_extremes(s)[i].1),
        forall|i: int| 0 <= i < s.cells@.len() && (#[trigger] s.cells@[i]).voltage is Some ==> p(
            cell_sensor(s.cells@[i]),
        ),
    ensures
        all(with_cell_sensors(es, s), p),
{
    if s.cells@.len() > 0 {
        lemma_all_listed(es, cell_extremes(s), p);
        lemma_all_cells(with_entities(es, cell_extremes(s)), s.cells@, p);
    }
}

/// A property that the entities of all cells have, too.
proof fn lemma_all_cells(es: Seq<EntityView>, cells: Seq<CellState>, p: spec_fn(EntityView) -> bool)
    requires
        all(es, p),
        forall|i: int| 0 <= i < cells.len() && (#[trigger] cells[i]).voltage is Some ==> p(cell_sensor(cells[i])),
    ensures
        all(with_each_cell(es, cells), p),
    decreases cells.len(),
{
    if cells.len() > 0 {
        let before = cells.drop_last();
        assert(forall|i: int| 0 <= i < before.len() ==> #[trigger] before[i] == cells[i]);
        lemma_all_cells(es, before, p);
        let last = cells[cells.len() - 1];
        lemma_all_with(with_each_cell(es, before), last.voltage is Some, cell_sensor(last), p);
    }
}

/// A property that the entities of all switches have, too.
proof fn lemma_all_switches(
    es: Seq<EntityView>,
    root: Seq<char>,
    caps: Capabilities,
    switches: Seq<SwitchState>,
    p: spec_fn(EntityView) -> bool,
)
    requires
        all(es, p),
        forall|i: int| 0 <= i < switches.len() ==> p(switch_entity(root, caps, #[trigger] switches[i])),
    ensures
        all(with_switch_entities(es, root, caps, switches), p),
    decreases switches.len(),
{
    if switches.len() > 0 {
        let before = switches.drop_last();
        assert(forall|i: int| 0 <= i < before.len() ==> #[trigger] before[i] == switches[i]);
        lemma_all_switches(es, root, caps, before, p);
        lemma_all_push(
            with_switch_entities(es, root, caps, before),
            switch_entity(root, caps, switches[switches.len() - 1]),
            p,
        );
    }
}

/// A property that the entities of all ports have, too.
proof fn lemma_all_ports(
    es: Seq<EntityView>,
    root: Seq<char>,
    caps: Capabilities,
    ports: Seq<PortState>,
    p: spec_fn(EntityView) -> bool,
)
    requires
        all(es, p),
        forall|i: int| 0 <= i < ports.len() && (#[trigger] ports[i]).on is Some ==> p(
            port_entity(root, caps, ports[i]),
        ),
        forall|i: int| 0 <= i < ports.len() && (#[trigger] ports[i]).watts is Some ==> p(
            port_power_entity(ports[i]),
        ),
    ensures
        all(with_port_entities(es, root, caps, ports), p),
    decreases ports.len(),
{
    if ports.len() > 0 {
        let before = ports.drop_last();
        assert(forall|i: int| 0 <= i < before.len() ==> #[trigger] before[i] == ports[i]);
        lemma_all_ports(es, root, caps, before, p);
        let last = ports[ports.len() - 1];
        let es = with_port_entities(es, root, caps, before);
        lemma_all_with(es, last.on is Some, port_entity(root, caps, last), p);
        let es = with_entity(es, last.on is Some, port_entity(root, caps, last));
        lemma_all_with(es, last.watts is Some, port_power_entity(last), p);
    }
}

/// The keys of sensors are those of what cannot be toggled.
proof fn lemma_sensors_measure(s: BatteryStatus)
    ensures
        forall|i: int| 0 <= i < device_sensors(s).len() ==> measured(s, (#[trigger] device_sensors(s)[i]).1.key),
        forall|i: int| 0 <= i < cell_extremes(s).len() ==> measured(s, (#[trigger] cell_extremes(s)[i]).1.key),
        forall|id: Seq<char>| measured(s, #[trigger] probe_key(id)),
        forall|index: u64| measured(s, #[trigger] cell_key(index)),
        forall|i: int| 0 <= i < s.ports@.len() && (#[trigger] s.ports@[i]).watts is Some ==> measured(
            s,
            port_power_key(s.ports@[i].id@),
        ),
        measured(s, "alarms"@),
{
    reveal_strlit("charging");
    reveal_strlit("discharging");
    reveal_strlit("alarms");
    lemma_sensor_keys(s);
    lemma_marks();
    assert forall|id: Seq<char>| measured(s, #[trigger] probe_key(id)) by {
        lemma_key_shapes(id, 0);
    }
    assert forall|index: u64| measured(s, #[trigger] cell_key(index)) by {
        lemma_key_shapes(Seq::empty(), index);
    }
    assert forall|i: int| 0 <= i < s.ports@.len() && (#[trigger] s.ports@[i]).watts is Some implies measured(
        s,
        port_power_key(s.ports@[i].id@),
    ) by {
        lemma_key_shapes(s.ports@[i].id@, 0);
    }
}

/// Where the value that a sensor of the device as a whole shows stands among the values.
pub(crate) open spec fn place_of_sensor(i: int) -> int {
    if i <= 8 {
        i
    } else if i == 9 {
        17
    } else if i <= 11 {
        i - 1
    } else {
        13
    }
}

/// The sensors of the device as a whole and those of the extremes of the cells show values of
/// the device as a whole, where these are present.
pub(crate) proof fn lemma_sensor_keys(s: BatteryStatus)
    ensures
        device_sensors(s).len() == 13,
        cell_extremes(s).len() == 3,
        forall|i: int| 0 <= i < 13 ==> {
            let (present, e) = #[trigger] device_sensors(s)[i];
            &&& e.key == device_values(s)[place_of_sensor(i)].0
            &&& present == device_values(s)[place_of_sensor(i)].1 is Some
            &&& e.component == "sensor"@
        },
        forall|i: int| 0 <= i < 3 ==> {
            let (present, e) = #[trigger] cell_extremes(s)[i];
            &&& e.key == device_values(s)[14 + i].0
            &&& present == device_values(s)[14 + i].1 is Some
            &&& e.component == "sensor"@
        },
        forall|i: int| 0 <= i < device_values(s).len() ==> fixed((#[trigger] device_values(s)[i]).0),
        forall|i: int| 0 <= i < 18 ==> mark((#[trigger] device_values(s)[i]).0) != mark("charging"@) && mark(
            device_values(s)[i].0,
        ) != mark("discharging"@),
        device_values(s).len() == 20,
{
    lemma_marks();
    lemma_device_keys(s);
    assert forall|i: int| 0 <= i < device_values(s).len() implies fixed((#[trigger] device_values(s)[i]).0) by {
        lemma_device_keys_are_fixed(s, i);
    }
}

/// Every entity's template shows the member of the state document with the entity's key. Only
/// switches and the charge limit take commands, and only where the device can be controlled:
/// a switch commands the id of the state that it shows, which can be toggled; what a binary
/// sensor shows cannot, unless it is the alarm; and a sensor shows nothing that could.
pub proof fn law_entities_are_formed(root: Seq<char>, caps: Capabilities, s: BatteryStatus)
    ensures
        forall|i: int| 0 <= i < entities(root, caps, s).len() ==> formed(
            root,
            caps,
            s,
            #[trigger] entities(root, caps, s)[i],
        ),
{
    let p = |e: EntityView| formed(root, caps, s, e);
    assert forall|name: Seq<char>, key: Seq<char>, dc: Option<Seq<char>>, unit: Option<Seq<char>>, sc: Option<Seq<char>>|
        measured(s, key) implies formed(root, caps, s, #[trigger] sensor(name, key, dc, unit, sc)) && formed(
        root,
        caps,
        s,
        disabled(sensor(name, key, dc, unit, sc)),
    ) by {
        lemma_sensor_formed(root, caps, s, name, key, dc, unit, sc);
    }
    assert forall|able: bool, name: Seq<char>, key: Seq<char>, id: Seq<char>, dc: Option<Seq<char>>|
        toggled(caps, s, key, id, able) implies formed(root, caps, s, #[trigger] toggle(root, able, name, key, id, dc)) by {
        lemma_toggle_formed(root, caps, s, able, name, key, id, dc);
    }
    lemma_binary_formed(root, caps, s, "Alarm"@, "alarm_active"@, Seq::empty(), Some("problem"@));
    lemma_sensors_measure(s);
    lemma_all_entities(root, caps, s, p);
    reveal(all);
    let es = entities(root, caps, s);
    assert forall|i: int| 0 <= i < es.len() implies formed(root, caps, s, #[trigger] es[i]) by {
        assert(p(es[i]));
    }
}

/// The key of the state document that an entity shows.
pub open spec fn shown_key(e: EntityView) -> Seq<char> {
    if e.component == "number"@ {
        "soc_limit_max"@
    } else {
        e.key
    }
}

/// The template of every entity shows a member that the state document of the same snapshot
/// holds; only the charge limit can be set where the device does not tell it.
pub proof fn law_entities_show_what_the_state_holds(root: Seq<char>, caps: Capabilities, s: BatteryStatus)
    ensures
        forall|i: int| 0 <= i < entities(root, caps, s).len() ==> {
            let e = #[trigger] entities(root, caps, s)[i];
            &&& member(e.config, "value_template"@) == Some(Json::Text(template(shown_key(e))))
            &&& state_members(s).contains_key(shown_key(e)) <==> e.component != "number"@ || s.soc_limit_max is Some
        },
{
    let p = |e: EntityView| e.component != "number"@ ==> state_members(s).contains_key(e.key);
    law_device_values_stand_under_their_keys(s);
    lemma_sensor_keys(s);
    law_alarms_are_always_told(s);
    law_listed_values_are_present(s);
    let list = device_values(s);
    assert(list[11].0 == "soc_limit_max"@ && list[18].0 == "charging"@ && list[19].0 == "discharging"@);
    assert(list[11].1 is Some <==> s.soc_limit_max is Some);
    assert(list[18].1 is Some <==> s.charging is Some);
    assert(list[19].1 is Some <==> s.discharging is Some);
    assert(forall|i: int| 0 <= i < list.len() ==> member(state_members(s), (#[trigger] list[i]).0) == list[i].1);
    lemma_all_entities(root, caps, s, p);
    law_entities_are_formed(root, caps, s);
    lemma_charge_limit_template(root);
    reveal(all);
    let es = entities(root, caps, s);
    assert forall|i: int| 0 <= i < es.len() implies {
        let e = #[trigger] es[i];
        &&& member(e.config, "value_template"@) == Some(Json::Text(template(shown_key(e))))
        &&& state_members(s).contains_key(shown_key(e)) <==> e.component != "number"@ || s.soc_limit_max is Some
    } by {
        assert(p(es[i]));
        assert(formed(root, caps, s, es[i]));
    }
}

/// What the snapshot does not report gets no entity, but for the charge limit, which follows
/// the capabilities alone.
pub proof fn law_absent_values_get_no_entity(root: Seq<char>, caps: Capabilities, s: BatteryStatus, i: int)
    requires
        0 <= i < entities(root, caps, s).len(),
    ensures
        ({
            let e = entities(root, caps, s)[i];
            if e.component == "number"@ {
                caps.set_charge_limit && e == charge_limit(root)
            } else {
                reported(s, e.key)
            }
        }),
{
    let e = entities(root, caps, s)[i];
    law_entities_are_formed(root, caps, s);
    assert(formed(root, caps, s, e));
    law_entities_show_what_the_state_holds(root, caps, s);
    if e.component != "number"@ {
        assert(state_members(s).contains_key(shown_key(e)));
        law_state_holds_only_what_is_reported(s, e.key);
    }
}

/// The slider shows the charge limit.
proof fn lemma_charge_limit_template(root: Seq<char>)
    ensures
        member(charge_limit(root).config, "value_template"@) == Some(Json::Text(template("soc_limit_max"@))),
        member(charge_limit(root).config, "command_topic"@) == Some(
            Json::Text(value_topic(root, "charge_limit"@)),
        ),
{
    lemma_config_keys();
    reveal_strlit("{{ value_json.soc_limit_max }}");
    reveal_strlit("{{ value_json.");
    reveal_strlit("soc_limit_max");
    reveal_strlit(" }}");
    assert("{{ value_json.soc_limit_max }}"@ =~= template("soc_limit_max"@));
}

/// The members of the `i`-th config of a device.
pub open spec fn config_members(t: Target, caps: Capabilities, s: BatteryStatus, i: int) -> Members {
    complete(t, entities(t.root(), caps, s)[i])
}

/// Completing a config keeps the template and the command topic.
proof fn lemma_complete_keeps(t: Target, e: EntityView)
    ensures
        member(complete(t, e), "value_template"@) == member(e.config, "value_template"@),
        member(complete(t, e), "command_topic"@) == member(e.config, "command_topic"@),
{
    lemma_config_keys();
}

/// Every config names the state topic, the availability topics of the bridge and of the
/// device, all of which count, the device itself and an id of its own.
pub proof fn law_configs_are_complete(t: Target, caps: Capabilities, s: BatteryStatus, i: int)
    requires
        0 <= i < configs(t, caps, s).len(),
    ensures
        configs(t, caps, s)[i].1 == Json::Object(config_members(t, caps, s, i)),
        ({
            let m = config_members(t, caps, s, i);
            let key = entities(t.root(), caps, s)[i].key;
            &&& member(m, "unique_id"@) == Some(Json::Text("bc_"@ + t.slug + "_"@ + key))
            &&& member(m, "object_id"@) == Some(Json::Text(t.slug + "_"@ + key))
            &&& member(m, "state_topic"@) == Some(Json::Text(state_topic(t.root())))
            &&& member(m, "availability"@) == Some(availability_json(t))
            &&& member(m, "availability_mode"@) == Some(Json::Text("all"@))
            &&& member(m, "device"@) == Some(device_json(t.slug, t.label, t.info))
        }),
{
    lemma_config_keys();
}

/// A device that cannot be controlled gets no config with a command topic.
pub proof fn law_read_only_devices_take_no_commands(t: Target, caps: Capabilities, s: BatteryStatus, i: int)
    requires
        !can_toggle(caps),
        !caps.set_charge_limit,
        0 <= i < configs(t, caps, s).len(),
    ensures
        member(config_members(t, caps, s, i), "command_topic"@) is None,
{
    let e = entities(t.root(), caps, s)[i];
    law_entities_are_formed(t.root(), caps, s);
    assert(formed(t.root(), caps, s, e));
    lemma_complete_keeps(t, e);
}

/// Whatever command topic a config names, a message on it is read as a command for the very
/// device: a toggle of the state that the entity shows, by its own id, or the charge limit
/// with the payload as its value.
pub proof fn law_command_topics_reach_their_device(
    t: Target,
    caps: Capabilities,
    s: BatteryStatus,
    i: int,
    topic: Seq<char>,
    payload: Seq<char>,
)
    requires
        !t.slug.contains('/'),
        0 <= i < configs(t, caps, s).len(),
        member(config_members(t, caps, s, i), "command_topic"@) == Some(Json::Text(topic)),
    ensures
        ({
            let e = entities(t.root(), caps, s)[i];
            if e.component == "switch"@ {
                exists|id: Seq<char>| #[trigger]
                    toggled(caps, s, e.key, id, true) && topic == toggle_topic(t.root(), id) && parsed(
                        t.base,
                        topic,
                        payload,
                    ) == Some(
                        (
                            t.slug,
                            CommandView::Toggle { id, on: equal_ignoring_ascii_case(payload, "ON"@) },
                        ),
                    )
            } else {
                &&& e.component == "number"@
                &&& parsed(t.base, topic, payload) == Some(
                    (t.slug, CommandView::SetValue { id: "charge_limit"@, value: payload }),
                )
            }
        }),
{
    let root = t.root();
    let e = entities(root, caps, s)[i];
    law_entities_are_formed(root, caps, s);
    assert(formed(root, caps, s, e));
    lemma_complete_keeps(t, e);
    lemma_config_keys();
    if e.component == "switch"@ {
        let id = choose|id: Seq<char>| #[trigger]
            toggled(caps, s, e.key, id, true) && member(e.config, "command_topic"@) == Some(
                Json::Text(toggle_topic(root, id)),
            );
        law_toggle_topics_are_read_back(t.base, t.slug, id, payload);
        assert(toggled(caps, s, e.key, id, true));
        assert(topic == toggle_topic(root, id));
    } else {
        lemma_charge_limit_template(root);
        law_value_topics_are_read_back(t.base, t.slug, "charge_limit"@, payload);
    }
}

/// The entities without the charge limit, which stands last where there is one.
pub open spec fn without_limit(caps: Capabilities, es: Seq<EntityView>) -> Seq<EntityView> {
    if caps.set_charge_limit {
        es.drop_last()
    } else {
        es
    }
}

/// The same entity, or a switch in place of a binary sensor or the other way round, with the
/// same key, name and template.
pub open spec fn alike(a: EntityView, b: EntityView) -> bool {
    a == b || {
        &&& a.key == b.key
        &&& a.component == "switch"@ || a.component == "binary_sensor"@
        &&& b.component == "switch"@ || b.component == "binary_sensor"@
        &&& member(a.config, "name"@) == member(b.config, "name"@)
        &&& member(a.config, "value_template"@) == member(b.config, "value_template"@)
    }
}

/// Lists that are alike, entity by entity.
#[verifier::opaque]
spec fn all_alike(a: Seq<EntityView>, b: Seq<EntityView>) -> bool {
    a.len() == b.len() && forall|i: int| 0 <= i < a.len() ==> alike(#[trigger] a[i], b[i])
}

/// Toggles of one state are alike, whatever the device lets others control.
proof fn lemma_toggles_alike(
    root: Seq<char>,
    able: bool,
    other: bool,
    name: Seq<char>,
    key: Seq<char>,
    id: Seq<char>,
    device_class: Option<Seq<char>>,
)
    ensures
        alike(
            toggle(root, able, name, key, id, device_class),
            toggle(root, other, name, key, id, device_class),
        ),
{
    lemma_config_keys();
}

/// One more entity on each side.
proof fn lemma_alike_with(a: Seq<EntityView>, b: Seq<EntityView>, present: bool, x: EntityView, y: EntityView)
    requires
        all_alike(a, b),
        alike(x, y),
    ensures
        all_alike(with_entity(a, present, x), with_entity(b, present, y)),
{
    reveal(all_alike);
}

/// The switches of a device are alike.
proof fn lemma_switches_alike(
    a: Seq<EntityView>,
    b: Seq<EntityView>,
    root: Seq<char>,
    caps: Capabilities,
    other: Capabilities,
    switches: Seq<SwitchState>,
)
    requires
        all_alike(a, b),
    ensures
        all_alike(with_switch_entities(a, root, caps, switches), with_switch_entities(b, root, other, switches)),
    decreases switches.len(),
{
    if switches.len() > 0 {
        let before = switches.drop_last();
        let w = switches.last();
        lemma_switches_alike(a, b, root, caps, other, before);
        lemma_toggles_alike(
            root,
            caps.controllable,
            other.controllable,
            label_or(w.label, w.id@),
            switch_key(w.id@),
            w.id@,
            None,
        );
        lemma_alike_with(
            with_switch_entities(a, root, caps, before),
            with_switch_entities(b, root, other, before),
            true,
            switch_entity(root, caps, w),
            switch_entity(root, other, w),
        );
    }
}

/// The ports of a device are alike.
proof fn lemma_ports_alike(
    a: Seq<EntityView>,
    b: Seq<EntityView>,
    root: Seq<char>,
    caps: Capabilities,
    other: Capabilities,
    ports: Seq<PortState>,
)
    requires
        all_alike(a, b),
    ensures
        all_alike(with_port_entities(a, root, caps, ports), with_port_entities(b, root, other, ports)),
    decreases ports.len(),
{
    if ports.len() > 0 {
        let before = ports.drop_last();
        let p = ports.last();
        lemma_ports_alike(a, b, root, caps, other, before);
        lemma_toggles_alike(
            root,
            caps.toggle_ports,
            other.toggle_ports,
            label_or(p.label, p.id@),
            port_key(p.id@),
            p.id@,
            Some("power"@),
        );
        let a = with_port_entities(a, root, caps, before);
        let b = with_port_entities(b, root, other, before);
        let x = port_entity(root, caps, p);
        let y = port_entity(root, other, p);
        lemma_alike_with(a, b, p.on is Some, x, y);
        lemma_alike_with(
            with_entity(a, p.on is Some, x),
            with_entity(b, p.on is Some, y),
            p.watts is Some,
            port_power_entity(p),
            port_power_entity(p),
        );
    }
}

/// What a device lets others control changes nothing in what is shown: it only chooses
/// between a switch and a binary sensor, and adds the charge limit.
pub proof fn law_capabilities_only_choose_controls(
    root: Seq<char>,
    caps: Capabilities,
    other: Capabilities,
    s: BatteryStatus,
)
    ensures
        caps.set_charge_limit ==> entities(root, caps, s).len() > 0 && entities(root, caps, s).last()
            == charge_limit(root),
        ({
            let a = without_limit(caps, entities(root, caps, s));
            let b = without_limit(other, entities(root, other, s));
            a.len() == b.len() && forall|i: int| 0 <= i < a.len() ==> alike(#[trigger] a[i], b[i])
        }),
{
    let es = with_probe_sensors(with_entities(Seq::empty(), device_sensors(s)), s.temperatures@);
    let es = with_alarm_sensors(with_cell_sensors(es, s));
    assert(all_alike(es, es)) by {
        reveal(all_alike);
    }
    let dc = Some("battery_charging"@);
    lemma_toggles_alike(root, caps.toggle_charge, other.toggle_charge, "Charging"@, "charging"@, "charging"@, dc);
    lemma_toggles_alike(
        root,
        caps.toggle_discharge,
        other.toggle_discharge,
        "Discharging"@,
        "discharging"@,
        "discharging"@,
        None,
    );
    let x = toggle(root, caps.toggle_charge, "Charging"@, "charging"@, "charging"@, dc);
    let y = toggle(root, other.toggle_charge, "Charging"@, "charging"@, "charging"@, dc);
    lemma_alike_with(es, es, s.charging is Some, x, y);
    lemma_alike_with(
        with_entity(es, s.charging is Some, x),
        with_entity(es, s.charging is Some, y),
        s.discharging is Some,
        toggle(root, caps.toggle_discharge, "Discharging"@, "discharging"@, "discharging"@, None),
        toggle(root, other.toggle_discharge, "Discharging"@, "discharging"@, "discharging"@, None),
    );
    let a = with_mosfets(es, root, caps, s);
    let b = with_mosfets(es, root, other, s);
    lemma_switches_alike(a, b, root, caps, other, s.switches@);
    let a = with_switch_entities(a, root, caps, s.switches@);
    let b = with_switch_entities(b, root, other, s.switches@);
    lemma_ports_alike(a, b, root, caps, other, s.ports@);
    let a = with_port_entities(a, root, caps, s.ports@);
    let b = with_port_entities(b, root, other, s.ports@);
    assert(without_limit(caps, entities(root, caps, s)) =~= a);
    assert(without_limit(other, entities(root, other, s)) =~= b);
    reveal(all_alike);
}

} // verus!
