//! What every config says, word by word.

use crate::discovery::{binary, cell_extremes, cell_sensor, charge_limit, complete, config_topic, configs, device_sensors, disabled, entities, probe_sensor, sensor, switch, toggle, EntityView, Target};
use crate::discovery_laws::{all, config_members, formed, law_entities_are_formed, law_entities_show_what_the_state_holds, lemma_all_entities, lemma_sensor_keys, place_of_sensor, port_entity, port_power_entity, shown_key, switch_entity, toggled};
use crate::document_laws::law_fields_are_told;
use crate::identity_laws::{different_ports, lemma_components_hold_no_separator, lemma_topics_of_one_device};
use crate::json::{Json, Members};
use crate::presence::lemma_held;
use crate::slug::slug;
use crate::state::{device_values, port_key, port_power_key, state_members, switch_key, with_members, with_ports, with_probes, with_switches};
use crate::state_laws::{fixed, law_device_values_stand_under_their_keys, lemma_cells_keep, lemma_device_keys, lemma_key_shapes, lemma_marks, lemma_ports_keep, mark, member, place};
use crate::status::{BatteryStatus, Capabilities, CellState, PortState, SwitchState, TemperatureProbe};
use crate::text::decimal;
use vstd::prelude::*;

verus! {

/// The topic `<prefix>/<component>/bc_<slug>/<key>/config`.
pub open spec fn topic_for(t: Target, component: Seq<char>, key: Seq<char>) -> Seq<char> {
    t.prefix + "/"@ + component + "/bc_"@ + t.slug + "/"@ + key + "/config"@
}

/// A text, or nothing.
pub open spec fn text(v: Option<Seq<char>>) -> Option<Json> {
    match v {
        Some(words) => Some(Json::Text(words)),
        None => None,
    }
}

/// A key that every config has.
pub open spec fn common_key(k: Seq<char>) -> bool {
    ||| k == "unique_id"@ || k == "object_id"@ || k == "state_topic"@
    ||| k == "availability"@ || k == "availability_mode"@ || k == "device"@
}

/// A sensor that shows one member of the state document, and nothing more.
pub open spec fn sensor_says(
    m: Members,
    key: Seq<char>,
    name: Seq<char>,
    device_class: Option<Seq<char>>,
    unit: Option<Seq<char>>,
    statistics: Option<Seq<char>>,
    enabled: bool,
) -> bool {
    &&& member(m, "name"@) == Some(Json::Text(name))
    &&& member(m, "value_template"@) == Some(Json::Text("{{ value_json."@ + key + " }}"@))
    &&& member(m, "device_class"@) == text(device_class)
    &&& member(m, "unit_of_measurement"@) == text(unit)
    &&& member(m, "state_class"@) == text(statistics)
    &&& member(m, "enabled_by_default"@) == if enabled {
        None
    } else {
        Some(Json::Bool(false))
    }
    &&& forall|k: Seq<char>| #[trigger] m.contains_key(k) ==> {
        ||| common_key(k)
        ||| k == "name"@ || k == "value_template"@ || k == "device_class"@
        ||| k == "unit_of_measurement"@ || k == "state_class"@ || k == "enabled_by_default"@
    }
}

/// A binary sensor that is on where the state document says `ON`, and off where it says `OFF`.
pub open spec fn binary_says(m: Members, key: Seq<char>, name: Seq<char>, device_class: Option<Seq<char>>) -> bool {
    &&& member(m, "name"@) == Some(Json::Text(name))
    &&& member(m, "value_template"@) == Some(Json::Text("{{ value_json."@ + key + " }}"@))
    &&& member(m, "payload_on"@) == Some(Json::Text("ON"@))
    &&& member(m, "payload_off"@) == Some(Json::Text("OFF"@))
    &&& member(m, "device_class"@) == text(device_class)
    &&& forall|k: Seq<char>| #[trigger] m.contains_key(k) ==> {
        ||| common_key(k)
        ||| k == "name"@ || k == "value_template"@ || k == "payload_on"@
        ||| k == "payload_off"@ || k == "device_class"@
    }
}

/// A switch that shows what a binary sensor shows, and sends `ON` and `OFF` to
/// `<base>/<slug>/set/<id>`.
pub open spec fn switch_says(t: Target, m: Members, key: Seq<char>, name: Seq<char>, id: Seq<char>) -> bool {
    &&& member(m, "name"@) == Some(Json::Text(name))
    &&& member(m, "value_template"@) == Some(Json::Text("{{ value_json."@ + key + " }}"@))
    &&& member(m, "command_topic"@) == Some(Json::Text(t.base + "/"@ + t.slug + "/set/"@ + id))
    &&& member(m, "payload_on"@) == Some(Json::Text("ON"@))
    &&& member(m, "payload_off"@) == Some(Json::Text("OFF"@))
    &&& member(m, "state_on"@) == Some(Json::Text("ON"@))
    &&& member(m, "state_off"@) == Some(Json::Text("OFF"@))
    &&& forall|k: Seq<char>| #[trigger] m.contains_key(k) ==> {
        ||| common_key(k)
        ||| k == "name"@ || k == "value_template"@ || k == "command_topic"@
        ||| k == "payload_on"@ || k == "payload_off"@ || k == "state_on"@
        ||| k == "state_off"@
    }
}

/// A slider from 0 to 100 percent that shows the upper limit of the state of charge and sends
/// its value to `<base>/<slug>/setv/charge_limit`.
pub open spec fn limit_says(t: Target, m: Members) -> bool {
    &&& member(m, "name"@) == Some(Json::Text("Charge limit"@))
    &&& member(m, "value_template"@) == Some(Json::Text("{{ value_json.soc_limit_max }}"@))
    &&& member(m, "command_topic"@) == Some(Json::Text(t.base + "/"@ + t.slug + "/setv/"@ + "charge_limit"@))
    &&& member(m, "min"@) == Some(Json::Integer(0))
    &&& member(m, "max"@) == Some(Json::Integer(100))
    &&& member(m, "step"@) == Some(Json::Integer(1))
    &&& member(m, "unit_of_measurement"@) == Some(Json::Text("%"@))
    &&& member(m, "mode"@) == Some(Json::Text("slider"@))
    &&& member(m, "icon"@) == Some(Json::Text("mdi:battery-charging-80"@))
    &&& forall|k: Seq<char>| #[trigger] m.contains_key(k) ==> {
        ||| common_key(k)
        ||| k == "name"@ || k == "value_template"@ || k == "command_topic"@
        ||| k == "min"@ || k == "max"@ || k == "step"@
        ||| k == "unit_of_measurement"@ || k == "mode"@ || k == "icon"@
    }
}

/// One of the configs is that of a sensor with this key, and says this.
pub open spec fn sensor_announced(
    t: Target,
    caps: Capabilities,
    s: BatteryStatus,
    key: Seq<char>,
    name: Seq<char>,
    device_class: Option<Seq<char>>,
    unit: Option<Seq<char>>,
    statistics: Option<Seq<char>>,
    enabled: bool,
) -> bool {
    exists|i: int|
        0 <= i < configs(t, caps, s).len() && (#[trigger] configs(t, caps, s)[i]).0 == topic_for(t, "sensor"@, key) && (
        configs(t, caps, s)[i].1 matches Json::Object(m) && sensor_says(
            m,
            key,
            name,
            device_class,
            unit,
            statistics,
            enabled,
        ))
}

/// One of the configs is that of a switch with this key where the state can be toggled, else of
/// a binary sensor, and says this.
pub open spec fn toggle_announced(
    t: Target,
    caps: Capabilities,
    s: BatteryStatus,
    able: bool,
    key: Seq<char>,
    name: Seq<char>,
    id: Seq<char>,
    device_class: Option<Seq<char>>,
) -> bool {
    exists|i: int|
        0 <= i < configs(t, caps, s).len() && (configs(t, caps, s)[i].1 matches Json::Object(m) && if able {
            &&& (#[trigger] configs(t, caps, s)[i]).0 == topic_for(t, "switch"@, key)
            &&& switch_says(t, m, key, name, id)
        } else {
            &&& configs(t, caps, s)[i].0 == topic_for(t, "binary_sensor"@, key)
            &&& binary_says(m, key, name, device_class)
        })
}

/// No config stands on the topic.
pub open spec fn unannounced(
    t: Target,
    caps: Capabilities,
    s: BatteryStatus,
    component: Seq<char>,
    key: Seq<char>,
) -> bool {
    forall|i: int| 0 <= i < configs(t, caps, s).len() ==> (#[trigger] configs(t, caps, s)[i]).0 != topic_for(
        t,
        component,
        key,
    )
}

/// A sensor that is announced if what it shows is present, and not if it is not.
pub open spec fn sensor_row(
    t: Target,
    caps: Capabilities,
    s: BatteryStatus,
    present: bool,
    key: Seq<char>,
    name: Seq<char>,
    device_class: Option<Seq<char>>,
    unit: Option<Seq<char>>,
    statistics: Option<Seq<char>>,
) -> bool {
    if present {
        sensor_announced(t, caps, s, key, name, device_class, unit, statistics, true)
    } else {
        unannounced(t, caps, s, "sensor"@, key)
    }
}

/// Each value of the device as a whole is announced as a sensor of its own if the status holds
/// it, under its name, with its device class and its unit, and not at all if it does not.
pub proof fn law_measured_values_are_announced(t: Target, caps: Capabilities, s: BatteryStatus)
    ensures
        sensor_row(t, caps, s, s.soc is Some, "soc"@, "Battery"@, Some("battery"@), Some("%"@), Some("measurement"@)),
        sensor_row(t, caps, s, s.soh is Some, "soh"@, "State of health"@, None, Some("%"@), Some("measurement"@)),
        sensor_row(t, caps, s, s.voltage is Some, "voltage"@, "Voltage"@, Some("voltage"@), Some("V"@), Some("measurement"@)),
        sensor_row(t, caps, s, s.current is Some, "current"@, "Current"@, Some("current"@), Some("A"@), Some("measurement"@)),
        sensor_row(t, caps, s, s.power_in is Some, "power_in"@, "Power in"@, Some("power"@), Some("W"@), Some("measurement"@)),
        sensor_row(t, caps, s, s.power_out is Some, "power_out"@, "Power out"@, Some("power"@), Some("W"@), Some("measurement"@)),
        sensor_row(t, caps, s, s.time_remaining_h is Some, "time_remaining_h"@, "Time remaining"@, Some("duration"@), Some("h"@), Some("measurement"@)),
        sensor_row(t, caps, s, s.capacity_remaining_ah is Some, "capacity_remaining_ah"@, "Capacity remaining"@, None, Some("Ah"@), Some("measurement"@)),
        sensor_row(t, caps, s, s.capacity_full_ah is Some, "capacity_full_ah"@, "Capacity full"@, None, Some("Ah"@), Some("measurement"@)),
        sensor_row(t, caps, s, s.cycles is Some, "cycles"@, "Cycles"@, None, None, Some("total_increasing"@)),
        sensor_row(t, caps, s, s.charge_current_limit_a is Some, "charge_current_limit_a"@, "Charge current limit"@, Some("current"@), Some("A"@), Some("measurement"@)),
        sensor_row(t, caps, s, s.discharge_current_limit_a is Some, "discharge_current_limit_a"@, "Discharge current limit"@, Some("current"@), Some("A"@), Some("measurement"@)),
        sensor_row(t, caps, s, s.temperature_c is Some, "temperature"@, "Temperature"@, Some("temperature"@), Some("°C"@), Some("measurement"@)),
{
    lemma_device_row(t, caps, s, 0, "soc"@, "Battery"@, Some("battery"@), Some("%"@), Some("measurement"@));
    lemma_device_row(t, caps, s, 1, "soh"@, "State of health"@, None, Some("%"@), Some("measurement"@));
    lemma_device_row(t, caps, s, 2, "voltage"@, "Voltage"@, Some("voltage"@), Some("V"@), Some("measurement"@));
    lemma_device_row(t, caps, s, 3, "current"@, "Current"@, Some("current"@), Some("A"@), Some("measurement"@));
    lemma_device_row(t, caps, s, 4, "power_in"@, "Power in"@, Some("power"@), Some("W"@), Some("measurement"@));
    lemma_device_row(t, caps, s, 5, "power_out"@, "Power out"@, Some("power"@), Some("W"@), Some("measurement"@));
    lemma_device_row(t, caps, s, 6, "time_remaining_h"@, "Time remaining"@, Some("duration"@), Some("h"@), Some("measurement"@));
    lemma_device_row(t, caps, s, 7, "capacity_remaining_ah"@, "Capacity remaining"@, None, Some("Ah"@), Some("measurement"@));
    lemma_device_row(t, caps, s, 8, "capacity_full_ah"@, "Capacity full"@, None, Some("Ah"@), Some("measurement"@));
    lemma_device_row(t, caps, s, 9, "cycles"@, "Cycles"@, None, None, Some("total_increasing"@));
    lemma_device_row(t, caps, s, 10, "charge_current_limit_a"@, "Charge current limit"@, Some("current"@), Some("A"@), Some("measurement"@));
    lemma_device_row(t, caps, s, 11, "discharge_current_limit_a"@, "Discharge current limit"@, Some("current"@), Some("A"@), Some("measurement"@));
    lemma_device_row(t, caps, s, 12, "temperature"@, "Temperature"@, Some("temperature"@), Some("°C"@), Some("measurement"@));
}

/// The extremes of the cells are announced if the status holds cells and them, and not
/// otherwise.
pub proof fn law_extremes_are_announced(t: Target, caps: Capabilities, s: BatteryStatus)
    ensures
        sensor_row(t, caps, s, s.cells@.len() > 0 && s.cell_min is Some, "cell_min"@, "Cell min"@, Some("voltage"@), Some("V"@), Some("measurement"@)),
        sensor_row(t, caps, s, s.cells@.len() > 0 && s.cell_max is Some, "cell_max"@, "Cell max"@, Some("voltage"@), Some("V"@), Some("measurement"@)),
        sensor_row(t, caps, s, s.cells@.len() > 0 && s.cell_delta is Some, "cell_delta"@, "Cell delta"@, Some("voltage"@), Some("V"@), Some("measurement"@)),
{
    lemma_extreme_row(t, caps, s, 0, "cell_min"@, "Cell min"@, Some("voltage"@), Some("V"@), Some("measurement"@));
    lemma_extreme_row(t, caps, s, 1, "cell_max"@, "Cell max"@, Some("voltage"@), Some("V"@), Some("measurement"@));
    lemma_extreme_row(t, caps, s, 2, "cell_delta"@, "Cell delta"@, Some("voltage"@), Some("V"@), Some("measurement"@));
}

/// The label, or what stands in for it.
pub open spec fn called(label: Option<String>, otherwise: Seq<char>) -> Seq<char> {
    match label {
        Some(l) => l@,
        None => otherwise,
    }
}

/// Each probe is announced as a temperature, and each cell that tells its voltage as a voltage,
/// counted from one; both stay disabled until they are enabled.
pub proof fn law_probes_and_cells_are_announced(t: Target, caps: Capabilities, s: BatteryStatus)
    ensures
        forall|i: int| 0 <= i < s.temperatures@.len() ==> sensor_announced(
            t,
            caps,
            s,
            "temp_"@ + slug((#[trigger] s.temperatures@[i]).id@),
            called(s.temperatures@[i].label, "Temperature "@ + s.temperatures@[i].id@),
            Some("temperature"@),
            Some("°C"@),
            Some("measurement"@),
            false,
        ),
        forall|i: int| 0 <= i < s.cells@.len() && (#[trigger] s.cells@[i]).voltage is Some ==> sensor_announced(
            t,
            caps,
            s,
            "cell_"@ + decimal(s.cells@[i].index as nat),
            "Cell "@ + decimal(s.cells@[i].index as nat + 1),
            Some("voltage"@),
            Some("V"@),
            Some("measurement"@),
            false,
        ),
{
    assert forall|i: int| 0 <= i < s.temperatures@.len() implies sensor_announced(
        t,
        caps,
        s,
        "temp_"@ + slug((#[trigger] s.temperatures@[i]).id@),
        called(s.temperatures@[i].label, "Temperature "@ + s.temperatures@[i].id@),
        Some("temperature"@),
        Some("°C"@),
        Some("measurement"@),
        false,
    ) by {
        let p = s.temperatures@[i];
        let e = probe_sensor(p);
        lemma_held(t.root(), caps, s, e);
        lemma_sensor_config(
            t,
            caps,
            s,
            "temp_"@ + slug(p.id@),
            called(p.label, "Temperature "@ + p.id@),
            Some("temperature"@),
            Some("°C"@),
            Some("measurement"@),
            false,
        );
    }
    assert forall|i: int| 0 <= i < s.cells@.len() && (#[trigger] s.cells@[i]).voltage is Some implies sensor_announced(
        t,
        caps,
        s,
        "cell_"@ + decimal(s.cells@[i].index as nat),
        "Cell "@ + decimal(s.cells@[i].index as nat + 1),
        Some("voltage"@),
        Some("V"@),
        Some("measurement"@),
        false,
    ) by {
        let c = s.cells@[i];
        let e = cell_sensor(c);
        lemma_held(t.root(), caps, s, e);
        lemma_sensor_config(
            t,
            caps,
            s,
            "cell_"@ + decimal(c.index as nat),
            "Cell "@ + decimal(c.index as nat + 1),
            Some("voltage"@),
            Some("V"@),
            Some("measurement"@),
            false,
        );
    }
}

/// Charging and discharging are announced if the status tells them, and not otherwise: as
/// switches where the device lets them be toggled, else as binary sensors.
pub proof fn law_charging_and_discharging_are_announced(t: Target, caps: Capabilities, s: BatteryStatus)
    ensures
        s.charging is Some ==> toggle_announced(
            t,
            caps,
            s,
            caps.toggle_charge,
            "charging"@,
            "Charging"@,
            "charging"@,
            Some("battery_charging"@),
        ),
        s.charging is None ==> unannounced(t, caps, s, "switch"@, "charging"@) && unannounced(
            t,
            caps,
            s,
            "binary_sensor"@,
            "charging"@,
        ),
        s.discharging is Some ==> toggle_announced(
            t,
            caps,
            s,
            caps.toggle_discharge,
            "discharging"@,
            "Discharging"@,
            "discharging"@,
            None,
        ),
        s.discharging is None ==> unannounced(t, caps, s, "switch"@, "discharging"@) && unannounced(
            t,
            caps,
            s,
            "binary_sensor"@,
            "discharging"@,
        ),
{
    let root = t.root();
    law_fields_are_told(s);
    let dc = Some("battery_charging"@);
    if s.charging is Some {
        lemma_held(root, caps, s, toggle(root, caps.toggle_charge, "Charging"@, "charging"@, "charging"@, dc));
        lemma_toggle_config(t, caps, s, caps.toggle_charge, "charging"@, "Charging"@, "charging"@, dc);
    } else {
        lemma_untold(t, caps, s, "switch"@, "charging"@);
        lemma_untold(t, caps, s, "binary_sensor"@, "charging"@);
    }
    if s.discharging is Some {
        lemma_held(
            root,
            caps,
            s,
            toggle(root, caps.toggle_discharge, "Discharging"@, "discharging"@, "discharging"@, None),
        );
        lemma_toggle_config(t, caps, s, caps.toggle_discharge, "discharging"@, "Discharging"@, "discharging"@, None);
    } else {
        lemma_untold(t, caps, s, "switch"@, "discharging"@);
        lemma_untold(t, caps, s, "binary_sensor"@, "discharging"@);
    }
}

/// Each switch is announced, as is each state and each power that a port reports; the command
/// goes to the id of the very switch or port.
pub proof fn law_switches_and_ports_are_announced(t: Target, caps: Capabilities, s: BatteryStatus)
    ensures
        forall|i: int| 0 <= i < s.switches@.len() ==> toggle_announced(
            t,
            caps,
            s,
            caps.controllable,
            "sw_"@ + slug((#[trigger] s.switches@[i]).id@),
            called(s.switches@[i].label, s.switches@[i].id@),
            s.switches@[i].id@,
            None,
        ),
        forall|i: int| 0 <= i < s.ports@.len() && (#[trigger] s.ports@[i]).on is Some ==> toggle_announced(
            t,
            caps,
            s,
            caps.toggle_ports,
            "port_"@ + slug(s.ports@[i].id@),
            called(s.ports@[i].label, s.ports@[i].id@),
            s.ports@[i].id@,
            Some("power"@),
        ),
        forall|i: int| 0 <= i < s.ports@.len() && (#[trigger] s.ports@[i]).watts is Some ==> sensor_announced(
            t,
            caps,
            s,
            "port_"@ + slug(s.ports@[i].id@) + "_w"@,
            called(s.ports@[i].label, s.ports@[i].id@) + " power"@,
            Some("power"@),
            Some("W"@),
            Some("measurement"@),
            true,
        ),
{
    let root = t.root();
    assert forall|i: int| 0 <= i < s.switches@.len() implies toggle_announced(
        t,
        caps,
        s,
        caps.controllable,
        "sw_"@ + slug((#[trigger] s.switches@[i]).id@),
        called(s.switches@[i].label, s.switches@[i].id@),
        s.switches@[i].id@,
        None,
    ) by {
        let w = s.switches@[i];
        lemma_held(root, caps, s, switch_entity(root, caps, w));
        lemma_toggle_config(t, caps, s, caps.controllable, "sw_"@ + slug(w.id@), called(w.label, w.id@), w.id@, None);
    }
    assert forall|i: int| 0 <= i < s.ports@.len() && (#[trigger] s.ports@[i]).on is Some implies toggle_announced(
        t,
        caps,
        s,
        caps.toggle_ports,
        "port_"@ + slug(s.ports@[i].id@),
        called(s.ports@[i].label, s.ports@[i].id@),
        s.ports@[i].id@,
        Some("power"@),
    ) by {
        let p = s.ports@[i];
        lemma_held(root, caps, s, port_entity(root, caps, p));
        lemma_toggle_config(
            t,
            caps,
            s,
            caps.toggle_ports,
            "port_"@ + slug(p.id@),
            called(p.label, p.id@),
            p.id@,
            Some("power"@),
        );
    }
    assert forall|i: int| 0 <= i < s.ports@.len() && (#[trigger] s.ports@[i]).watts is Some implies sensor_announced(
        t,
        caps,
        s,
        "port_"@ + slug(s.ports@[i].id@) + "_w"@,
        called(s.ports@[i].label, s.ports@[i].id@) + " power"@,
        Some("power"@),
        Some("W"@),
        Some("measurement"@),
        true,
    ) by {
        let p = s.ports@[i];
        lemma_held(root, caps, s, port_power_entity(p));
        lemma_sensor_config(
            t,
            caps,
            s,
            "port_"@ + slug(p.id@) + "_w"@,
            called(p.label, p.id@) + " power"@,
            Some("power"@),
            Some("W"@),
            Some("measurement"@),
            true,
        );
    }
}

/// The alarms are always announced, as a binary sensor and as a text. The charge limit is
/// announced if and only if it can be set.
pub proof fn law_alarms_and_limit_are_announced(t: Target, caps: Capabilities, s: BatteryStatus)
    ensures
        toggle_announced(t, caps, s, false, "alarm_active"@, "Alarm"@, Seq::empty(), Some("problem"@)),
        sensor_announced(t, caps, s, "alarms"@, "Alarms"@, None, None, None, true),
        caps.set_charge_limit ==> exists|i: int|
            0 <= i < configs(t, caps, s).len() && (#[trigger] configs(t, caps, s)[i]).0 == topic_for(
                t,
                "number"@,
                "charge_limit"@,
            ) && (configs(t, caps, s)[i].1 matches Json::Object(m) && limit_says(t, m)),
        !caps.set_charge_limit ==> unannounced(t, caps, s, "number"@, "charge_limit"@),
{
    let root = t.root();
    lemma_held(root, caps, s, binary("Alarm"@, "alarm_active"@, Some("problem"@)));
    lemma_toggle_config(t, caps, s, false, "alarm_active"@, "Alarm"@, Seq::empty(), Some("problem"@));
    lemma_held(root, caps, s, sensor("Alarms"@, "alarms"@, None, None, None));
    lemma_sensor_config(t, caps, s, "alarms"@, "Alarms"@, None, None, None, true);
    if caps.set_charge_limit {
        let e = charge_limit(root);
        lemma_held(root, caps, s, e);
        let i = lemma_config_of(t, caps, s, e);
        lemma_limit_says(t);
    } else {
        law_entities_are_formed(root, caps, s);
        reveal_strlit("number");
        assert forall|i: int| 0 <= i < configs(t, caps, s).len() implies (#[trigger] configs(t, caps, s)[i]).0
            != topic_for(t, "number"@, "charge_limit"@) by {
            let e = entities(root, caps, s)[i];
            if configs(t, caps, s)[i].0 == topic_for(t, "number"@, "charge_limit"@) {
                lemma_components_hold_no_separator(root, caps, s, e);
                lemma_topics_of_one_device(t, e.component, e.key, "number"@, "charge_limit"@);
            }
        }
    }
}

/// What the state document says where something is on or off.
pub open spec fn on_off(v: Option<Json>) -> bool {
    v == Some(Json::Text("ON"@)) || v == Some(Json::Text("OFF"@))
}

/// Every binary sensor takes `ON` in the state document as on and `OFF` as off, as does every
/// switch, which sends the same words; and the state document says one of these two under the
/// key, as long as the key of a port's state is not that of a port's power.
pub proof fn law_states_are_read_as_they_are_told(t: Target, caps: Capabilities, s: BatteryStatus, i: int)
    requires
        0 <= i < configs(t, caps, s).len(),
        entities(t.root(), caps, s)[i].component == "binary_sensor"@ || entities(t.root(), caps, s)[i].component
            == "switch"@,
    ensures
        ({
            let m = config_members(t, caps, s, i);
            let e = entities(t.root(), caps, s)[i];
            &&& configs(t, caps, s)[i].1 == Json::Object(m)
            &&& member(m, "payload_on"@) == Some(Json::Text("ON"@))
            &&& member(m, "payload_off"@) == Some(Json::Text("OFF"@))
            &&& e.component == "switch"@ ==> member(m, "state_on"@) == Some(Json::Text("ON"@)) && member(m, "state_off"@)
                == Some(Json::Text("OFF"@))
            &&& different_ports(s.ports@) ==> on_off(member(state_members(s), e.key))
        }),
{
    let root = t.root();
    let e = entities(root, caps, s)[i];
    let p = |e: EntityView| words(e);
    lemma_config_marks();
    lemma_components();
    lemma_sensor_keys(s);
    lemma_all_entities(root, caps, s, p);
    assert(p(e)) by {
        reveal(all);
    }
    assert(words(e));
    if different_ports(s.ports@) {
        law_entities_are_formed(root, caps, s);
        assert(formed(root, caps, s, e));
        lemma_state_of_toggle(caps, s, e);
    }
}

/// The words of switches and binary sensors.
spec fn words(e: EntityView) -> bool {
    e.component == "binary_sensor"@ || e.component == "switch"@ ==> {
        &&& member(e.config, "payload_on"@) == Some(Json::Text("ON"@))
        &&& member(e.config, "payload_off"@) == Some(Json::Text("OFF"@))
        &&& e.component == "switch"@ ==> member(e.config, "state_on"@) == Some(Json::Text("ON"@)) && member(
            e.config,
            "state_off"@,
        ) == Some(Json::Text("OFF"@))
    }
}

/// Every config stands on the topic of its component, device and key. It names the state topic
/// and the availability topics of the bridge and of the device, has ids of its own, and
/// describes the device: its label, its maker, and its model, serial number and firmware where
/// they are known.
pub proof fn law_configs_describe_their_device(t: Target, caps: Capabilities, s: BatteryStatus, i: int)
    requires
        0 <= i < configs(t, caps, s).len(),
    ensures
        ({
            let m = config_members(t, caps, s, i);
            let e = entities(t.root(), caps, s)[i];
            &&& configs(t, caps, s)[i] == (topic_for(t, e.component, e.key), Json::Object(m))
            &&& member(m, "unique_id"@) == Some(Json::Text("bc_"@ + t.slug + "_"@ + e.key))
            &&& member(m, "object_id"@) == Some(Json::Text(t.slug + "_"@ + e.key))
            &&& member(m, "state_topic"@) == Some(Json::Text(t.base + "/"@ + t.slug + "/state"@))
            &&& member(m, "availability_mode"@) == Some(Json::Text("all"@))
            &&& member(m, "availability"@) matches Some(Json::Array(topics)) && {
                &&& topics.len() == 2
                &&& only_topic(topics[0], t.base + "/bridge/availability"@)
                &&& only_topic(topics[1], t.base + "/"@ + t.slug + "/availability"@)
            }
            &&& member(m, "device"@) matches Some(Json::Object(d)) && {
                &&& member(d, "identifiers"@) == Some(Json::Array(seq![Json::Text("bc_"@ + t.slug)]))
                &&& member(d, "name"@) == Some(Json::Text(t.label))
                &&& member(d, "manufacturer"@) == Some(Json::Text(t.info.backend@))
                &&& member(d, "model"@) == known(t.info.model)
                &&& member(d, "serial_number"@) == known(t.info.serial)
                &&& member(d, "sw_version"@) == known(t.info.firmware)
                &&& forall|k: Seq<char>| #[trigger] d.contains_key(k) ==> {
                    ||| k == "identifiers"@ || k == "name"@ || k == "manufacturer"@
                    ||| k == "model"@ || k == "serial_number"@ || k == "sw_version"@
                }
            }
        }),
{
    lemma_config_marks();
    reveal_strlit("identifiers");
    reveal_strlit("manufacturer");
    reveal_strlit("model");
    reveal_strlit("serial_number");
    reveal_strlit("sw_version");
    assert(mark("identifiers"@) == 11_105_115);
    assert(mark("manufacturer"@) == 12_109_114);
    assert(mark("model"@) == 5_109_108);
    assert(mark("serial_number"@) == 13_115_114);
    assert(mark("sw_version"@) == 10_115_110);
}

/// An object with nothing but a topic.
pub open spec fn only_topic(v: Json, topic: Seq<char>) -> bool {
    v matches Json::Object(m) && m == Members::empty().insert("topic"@, Json::Text(topic))
}

/// A text where it is known, else `null`.
pub open spec fn known(v: Option<String>) -> Option<Json> {
    match v {
        Some(words) => Some(Json::Text(words@)),
        None => Some(Json::Null),
    }
}

/// Nothing else is announced: a config is that of the charge limit, where that can be set, or
/// of a sensor, a binary sensor or a switch whose key the state document holds.
pub proof fn law_nothing_else_is_announced(t: Target, caps: Capabilities, s: BatteryStatus, i: int)
    requires
        0 <= i < configs(t, caps, s).len(),
    ensures
        ({
            let topic = configs(t, caps, s)[i].0;
            let key = entities(t.root(), caps, s)[i].key;
            ||| caps.set_charge_limit && topic == topic_for(t, "number"@, "charge_limit"@)
            ||| state_members(s).contains_key(key) && {
                ||| topic == topic_for(t, "sensor"@, key)
                ||| topic == topic_for(t, "binary_sensor"@, key)
                ||| topic == topic_for(t, "switch"@, key)
            }
        }),
{
    let e = entities(t.root(), caps, s)[i];
    law_entities_are_formed(t.root(), caps, s);
    assert(formed(t.root(), caps, s, e));
    law_entities_show_what_the_state_holds(t.root(), caps, s);
    assert(state_members(s).contains_key(shown_key(e)) <==> e.component != "number"@ || s.soc_limit_max is Some);
}

/// A config that is on the topic of a sensor with this key, and says this.
pub open spec fn sensor_config(
    t: Target,
    c: (Seq<char>, Json),
    key: Seq<char>,
    name: Seq<char>,
    device_class: Option<Seq<char>>,
    unit: Option<Seq<char>>,
    statistics: Option<Seq<char>>,
    enabled: bool,
) -> bool {
    &&& c.0 == topic_for(t, "sensor"@, key)
    &&& c.1 matches Json::Object(m) && sensor_says(m, key, name, device_class, unit, statistics, enabled)
}

/// A config that is on the topic of a switch with this key where the state can be toggled, else
/// of a binary sensor, and says this.
pub open spec fn toggle_config(
    t: Target,
    c: (Seq<char>, Json),
    able: bool,
    key: Seq<char>,
    name: Seq<char>,
    id: Seq<char>,
    device_class: Option<Seq<char>>,
) -> bool {
    if able {
        &&& c.0 == topic_for(t, "switch"@, key)
        &&& c.1 matches Json::Object(m) && switch_says(t, m, key, name, id)
    } else {
        &&& c.0 == topic_for(t, "binary_sensor"@, key)
        &&& c.1 matches Json::Object(m) && binary_says(m, key, name, device_class)
    }
}

/// The config of a value of the device as a whole that the status holds.
pub open spec fn device_config(t: Target, s: BatteryStatus, c: (Seq<char>, Json)) -> bool {
    ||| s.soc is Some && sensor_config(t, c, "soc"@, "Battery"@, Some("battery"@), Some("%"@), Some("measurement"@), true)
    ||| s.soh is Some && sensor_config(t, c, "soh"@, "State of health"@, None, Some("%"@), Some("measurement"@), true)
    ||| s.voltage is Some && sensor_config(t, c, "voltage"@, "Voltage"@, Some("voltage"@), Some("V"@), Some("measurement"@), true)
    ||| s.current is Some && sensor_config(t, c, "current"@, "Current"@, Some("current"@), Some("A"@), Some("measurement"@), true)
    ||| s.power_in is Some && sensor_config(t, c, "power_in"@, "Power in"@, Some("power"@), Some("W"@), Some("measurement"@), true)
    ||| s.power_out is Some && sensor_config(t, c, "power_out"@, "Power out"@, Some("power"@), Some("W"@), Some("measurement"@), true)
    ||| s.time_remaining_h is Some && sensor_config(t, c, "time_remaining_h"@, "Time remaining"@, Some("duration"@), Some("h"@), Some("measurement"@), true)
    ||| s.capacity_remaining_ah is Some && sensor_config(t, c, "capacity_remaining_ah"@, "Capacity remaining"@, None, Some("Ah"@), Some("measurement"@), true)
    ||| s.capacity_full_ah is Some && sensor_config(t, c, "capacity_full_ah"@, "Capacity full"@, None, Some("Ah"@), Some("measurement"@), true)
    ||| s.cycles is Some && sensor_config(t, c, "cycles"@, "Cycles"@, None, None, Some("total_increasing"@), true)
    ||| s.charge_current_limit_a is Some && sensor_config(t, c, "charge_current_limit_a"@, "Charge current limit"@, Some("current"@), Some("A"@), Some("measurement"@), true)
    ||| s.discharge_current_limit_a is Some && sensor_config(t, c, "discharge_current_limit_a"@, "Discharge current limit"@, Some("current"@), Some("A"@), Some("measurement"@), true)
    ||| s.temperature_c is Some && sensor_config(t, c, "temperature"@, "Temperature"@, Some("temperature"@), Some("°C"@), Some("measurement"@), true)
}

/// The config of an extreme of the cells, where the status holds cells and it.
pub open spec fn extreme_config(t: Target, s: BatteryStatus, c: (Seq<char>, Json)) -> bool {
    ||| s.cells@.len() > 0 && s.cell_min is Some && sensor_config(t, c, "cell_min"@, "Cell min"@, Some("voltage"@), Some("V"@), Some("measurement"@), true)
    ||| s.cells@.len() > 0 && s.cell_max is Some && sensor_config(t, c, "cell_max"@, "Cell max"@, Some("voltage"@), Some("V"@), Some("measurement"@), true)
    ||| s.cells@.len() > 0 && s.cell_delta is Some && sensor_config(t, c, "cell_delta"@, "Cell delta"@, Some("voltage"@), Some("V"@), Some("measurement"@), true)
}

/// The config of a probe.
pub open spec fn probe_config(t: Target, c: (Seq<char>, Json), p: TemperatureProbe) -> bool {
    sensor_config(
        t,
        c,
        "temp_"@ + slug(p.id@),
        called(p.label, "Temperature "@ + p.id@),
        Some("temperature"@),
        Some("°C"@),
        Some("measurement"@),
        false,
    )
}

/// The config of a cell.
pub open spec fn cell_config(t: Target, c: (Seq<char>, Json), cell: CellState) -> bool {
    sensor_config(
        t,
        c,
        "cell_"@ + decimal(cell.index as nat),
        "Cell "@ + decimal(cell.index as nat + 1),
        Some("voltage"@),
        Some("V"@),
        Some("measurement"@),
        false,
    )
}

/// The config of a switch.
pub open spec fn switch_config(t: Target, caps: Capabilities, c: (Seq<char>, Json), w: SwitchState) -> bool {
    toggle_config(t, c, caps.controllable, "sw_"@ + slug(w.id@), called(w.label, w.id@), w.id@, None)
}

/// The config of what a port reports.
pub open spec fn port_config(t: Target, caps: Capabilities, c: (Seq<char>, Json), p: PortState) -> bool {
    ||| p.on is Some && toggle_config(
        t,
        c,
        caps.toggle_ports,
        "port_"@ + slug(p.id@),
        called(p.label, p.id@),
        p.id@,
        Some("power"@),
    )
    ||| p.watts is Some && sensor_config(
        t,
        c,
        "port_"@ + slug(p.id@) + "_w"@,
        called(p.label, p.id@) + " power"@,
        Some("power"@),
        Some("W"@),
        Some("measurement"@),
        true,
    )
}

/// The config of the alarms, of charging or discharging, or of the charge limit.
pub open spec fn other_config(t: Target, caps: Capabilities, s: BatteryStatus, c: (Seq<char>, Json)) -> bool {
    ||| toggle_config(t, c, false, "alarm_active"@, "Alarm"@, Seq::empty(), Some("problem"@))
    ||| sensor_config(t, c, "alarms"@, "Alarms"@, None, None, None, true)
    ||| s.charging is Some && toggle_config(
        t,
        c,
        caps.toggle_charge,
        "charging"@,
        "Charging"@,
        "charging"@,
        Some("battery_charging"@),
    )
    ||| s.discharging is Some && toggle_config(
        t,
        c,
        caps.toggle_discharge,
        "discharging"@,
        "Discharging"@,
        "discharging"@,
        None,
    )
    ||| caps.set_charge_limit && c.0 == topic_for(t, "number"@, "charge_limit"@) && (c.1 matches Json::Object(m)
        && limit_says(t, m))
}

/// A config of something that the status holds.
pub open spec fn rightful(t: Target, caps: Capabilities, s: BatteryStatus, c: (Seq<char>, Json)) -> bool {
    ||| device_config(t, s, c)
    ||| extreme_config(t, s, c)
    ||| other_config(t, caps, s, c)
    ||| exists|i: int| 0 <= i < s.temperatures@.len() && probe_config(t, c, #[trigger] s.temperatures@[i])
    ||| exists|i: int|
        0 <= i < s.cells@.len() && (#[trigger] s.cells@[i]).voltage is Some && cell_config(t, c, s.cells@[i])
    ||| exists|i: int| 0 <= i < s.switches@.len() && switch_config(t, caps, c, #[trigger] s.switches@[i])
    ||| exists|i: int| 0 <= i < s.ports@.len() && port_config(t, caps, c, #[trigger] s.ports@[i])
}

/// Every config is that of something that the status holds, and says of it what it should:
/// there is no other, and no second one with other words.
pub proof fn law_every_config_is_rightful(t: Target, caps: Capabilities, s: BatteryStatus, i: int)
    requires
        0 <= i < configs(t, caps, s).len(),
    ensures
        rightful(t, caps, s, configs(t, caps, s)[i]),
{
    let root = t.root();
    let p = |e: EntityView| rightful(t, caps, s, config_of(t, e));
    lemma_sensor_keys(s);
    assert forall|i: int| 0 <= i < device_sensors(s).len() && (#[trigger] device_sensors(s)[i]).0 implies p(
        device_sensors(s)[i].1,
    ) by {
        lemma_device_config(t, s, i);
    }
    assert forall|i: int| 0 <= i < cell_extremes(s).len() && s.cells@.len() > 0 && (
    #[trigger] cell_extremes(s)[i]).0 implies p(cell_extremes(s)[i].1) by {
        lemma_extreme_config(t, s, i);
    }
    assert forall|i: int| 0 <= i < s.temperatures@.len() implies p(probe_sensor(#[trigger] s.temperatures@[i])) by {
        lemma_probe_config(t, s.temperatures@[i]);
    }
    assert forall|i: int| 0 <= i < s.cells@.len() && (#[trigger] s.cells@[i]).voltage is Some implies p(
        cell_sensor(s.cells@[i]),
    ) by {
        lemma_cell_config(t, s.cells@[i]);
    }
    assert forall|i: int| 0 <= i < s.switches@.len() implies p(switch_entity(root, caps, #[trigger] s.switches@[i])) by {
        lemma_switch_config(t, caps, s.switches@[i]);
    }
    assert forall|i: int| 0 <= i < s.ports@.len() && (#[trigger] s.ports@[i]).on is Some implies p(
        port_entity(root, caps, s.ports@[i]),
    ) by {
        lemma_port_config(t, caps, s.ports@[i]);
    }
    assert forall|i: int| 0 <= i < s.ports@.len() && (#[trigger] s.ports@[i]).watts is Some implies p(
        port_power_entity(s.ports@[i]),
    ) by {
        lemma_port_config(t, caps, s.ports@[i]);
    }
    lemma_other_configs(t, caps, s);
    lemma_all_entities(root, caps, s, p);
    let e = entities(root, caps, s)[i];
    assert(p(e)) by {
        reveal(all);
    }
    assert(configs(t, caps, s)[i] == config_of(t, e));
}

/// The config of an entity.
spec fn config_of(t: Target, e: EntityView) -> (Seq<char>, Json) {
    (topic_for(t, e.component, e.key), Json::Object(complete(t, e)))
}

/// The configs of the device as a whole.
proof fn lemma_device_config(t: Target, s: BatteryStatus, i: int)
    requires
        0 <= i < device_sensors(s).len(),
        device_sensors(s)[i].0,
    ensures
        device_config(t, s, config_of(t, device_sensors(s)[i].1)),
{
    lemma_sensor_keys(s);
    if i == 0 {
        lemma_sensor_says(t, "Battery"@, "soc"@, Some("battery"@), Some("%"@), Some("measurement"@));
    } else if i == 1 {
        lemma_sensor_says(t, "State of health"@, "soh"@, None, Some("%"@), Some("measurement"@));
    } else if i == 2 {
        lemma_sensor_says(t, "Voltage"@, "voltage"@, Some("voltage"@), Some("V"@), Some("measurement"@));
    } else if i == 3 {
        lemma_sensor_says(t, "Current"@, "current"@, Some("current"@), Some("A"@), Some("measurement"@));
    } else if i == 4 {
        lemma_sensor_says(t, "Power in"@, "power_in"@, Some("power"@), Some("W"@), Some("measurement"@));
    } else if i == 5 {
        lemma_sensor_says(t, "Power out"@, "power_out"@, Some("power"@), Some("W"@), Some("measurement"@));
    } else if i == 6 {
        lemma_sensor_says(t, "Time remaining"@, "time_remaining_h"@, Some("duration"@), Some("h"@), Some("measurement"@));
    } else if i == 7 {
        lemma_sensor_says(t, "Capacity remaining"@, "capacity_remaining_ah"@, None, Some("Ah"@), Some("measurement"@));
    } else if i == 8 {
        lemma_sensor_says(t, "Capacity full"@, "capacity_full_ah"@, None, Some("Ah"@), Some("measurement"@));
    } else if i == 9 {
        lemma_sensor_says(t, "Cycles"@, "cycles"@, None, None, Some("total_increasing"@));
    } else if i == 10 {
        lemma_sensor_says(t, "Charge current limit"@, "charge_current_limit_a"@, Some("current"@), Some("A"@), Some("measurement"@));
    } else if i == 11 {
        lemma_sensor_says(t, "Discharge current limit"@, "discharge_current_limit_a"@, Some("current"@), Some("A"@), Some("measurement"@));
    } else if i == 12 {
        lemma_sensor_says(t, "Temperature"@, "temperature"@, Some("temperature"@), Some("°C"@), Some("measurement"@));
    }
}

/// The configs of the extremes of the cells.
proof fn lemma_extreme_config(t: Target, s: BatteryStatus, i: int)
    requires
        0 <= i < cell_extremes(s).len(),
        cell_extremes(s)[i].0,
        s.cells@.len() > 0,
    ensures
        extreme_config(t, s, config_of(t, cell_extremes(s)[i].1)),
{
    lemma_sensor_keys(s);
    if i == 0 {
        lemma_sensor_says(t, "Cell min"@, "cell_min"@, Some("voltage"@), Some("V"@), Some("measurement"@));
    } else if i == 1 {
        lemma_sensor_says(t, "Cell max"@, "cell_max"@, Some("voltage"@), Some("V"@), Some("measurement"@));
    } else if i == 2 {
        lemma_sensor_says(t, "Cell delta"@, "cell_delta"@, Some("voltage"@), Some("V"@), Some("measurement"@));
    }
}

/// The config of a probe.
proof fn lemma_probe_config(t: Target, p: TemperatureProbe)
    ensures
        probe_config(t, config_of(t, probe_sensor(p)), p),
{
    lemma_sensor_says(
        t,
        called(p.label, "Temperature "@ + p.id@),
        "temp_"@ + slug(p.id@),
        Some("temperature"@),
        Some("°C"@),
        Some("measurement"@),
    );
}

/// The config of a cell.
proof fn lemma_cell_config(t: Target, c: CellState)
    ensures
        cell_config(t, config_of(t, cell_sensor(c)), c),
{
    lemma_sensor_says(
        t,
        "Cell "@ + decimal(c.index as nat + 1),
        "cell_"@ + decimal(c.index as nat),
        Some("voltage"@),
        Some("V"@),
        Some("measurement"@),
    );
}

/// The config of a switch.
proof fn lemma_switch_config(t: Target, caps: Capabilities, w: SwitchState)
    ensures
        switch_config(t, caps, config_of(t, switch_entity(t.root(), caps, w)), w),
{
    lemma_switch_says(t, called(w.label, w.id@), "sw_"@ + slug(w.id@), w.id@);
    lemma_binary_says(t, called(w.label, w.id@), "sw_"@ + slug(w.id@), None);
}

/// The configs of a port.
proof fn lemma_port_config(t: Target, caps: Capabilities, p: PortState)
    ensures
        p.on is Some ==> port_config(t, caps, config_of(t, port_entity(t.root(), caps, p)), p),
        p.watts is Some ==> port_config(t, caps, config_of(t, port_power_entity(p)), p),
{
    let name = called(p.label, p.id@);
    let key = "port_"@ + slug(p.id@);
    lemma_switch_says(t, name, key, p.id@);
    lemma_binary_says(t, name, key, Some("power"@));
    lemma_sensor_says(t, name + " power"@, key + "_w"@, Some("power"@), Some("W"@), Some("measurement"@));
}

/// The other configs.
proof fn lemma_other_configs(t: Target, caps: Capabilities, s: BatteryStatus)
    ensures
        other_config(t, caps, s, config_of(t, binary("Alarm"@, "alarm_active"@, Some("problem"@)))),
        other_config(t, caps, s, config_of(t, sensor("Alarms"@, "alarms"@, None, None, None))),
        s.charging is Some ==> other_config(
            t,
            caps,
            s,
            config_of(
                t,
                toggle(t.root(), caps.toggle_charge, "Charging"@, "charging"@, "charging"@, Some("battery_charging"@)),
            ),
        ),
        s.discharging is Some ==> other_config(
            t,
            caps,
            s,
            config_of(
                t,
                toggle(t.root(), caps.toggle_discharge, "Discharging"@, "discharging"@, "discharging"@, None),
            ),
        ),
        caps.set_charge_limit ==> other_config(t, caps, s, config_of(t, charge_limit(t.root()))),
{
    lemma_binary_says(t, "Alarm"@, "alarm_active"@, Some("problem"@));
    lemma_sensor_says(t, "Alarms"@, "alarms"@, None, None, None);
    lemma_switch_says(t, "Charging"@, "charging"@, "charging"@);
    lemma_binary_says(t, "Charging"@, "charging"@, Some("battery_charging"@));
    lemma_switch_says(t, "Discharging"@, "discharging"@, "discharging"@);
    lemma_binary_says(t, "Discharging"@, "discharging"@, None);
    lemma_limit_says(t);
}

/// A number by which the keys of configs differ.
proof fn lemma_config_marks()
    ensures
        mark("name"@) == 4110101,
        mark("value_template"@) == 14118101,
        mark("device_class"@) == 12100115,
        mark("unit_of_measurement"@) == 19117116,
        mark("state_class"@) == 11115115,
        mark("enabled_by_default"@) == 18101116,
        mark("payload_on"@) == 10112110,
        mark("payload_off"@) == 11112102,
        mark("state_on"@) == 8115110,
        mark("state_off"@) == 9115102,
        mark("command_topic"@) == 13099099,
        mark("min"@) == 3109110,
        mark("max"@) == 3109120,
        mark("step"@) == 4115112,
        mark("mode"@) == 4109101,
        mark("icon"@) == 4105110,
        mark("unique_id"@) == 9117100,
        mark("object_id"@) == 9111100,
        mark("state_topic"@) == 11115099,
        mark("availability"@) == 12097121,
        mark("availability_mode"@) == 17097101,
        mark("device"@) == 6100101,
{
    reveal_strlit("name");
    reveal_strlit("value_template");
    reveal_strlit("device_class");
    reveal_strlit("unit_of_measurement");
    reveal_strlit("state_class");
    reveal_strlit("enabled_by_default");
    reveal_strlit("payload_on");
    reveal_strlit("payload_off");
    reveal_strlit("state_on");
    reveal_strlit("state_off");
    reveal_strlit("command_topic");
    reveal_strlit("min");
    reveal_strlit("max");
    reveal_strlit("step");
    reveal_strlit("mode");
    reveal_strlit("icon");
    reveal_strlit("unique_id");
    reveal_strlit("object_id");
    reveal_strlit("state_topic");
    reveal_strlit("availability");
    reveal_strlit("availability_mode");
    reveal_strlit("device");
}

/// The components differ.
proof fn lemma_components()
    ensures
        "sensor"@ != "binary_sensor"@,
        "sensor"@ != "switch"@,
        "sensor"@ != "number"@,
        "binary_sensor"@ != "switch"@,
        "binary_sensor"@ != "number"@,
        "switch"@ != "number"@,
{
    reveal_strlit("sensor");
    reveal_strlit("binary_sensor");
    reveal_strlit("switch");
    reveal_strlit("number");
    assert("sensor"@.len() != "binary_sensor"@.len());
    assert("switch"@.len() != "binary_sensor"@.len());
    assert("number"@.len() != "binary_sensor"@.len());
    assert("sensor"@[1] != "switch"@[1]);
    assert("sensor"@[0] != "number"@[0]);
    assert("switch"@[0] != "number"@[0]);
}

/// What a sensor's config says.
proof fn lemma_sensor_says(
    t: Target,
    name: Seq<char>,
    key: Seq<char>,
    device_class: Option<Seq<char>>,
    unit: Option<Seq<char>>,
    statistics: Option<Seq<char>>,
)
    ensures
        ({
            let e = sensor(name, key, device_class, unit, statistics);
            &&& sensor_says(complete(t, e), key, name, device_class, unit, statistics, true)
            &&& sensor_says(complete(t, disabled(e)), key, name, device_class, unit, statistics, false)
        }),
{
    lemma_config_marks();
}

/// What a binary sensor's config says.
proof fn lemma_binary_says(t: Target, name: Seq<char>, key: Seq<char>, device_class: Option<Seq<char>>)
    ensures
        binary_says(complete(t, binary(name, key, device_class)), key, name, device_class),
{
    lemma_config_marks();
}

/// What a switch's config says.
proof fn lemma_switch_says(t: Target, name: Seq<char>, key: Seq<char>, id: Seq<char>)
    ensures
        switch_says(t, complete(t, switch(t.root(), name, key, id)), key, name, id),
{
    lemma_config_marks();
}

/// What the config of the charge limit says.
proof fn lemma_limit_says(t: Target)
    ensures
        limit_says(t, complete(t, charge_limit(t.root()))),
{
    lemma_config_marks();
}

/// The config of an entity.
proof fn lemma_config_of(t: Target, caps: Capabilities, s: BatteryStatus, e: EntityView) -> (i: int)
    requires
        entities(t.root(), caps, s).contains(e),
    ensures
        0 <= i < configs(t, caps, s).len(),
        configs(t, caps, s)[i] == (topic_for(t, e.component, e.key), Json::Object(complete(t, e))),
{
    let i = choose|i: int| 0 <= i < entities(t.root(), caps, s).len() && entities(t.root(), caps, s)[i] == e;
    assert(configs(t, caps, s)[i].0 == config_topic(t, e.component, e.key));
    i
}

/// The config of a sensor.
proof fn lemma_sensor_config(
    t: Target,
    caps: Capabilities,
    s: BatteryStatus,
    key: Seq<char>,
    name: Seq<char>,
    device_class: Option<Seq<char>>,
    unit: Option<Seq<char>>,
    statistics: Option<Seq<char>>,
    enabled: bool,
)
    requires
        entities(t.root(), caps, s).contains(
            if enabled {
                sensor(name, key, device_class, unit, statistics)
            } else {
                disabled(sensor(name, key, device_class, unit, statistics))
            },
        ),
    ensures
        sensor_announced(t, caps, s, key, name, device_class, unit, statistics, enabled),
{
    let e = if enabled {
        sensor(name, key, device_class, unit, statistics)
    } else {
        disabled(sensor(name, key, device_class, unit, statistics))
    };
    let i = lemma_config_of(t, caps, s, e);
    lemma_sensor_says(t, name, key, device_class, unit, statistics);
    assert(configs(t, caps, s)[i].0 == topic_for(t, "sensor"@, key));
}

/// The config of a toggle.
proof fn lemma_toggle_config(
    t: Target,
    caps: Capabilities,
    s: BatteryStatus,
    able: bool,
    key: Seq<char>,
    name: Seq<char>,
    id: Seq<char>,
    device_class: Option<Seq<char>>,
)
    requires
        entities(t.root(), caps, s).contains(toggle(t.root(), able, name, key, id, device_class)),
    ensures
        toggle_announced(t, caps, s, able, key, name, id, device_class),
{
    let e = toggle(t.root(), able, name, key, id, device_class);
    let i = lemma_config_of(t, caps, s, e);
    if able {
        lemma_switch_says(t, name, key, id);
        assert(configs(t, caps, s)[i].0 == topic_for(t, "switch"@, key));
    } else {
        lemma_binary_says(t, name, key, device_class);
        assert(configs(t, caps, s)[i].0 == topic_for(t, "binary_sensor"@, key));
    }
}

/// What the state document does not hold is not announced.
proof fn lemma_untold(t: Target, caps: Capabilities, s: BatteryStatus, component: Seq<char>, key: Seq<char>)
    requires
        component == "sensor"@ || component == "switch"@ || component == "binary_sensor"@,
        member(state_members(s), key) is None,
    ensures
        unannounced(t, caps, s, component, key),
{
    let root = t.root();
    reveal_strlit("sensor");
    reveal_strlit("binary_sensor");
    reveal_strlit("switch");
    lemma_components();
    law_entities_are_formed(root, caps, s);
    law_entities_show_what_the_state_holds(root, caps, s);
    assert forall|i: int| 0 <= i < configs(t, caps, s).len() implies (#[trigger] configs(t, caps, s)[i]).0 != topic_for(
        t,
        component,
        key,
    ) by {
        let e = entities(root, caps, s)[i];
        if configs(t, caps, s)[i].0 == topic_for(t, component, key) {
            lemma_components_hold_no_separator(root, caps, s, e);
            lemma_topics_of_one_device(t, e.component, e.key, component, key);
            assert(state_members(s).contains_key(shown_key(e)));
        }
    }
}

/// A sensor of the device as a whole.
proof fn lemma_device_row(
    t: Target,
    caps: Capabilities,
    s: BatteryStatus,
    n: int,
    key: Seq<char>,
    name: Seq<char>,
    device_class: Option<Seq<char>>,
    unit: Option<Seq<char>>,
    statistics: Option<Seq<char>>,
)
    requires
        0 <= n < 13,
        device_sensors(s)[n].1 == sensor(name, key, device_class, unit, statistics),
    ensures
        sensor_row(t, caps, s, device_sensors(s)[n].0, key, name, device_class, unit, statistics),
{
    lemma_sensor_keys(s);
    let (present, e) = device_sensors(s)[n];
    if present {
        lemma_held(t.root(), caps, s, e);
        lemma_sensor_config(t, caps, s, key, name, device_class, unit, statistics, true);
    } else {
        law_device_values_stand_under_their_keys(s);
        assert(member(state_members(s), device_values(s)[place_of_sensor(n)].0) is None);
        lemma_untold(t, caps, s, "sensor"@, key);
    }
}

/// A sensor of an extreme of the cells.
proof fn lemma_extreme_row(
    t: Target,
    caps: Capabilities,
    s: BatteryStatus,
    n: int,
    key: Seq<char>,
    name: Seq<char>,
    device_class: Option<Seq<char>>,
    unit: Option<Seq<char>>,
    statistics: Option<Seq<char>>,
)
    requires
        0 <= n < 3,
        cell_extremes(s)[n].1 == sensor(name, key, device_class, unit, statistics),
    ensures
        sensor_row(
            t,
            caps,
            s,
            s.cells@.len() > 0 && cell_extremes(s)[n].0,
            key,
            name,
            device_class,
            unit,
            statistics,
        ),
{
    lemma_sensor_keys(s);
    let (present, e) = cell_extremes(s)[n];
    if s.cells@.len() > 0 && present {
        lemma_held(t.root(), caps, s, e);
        lemma_sensor_config(t, caps, s, key, name, device_class, unit, statistics, true);
    } else if !present {
        law_device_values_stand_under_their_keys(s);
        assert(member(state_members(s), device_values(s)[14 + n].0) is None);
        lemma_untold(t, caps, s, "sensor"@, key);
    } else {
        lemma_no_extreme_without_cells(t.root(), caps, s, n);
        law_entities_are_formed(t.root(), caps, s);
        reveal_strlit("sensor");
        assert forall|i: int| 0 <= i < configs(t, caps, s).len() implies (#[trigger] configs(t, caps, s)[i]).0
            != topic_for(t, "sensor"@, key) by {
            let x = entities(t.root(), caps, s)[i];
            if configs(t, caps, s)[i].0 == topic_for(t, "sensor"@, key) {
                lemma_components_hold_no_separator(t.root(), caps, s, x);
                lemma_topics_of_one_device(t, x.component, x.key, "sensor"@, key);
            }
        }
    }
}

/// Where no cells are listed, no entity has the key of one of their extremes.
proof fn lemma_no_extreme_without_cells(root: Seq<char>, caps: Capabilities, s: BatteryStatus, n: int)
    requires
        0 <= n < 3,
        s.cells@.len() == 0,
    ensures
        forall|i: int| 0 <= i < entities(root, caps, s).len() ==> (#[trigger] entities(root, caps, s)[i]).key
            != cell_extremes(s)[n].1.key,
{
    let key = cell_extremes(s)[n].1.key;
    let p = |e: EntityView| e.key != key;
    lemma_sensor_keys(s);
    lemma_device_keys(s);
    lemma_marks();
    reveal_strlit("charge_limit");
    assert(mark("charge_limit"@) == 12_099_116);
    assert(key == device_values(s)[14 + n].0 && fixed(key));
    assert(place(mark(key)) == 14 + n);
    assert forall|i: int| 0 <= i < device_sensors(s).len() && (#[trigger] device_sensors(s)[i]).0 implies p(
        device_sensors(s)[i].1,
    ) by {
        assert(place(mark(device_values(s)[place_of_sensor(i)].0)) == place_of_sensor(i));
    }
    assert forall|i: int| 0 <= i < s.temperatures@.len() implies p(probe_sensor(#[trigger] s.temperatures@[i])) by {
        lemma_key_shapes(s.temperatures@[i].id@, 0);
    }
    assert forall|i: int| 0 <= i < s.switches@.len() implies p(switch_entity(root, caps, #[trigger] s.switches@[i])) by {
        lemma_key_shapes(s.switches@[i].id@, 0);
    }
    assert forall|i: int| 0 <= i < s.ports@.len() implies p(port_entity(root, caps, #[trigger] s.ports@[i])) && p(
        port_power_entity(s.ports@[i]),
    ) by {
        lemma_key_shapes(s.ports@[i].id@, 0);
    }
    lemma_all_entities(root, caps, s, p);
    reveal(all);
    assert forall|i: int| 0 <= i < entities(root, caps, s).len() implies (#[trigger] entities(root, caps, s)[i]).key
        != key by {
        assert(p(entities(root, caps, s)[i]));
    }
}

/// What the state document says of a switch is `ON` or `OFF`.
proof fn lemma_switch_word(doc: Members, switches: Seq<SwitchState>, i: int)
    requires
        0 <= i < switches.len(),
    ensures
        on_off(member(with_switches(doc, switches), switch_key(switches[i].id@))),
    decreases switches.len(),
{
    let before = switches.drop_last();
    let last = switches[switches.len() - 1];
    if switch_key(last.id@) != switch_key(switches[i].id@) {
        assert(before[i] == switches[i]);
        lemma_switch_word(doc, before, i);
    }
}

/// What the state document says of a port's state is `ON` or `OFF`.
proof fn lemma_port_word(doc: Members, ports: Seq<PortState>, i: int)
    requires
        0 <= i < ports.len(),
        ports[i].on is Some,
        forall|j: int| 0 <= j < ports.len() && (#[trigger] ports[j]).watts is Some ==> port_power_key(ports[j].id@)
            != port_key(ports[i].id@),
    ensures
        on_off(member(with_ports(doc, ports), port_key(ports[i].id@))),
    decreases ports.len(),
{
    let before = ports.drop_last();
    let last = ports[ports.len() - 1];
    assert(last.watts is Some ==> port_power_key(last.id@) != port_key(ports[i].id@));
    if last.on is None || port_key(last.id@) != port_key(ports[i].id@) {
        assert(before[i] == ports[i]);
        assert(forall|j: int| 0 <= j < before.len() ==> #[trigger] before[j] == ports[j]);
        lemma_port_word(doc, before, i);
    }
}

/// What the state document says of what a switch or a binary sensor shows is `ON` or `OFF`.
proof fn lemma_state_of_toggle(caps: Capabilities, s: BatteryStatus, e: EntityView)
    requires
        e.component == "binary_sensor"@ || e.component == "switch"@,
        e.component == "binary_sensor"@ ==> e.key == "alarm_active"@ || exists|id: Seq<char>| #[trigger]
            toggled(caps, s, e.key, id, false),
        e.component == "switch"@ ==> exists|id: Seq<char>| #[trigger] toggled(caps, s, e.key, id, true),
        different_ports(s.ports@),
    ensures
        on_off(member(state_members(s), e.key)),
{
    law_fields_are_told(s);
    lemma_components();
    if e.key != "alarm_active"@ {
        let able = e.component == "switch"@;
        let id = choose|id: Seq<char>| #[trigger] toggled(caps, s, e.key, id, able);
        assert(toggled(caps, s, e.key, id, able));
        let d0 = with_members(Members::empty(), device_values(s));
        let d1 = with_probes(d0, s.temperatures@);
        let d2 = with_switches(d1, s.switches@);
        let d3 = with_ports(d2, s.ports@);
        lemma_key_shapes(id, 0);
        reveal_strlit("alarms");
        reveal_strlit("alarm_active");
        reveal_strlit("charging");
        reveal_strlit("discharging");
        if e.key == "charging"@ || e.key == "discharging"@ {
        } else if exists|i: int| 0 <= i < s.switches@.len() && (#[trigger] s.switches@[i]).id@ == id && e.key
            == switch_key(id) {
            let i = choose|i: int|
                0 <= i < s.switches@.len() && (#[trigger] s.switches@[i]).id@ == id && e.key == switch_key(id);
            lemma_switch_word(d1, s.switches@, i);
            lemma_ports_keep(d2, s.ports@, e.key);
            lemma_cells_keep(d3, s.cells@, e.key);
        } else {
            let i = choose|i: int| 0 <= i < s.ports@.len() && (#[trigger] s.ports@[i]).id@ == id && s.ports@[i].on is Some;
            lemma_port_word(d2, s.ports@, i);
            lemma_cells_keep(d3, s.cells@, e.key);
        }
    }
}

} // verus!
