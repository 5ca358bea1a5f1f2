//! The discovery configs of a device: one per Home Assistant entity.

use crate::json::{array, boolean, content, contents, duplicate, integer, members, no_members, null, object, put, string, Json, Members};
use crate::state::{cell_key, make_cell_key, port_key, port_power_key, probe_key, slug_key, switch_key};
use crate::status::{BatteryStatus, Capabilities, CellState, DeviceInfo, PortState, SwitchState, TemperatureProbe};
use crate::text::{decimal, push_decimal};
use vstd::prelude::*;
use vstd::string::*;

verus! {

/// The device that configs are made for, and the topics they are published under.
pub struct Target {
    pub prefix: Seq<char>,
    pub base: Seq<char>,
    pub slug: Seq<char>,
    pub label: Seq<char>,
    pub info: DeviceInfo,
}

/// One Home Assistant entity: its component, its key and the config members of its own.
pub struct EntityView {
    pub component: Seq<char>,
    pub key: Seq<char>,
    pub config: Members,
}

/// The topic under which all topics of a device stand.
pub open spec fn device_root(base: Seq<char>, slug: Seq<char>) -> Seq<char> {
    base + "/"@ + slug
}

impl Target {
    /// The topic under which all topics of the device stand.
    pub open spec fn root(self) -> Seq<char> {
        device_root(self.base, self.slug)
    }
}

/// The topic of a device's state document.
pub open spec fn state_topic(root: Seq<char>) -> Seq<char> {
    root + "/state"@
}

/// The topic of a device's availability.
pub open spec fn availability_topic(root: Seq<char>) -> Seq<char> {
    root + "/availability"@
}

/// The topic of the bridge's own availability.
pub open spec fn bridge_topic(base: Seq<char>) -> Seq<char> {
    base + "/bridge/availability"@
}

/// The topic on which a switch takes `ON` and `OFF`.
pub open spec fn toggle_topic(root: Seq<char>, id: Seq<char>) -> Seq<char> {
    root + "/set/"@ + id
}

/// The topic on which a setting takes its value.
pub open spec fn value_topic(root: Seq<char>, id: Seq<char>) -> Seq<char> {
    root + "/setv/"@ + id
}

/// The topic of an entity's config.
pub open spec fn config_topic(t: Target, component: Seq<char>, key: Seq<char>) -> Seq<char> {
    t.prefix + "/"@ + component + "/bc_"@ + t.slug + "/"@ + key + "/config"@
}

/// The template that reads one member of the state document.
pub open spec fn template(key: Seq<char>) -> Seq<char> {
    "{{ value_json."@ + key + " }}"@
}

/// A JSON string, or `null`.
pub open spec fn text_or_null(v: Option<String>) -> Json {
    match v {
        Some(s) => Json::Text(s@),
        None => Json::Null,
    }
}

/// How Home Assistant groups the entities of one device.
pub open spec fn device_json(slug: Seq<char>, label: Seq<char>, info: DeviceInfo) -> Json {
    Json::Object(
        Members::empty()
            .insert("identifiers"@, Json::Array(seq![Json::Text("bc_"@ + slug)]))
            .insert("name"@, Json::Text(label))
            .insert("manufacturer"@, Json::Text(info.backend@))
            .insert("model"@, text_or_null(info.model))
            .insert("serial_number"@, text_or_null(info.serial))
            .insert("sw_version"@, text_or_null(info.firmware)),
    )
}

/// One topic in the list of availability topics.
pub open spec fn topic_json(topic: Seq<char>) -> Json {
    Json::Object(Members::empty().insert("topic"@, Json::Text(topic)))
}

/// The availability topics: the bridge's and the device's.
pub open spec fn availability_json(t: Target) -> Json {
    Json::Array(seq![topic_json(bridge_topic(t.base)), topic_json(availability_topic(t.root()))])
}

/// What every entity's config holds besides the members of its own.
pub open spec fn complete(t: Target, e: EntityView) -> Members {
    e.config
        .insert("unique_id"@, Json::Text("bc_"@ + t.slug + "_"@ + e.key))
        .insert("object_id"@, Json::Text(t.slug + "_"@ + e.key))
        .insert("state_topic"@, Json::Text(state_topic(t.root())))
        .insert("availability"@, availability_json(t))
        .insert("availability_mode"@, Json::Text("all"@))
        .insert("device"@, device_json(t.slug, t.label, t.info))
}

/// The topic and the payload of an entity's config.
pub open spec fn entity_config(t: Target, e: EntityView) -> (Seq<char>, Json) {
    (config_topic(t, e.component, e.key), Json::Object(complete(t, e)))
}

/// Adds a string member, if there is one.
pub open spec fn with_text(config: Members, key: Seq<char>, v: Option<Seq<char>>) -> Members {
    match v {
        Some(s) => config.insert(key, Json::Text(s)),
        None => config,
    }
}

/// A sensor that shows one member of the state document.
pub open spec fn sensor(
    name: Seq<char>,
    key: Seq<char>,
    device_class: Option<Seq<char>>,
    unit: Option<Seq<char>>,
    state_class: Option<Seq<char>>,
) -> EntityView {
    let c = Members::empty()
        .insert("name"@, Json::Text(name))
        .insert("value_template"@, Json::Text(template(key)));
    let c = with_text(c, "device_class"@, device_class);
    let c = with_text(c, "unit_of_measurement"@, unit);
    let c = with_text(c, "state_class"@, state_class);
    EntityView { component: "sensor"@, key, config: c }
}

/// A sensor of a quantity that is measured.
pub open spec fn measurement(
    name: Seq<char>,
    key: Seq<char>,
    device_class: Option<Seq<char>>,
    unit: Seq<char>,
) -> EntityView {
    sensor(name, key, device_class, Some(unit), Some("measurement"@))
}

/// The same entity, disabled until the user enables it.
pub open spec fn disabled(e: EntityView) -> EntityView {
    EntityView { config: e.config.insert("enabled_by_default"@, Json::Bool(false)), ..e }
}

/// An `ON`/`OFF` sensor that shows one member of the state document.
pub open spec fn binary(name: Seq<char>, key: Seq<char>, device_class: Option<Seq<char>>) -> EntityView {
    let c = Members::empty()
        .insert("name"@, Json::Text(name))
        .insert("value_template"@, Json::Text(template(key)))
        .insert("payload_on"@, Json::Text("ON"@))
        .insert("payload_off"@, Json::Text("OFF"@));
    EntityView { component: "binary_sensor"@, key, config: with_text(c, "device_class"@, device_class) }
}

/// A switch that shows one member of the state document and commands `id`.
pub open spec fn switch(root: Seq<char>, name: Seq<char>, key: Seq<char>, id: Seq<char>) -> EntityView {
    let c = Members::empty()
        .insert("name"@, Json::Text(name))
        .insert("value_template"@, Json::Text(template(key)))
        .insert("command_topic"@, Json::Text(toggle_topic(root, id)))
        .insert("payload_on"@, Json::Text("ON"@))
        .insert("payload_off"@, Json::Text("OFF"@))
        .insert("state_on"@, Json::Text("ON"@))
        .insert("state_off"@, Json::Text("OFF"@));
    EntityView { component: "switch"@, key, config: c }
}

/// The slider for the charge limit.
pub open spec fn charge_limit(root: Seq<char>) -> EntityView {
    let c = Members::empty()
        .insert("name"@, Json::Text("Charge limit"@))
        .insert("command_topic"@, Json::Text(value_topic(root, "charge_limit"@)))
        .insert("value_template"@, Json::Text("{{ value_json.soc_limit_max }}"@))
        .insert("min"@, Json::Integer(0))
        .insert("max"@, Json::Integer(100))
        .insert("step"@, Json::Integer(1))
        .insert("unit_of_measurement"@, Json::Text("%"@))
        .insert("mode"@, Json::Text("slider"@))
        .insert("icon"@, Json::Text("mdi:battery-charging-80"@));
    EntityView { component: "number"@, key: "charge_limit"@, config: c }
}

/// Adds an entity, if what it shows is present.
pub open spec fn with_entity(es: Seq<EntityView>, present: bool, e: EntityView) -> Seq<EntityView> {
    if present {
        es.push(e)
    } else {
        es
    }
}

/// Adds the entities of a list of which what they show is present, one after another.
pub open spec fn with_entities(es: Seq<EntityView>, list: Seq<(bool, EntityView)>) -> Seq<EntityView>
    decreases list.len(),
{
    if list.len() == 0 {
        es
    } else {
        let (present, e) = list.last();
        with_entity(with_entities(es, list.drop_last()), present, e)
    }
}

/// The sensors of the device as a whole, each with whether what it shows is present.
pub open spec fn device_sensors(s: BatteryStatus) -> Seq<(bool, EntityView)> {
    Seq::empty()
        .push((s.soc is Some, measurement("Battery"@, "soc"@, Some("battery"@), "%"@)))
        .push((s.soh is Some, measurement("State of health"@, "soh"@, None, "%"@)))
        .push((s.voltage is Some, measurement("Voltage"@, "voltage"@, Some("voltage"@), "V"@)))
        .push((s.current is Some, measurement("Current"@, "current"@, Some("current"@), "A"@)))
        .push((s.power_in is Some, measurement("Power in"@, "power_in"@, Some("power"@), "W"@)))
        .push((s.power_out is Some, measurement("Power out"@, "power_out"@, Some("power"@), "W"@)))
        .push((
            s.time_remaining_h is Some,
            measurement("Time remaining"@, "time_remaining_h"@, Some("duration"@), "h"@),
        ))
        .push((
            s.capacity_remaining_ah is Some,
            measurement("Capacity remaining"@, "capacity_remaining_ah"@, None, "Ah"@),
        ))
        .push((s.capacity_full_ah is Some, measurement("Capacity full"@, "capacity_full_ah"@, None, "Ah"@)))
        .push((s.cycles is Some, sensor("Cycles"@, "cycles"@, None, None, Some("total_increasing"@))))
        .push((
            s.charge_current_limit_a is Some,
            measurement("Charge current limit"@, "charge_current_limit_a"@, Some("current"@), "A"@),
        ))
        .push((
            s.discharge_current_limit_a is Some,
            measurement("Discharge current limit"@, "discharge_current_limit_a"@, Some("current"@), "A"@),
        ))
        .push((
            s.temperature_c is Some,
            measurement("Temperature"@, "temperature"@, Some("temperature"@), "°C"@),
        ))
}

/// The label, or the text that stands in for it.
pub open spec fn label_or(label: Option<String>, otherwise: Seq<char>) -> Seq<char> {
    match label {
        Some(l) => l@,
        None => otherwise,
    }
}

/// The sensor of one temperature probe.
pub open spec fn probe_sensor(p: TemperatureProbe) -> EntityView {
    let name = label_or(p.label, "Temperature "@ + p.id@);
    disabled(measurement(name, probe_key(p.id@), Some("temperature"@), "°C"@))
}

/// Adds a sensor for each temperature probe.
pub open spec fn with_probe_sensors(es: Seq<EntityView>, probes: Seq<TemperatureProbe>) -> Seq<EntityView>
    decreases probes.len(),
{
    if probes.len() == 0 {
        es
    } else {
        with_probe_sensors(es, probes.drop_last()).push(probe_sensor(probes.last()))
    }
}

/// The sensor of one cell; people count cells from one.
pub open spec fn cell_sensor(c: CellState) -> EntityView {
    disabled(measurement("Cell "@ + decimal(c.index as nat + 1), cell_key(c.index), Some("voltage"@), "V"@))
}

/// Adds a sensor for each cell whose voltage is present.
pub open spec fn with_each_cell(es: Seq<EntityView>, cells: Seq<CellState>) -> Seq<EntityView>
    decreases cells.len(),
{
    if cells.len() == 0 {
        es
    } else {
        let c = cells.last();
        with_entity(with_each_cell(es, cells.drop_last()), c.voltage is Some, cell_sensor(c))
    }
}

/// The sensors of the extremes of the cells, each with whether it is present.
pub open spec fn cell_extremes(s: BatteryStatus) -> Seq<(bool, EntityView)> {
    Seq::empty()
        .push((s.cell_min is Some, measurement("Cell min"@, "cell_min"@, Some("voltage"@), "V"@)))
        .push((s.cell_max is Some, measurement("Cell max"@, "cell_max"@, Some("voltage"@), "V"@)))
        .push((s.cell_delta is Some, measurement("Cell delta"@, "cell_delta"@, Some("voltage"@), "V"@)))
}

/// Adds the sensors of the cells: the extremes and each cell, where they are present.
pub open spec fn with_cell_sensors(es: Seq<EntityView>, s: BatteryStatus) -> Seq<EntityView> {
    if s.cells@.len() == 0 {
        es
    } else {
        with_each_cell(with_entities(es, cell_extremes(s)), s.cells@)
    }
}

/// Adds the alarm entities.
pub open spec fn with_alarm_sensors(es: Seq<EntityView>) -> Seq<EntityView> {
    es.push(binary("Alarm"@, "alarm_active"@, Some("problem"@))).push(
        sensor("Alarms"@, "alarms"@, None, None, None),
    )
}

/// What shows an `ON`/`OFF` state: a switch where it can be toggled, else a binary sensor.
pub open spec fn toggle(
    root: Seq<char>,
    can_toggle: bool,
    name: Seq<char>,
    key: Seq<char>,
    id: Seq<char>,
    device_class: Option<Seq<char>>,
) -> EntityView {
    if can_toggle {
        switch(root, name, key, id)
    } else {
        binary(name, key, device_class)
    }
}

/// Adds the charge and discharge entities.
pub open spec fn with_mosfets(
    es: Seq<EntityView>,
    root: Seq<char>,
    caps: Capabilities,
    s: BatteryStatus,
) -> Seq<EntityView> {
    let es = with_entity(
        es,
        s.charging is Some,
        toggle(root, caps.toggle_charge, "Charging"@, "charging"@, "charging"@, Some("battery_charging"@)),
    );
    with_entity(
        es,
        s.discharging is Some,
        toggle(root, caps.toggle_discharge, "Discharging"@, "discharging"@, "discharging"@, None),
    )
}

/// Adds an entity for each free-form switch.
pub open spec fn with_switch_entities(
    es: Seq<EntityView>,
    root: Seq<char>,
    caps: Capabilities,
    switches: Seq<SwitchState>,
) -> Seq<EntityView>
    decreases switches.len(),
{
    if switches.len() == 0 {
        es
    } else {
        let w = switches.last();
        with_switch_entities(es, root, caps, switches.drop_last()).push(
            toggle(root, caps.controllable, label_or(w.label, w.id@), switch_key(w.id@), w.id@, None),
        )
    }
}

/// Adds the entities of each port: its state and its power, where they are present.
pub open spec fn with_port_entities(
    es: Seq<EntityView>,
    root: Seq<char>,
    caps: Capabilities,
    ports: Seq<PortState>,
) -> Seq<EntityView>
    decreases ports.len(),
{
    if ports.len() == 0 {
        es
    } else {
        let p = ports.last();
        let name = label_or(p.label, p.id@);
        let es = with_port_entities(es, root, caps, ports.drop_last());
        let es = with_entity(
            es,
            p.on is Some,
            toggle(root, caps.toggle_ports, name, port_key(p.id@), p.id@, Some("power"@)),
        );
        with_entity(
            es,
            p.watts is Some,
            measurement(name + " power"@, port_power_key(p.id@), Some("power"@), "W"@),
        )
    }
}

/// The entities of a device, in the order in which they are published.
pub open spec fn entities(root: Seq<char>, caps: Capabilities, s: BatteryStatus) -> Seq<EntityView> {
    let es = with_entities(Seq::empty(), device_sensors(s));
    let es = with_probe_sensors(es, s.temperatures@);
    let es = with_cell_sensors(es, s);
    let es = with_alarm_sensors(es);
    let es = with_mosfets(es, root, caps, s);
    let es = with_switch_entities(es, root, caps, s.switches@);
    let es = with_port_entities(es, root, caps, s.ports@);
    with_entity(es, caps.set_charge_limit, charge_limit(root))
}

/// The topics and payloads of all configs of a device.
pub open spec fn configs(t: Target, caps: Capabilities, s: BatteryStatus) -> Seq<(Seq<char>, Json)> {
    entities(t.root(), caps, s).map_values(|e: EntityView| entity_config(t, e))
}

/// What a list of topics and payloads holds.
pub open spec fn config_views(list: Seq<(String, serde_json::Value)>) -> Seq<(Seq<char>, Json)> {
    list.map_values(|c: (String, serde_json::Value)| (c.0@, content(c.1)))
}

/// What an optional string reads.
pub open spec fn optional_text(v: Option<&str>) -> Option<Seq<char>> {
    match v {
        Some(s) => Some(s@),
        None => None,
    }
}

/// An entity on its way to becoming a config.
struct Entity {
    component: &'static str,
    key: String,
    config: serde_json::Map<String, serde_json::Value>,
}

impl View for Entity {
    type V = EntityView;

    closed spec fn view(&self) -> EntityView {
        EntityView { component: self.component@, key: self.key@, config: members(self.config) }
    }
}

/// What a list of entities holds.
spec fn entity_views(list: Seq<Entity>) -> Seq<EntityView> {
    list.map_values(|e: Entity| e@)
}

/// Builds the topic under which all topics of a device stand.
pub(crate) fn make_root(base: &str, slug: &str) -> (r: String)
    ensures
        r@ == device_root(base@, slug@),
{
    base.to_owned().concat("/").concat(slug)
}

/// Builds the topic of the bridge's own availability.
pub fn bridge_availability_topic(base: &str) -> (r: String)
    ensures
        r@ == bridge_topic(base@),
        r@ == base@ + "/bridge/availability"@,
{
    base.to_owned().concat("/bridge/availability")
}

/// Sets a string member.
fn put_text(m: &mut serde_json::Map<String, serde_json::Value>, key: &str, text: &str)
    ensures
        members(*final(m)) == members(*old(m)).insert(key@, Json::Text(text@)),
{
    put(m, key, string(text));
}

/// Sets a string member, if there is one.
fn put_optional(m: &mut serde_json::Map<String, serde_json::Value>, key: &str, v: Option<&str>)
    ensures
        members(*final(m)) == with_text(members(*old(m)), key@, optional_text(v)),
{
    if let Some(text) = v {
        put(m, key, string(text));
    }
}

/// Sets the name and the template of an entity.
fn named(name: &str, key: &str) -> (m: serde_json::Map<String, serde_json::Value>)
    ensures
        members(m) == Members::empty().insert("name"@, Json::Text(name@)).insert(
            "value_template"@,
            Json::Text(template(key@)),
        ),
{
    let mut m = no_members();
    put_text(&mut m, "name", name);
    put_text(&mut m, "value_template", "{{ value_json.".to_owned().concat(key).concat(" }}").as_str());
    m
}

/// Makes a sensor.
fn make_sensor(
    name: &str,
    key: &str,
    device_class: Option<&str>,
    unit: Option<&str>,
    state_class: Option<&str>,
) -> (e: Entity)
    ensures
        e@ == sensor(
            name@,
            key@,
            optional_text(device_class),
            optional_text(unit),
            optional_text(state_class),
        ),
{
    let mut m = named(name, key);
    put_optional(&mut m, "device_class", device_class);
    put_optional(&mut m, "unit_of_measurement", unit);
    put_optional(&mut m, "state_class", state_class);
    Entity { component: "sensor", key: key.to_owned(), config: m }
}

/// Makes a sensor of a quantity that is measured.
fn make_measurement(name: &str, key: &str, device_class: Option<&str>, unit: &str) -> (e: Entity)
    ensures
        e@ == measurement(name@, key@, optional_text(device_class), unit@),
{
    make_sensor(name, key, device_class, Some(unit), Some("measurement"))
}

/// Disables an entity until the user enables it.
fn disable(e: Entity) -> (r: Entity)
    ensures
        r@ == disabled(e@),
{
    let mut config = e.config;
    put(&mut config, "enabled_by_default", boolean(false));
    Entity { component: e.component, key: e.key, config }
}

/// Makes a binary sensor.
fn make_binary(name: &str, key: &str, device_class: Option<&str>) -> (e: Entity)
    ensures
        e@ == binary(name@, key@, optional_text(device_class)),
{
    let mut m = named(name, key);
    put_text(&mut m, "payload_on", "ON");
    put_text(&mut m, "payload_off", "OFF");
    put_optional(&mut m, "device_class", device_class);
    Entity { component: "binary_sensor", key: key.to_owned(), config: m }
}

/// Makes a switch.
fn make_switch(root: &str, name: &str, key: &str, id: &str) -> (e: Entity)
    ensures
        e@ == switch(root@, name@, key@, id@),
{
    let mut m = named(name, key);
    put_text(&mut m, "command_topic", root.to_owned().concat("/set/").concat(id).as_str());
    put_text(&mut m, "payload_on", "ON");
    put_text(&mut m, "payload_off", "OFF");
    put_text(&mut m, "state_on", "ON");
    put_text(&mut m, "state_off", "OFF");
    Entity { component: "switch", key: key.to_owned(), config: m }
}

/// Makes a switch where the state can be toggled, else a binary sensor.
fn make_toggle(
    root: &str,
    can_toggle: bool,
    name: &str,
    key: &str,
    id: &str,
    device_class: Option<&str>,
) -> (e: Entity)
    ensures
        e@ == toggle(root@, can_toggle, name@, key@, id@, optional_text(device_class)),
{
    if can_toggle {
        make_switch(root, name, key, id)
    } else {
        make_binary(name, key, device_class)
    }
}

/// Makes the slider for the charge limit.
fn make_charge_limit(root: &str) -> (e: Entity)
    ensures
        e@ == charge_limit(root@),
{
    let mut m = no_members();
    put_text(&mut m, "name", "Charge limit");
    put_text(&mut m, "command_topic", root.to_owned().concat("/setv/").concat("charge_limit").as_str());
    put_text(&mut m, "value_template", "{{ value_json.soc_limit_max }}");
    put(&mut m, "min", integer(0));
    put(&mut m, "max", integer(100));
    put(&mut m, "step", integer(1));
    put_text(&mut m, "unit_of_measurement", "%");
    put_text(&mut m, "mode", "slider");
    put_text(&mut m, "icon", "mdi:battery-charging-80");
    Entity { component: "number", key: "charge_limit".to_owned(), config: m }
}

/// Appends an entity.
fn add_entity(out: &mut Vec<Entity>, e: Entity)
    ensures
        entity_views(final(out)@) == entity_views(old(out)@).push(e@),
{
    let ghost before = out@;
    out.push(e);
    assert(entity_views(out@) =~= entity_views(before).push(e@));
}

/// Appends a sensor of a measured quantity, if the snapshot holds it.
fn add_measurement(
    out: &mut Vec<Entity>,
    present: bool,
    name: &str,
    key: &str,
    device_class: Option<&str>,
    unit: &str,
)
    ensures
        entity_views(final(out)@) == with_entity(
            entity_views(old(out)@),
            present,
            measurement(name@, key@, optional_text(device_class), unit@),
        ),
{
    if present {
        add_entity(out, make_measurement(name, key, device_class, unit));
    }
}

/// A list with one more entity.
proof fn lemma_one_more(es: Seq<EntityView>, list: Seq<(bool, EntityView)>, present: bool, e: EntityView)
    ensures
        with_entities(es, list.push((present, e))) == with_entity(with_entities(es, list), present, e),
{
    assert(list.push((present, e)).drop_last() =~= list);
}

/// Lists with one more entity.
proof fn lemma_lists_grow(es: Seq<EntityView>)
    ensures
        with_entities(es, Seq::empty()) == es,
        forall|list: Seq<(bool, EntityView)>, present: bool, e: EntityView| #[trigger]
            with_entities(es, list.push((present, e))) == with_entity(with_entities(es, list), present, e),
{
    assert forall|list: Seq<(bool, EntityView)>, present: bool, e: EntityView| #[trigger]
        with_entities(es, list.push((present, e))) == with_entity(with_entities(es, list), present, e) by {
        lemma_one_more(es, list, present, e);
    }
}

/// Appends the sensors of the device as a whole.
fn add_device_sensors(out: &mut Vec<Entity>, s: &BatteryStatus)
    ensures
        entity_views(final(out)@) == with_entities(entity_views(old(out)@), device_sensors(*s)),
{
    proof {
        lemma_lists_grow(entity_views(out@));
    }
    add_measurement(out, s.soc.is_some(), "Battery", "soc", Some("battery"), "%");
    add_measurement(out, s.soh.is_some(), "State of health", "soh", None, "%");
    add_measurement(out, s.voltage.is_some(), "Voltage", "voltage", Some("voltage"), "V");
    add_measurement(out, s.current.is_some(), "Current", "current", Some("current"), "A");
    add_measurement(out, s.power_in.is_some(), "Power in", "power_in", Some("power"), "W");
    add_measurement(out, s.power_out.is_some(), "Power out", "power_out", Some("power"), "W");
    add_measurement(
        out,
        s.time_remaining_h.is_some(),
        "Time remaining",
        "time_remaining_h",
        Some("duration"),
        "h",
    );
    add_measurement(
        out,
        s.capacity_remaining_ah.is_some(),
        "Capacity remaining",
        "capacity_remaining_ah",
        None,
        "Ah",
    );
    add_measurement(out, s.capacity_full_ah.is_some(), "Capacity full", "capacity_full_ah", None, "Ah");
    if s.cycles.is_some() {
        add_entity(out, make_sensor("Cycles", "cycles", None, None, Some("total_increasing")));
    }
    add_measurement(
        out,
        s.charge_current_limit_a.is_some(),
        "Charge current limit",
        "charge_current_limit_a",
        Some("current"),
        "A",
    );
    add_measurement(
        out,
        s.discharge_current_limit_a.is_some(),
        "Discharge current limit",
        "discharge_current_limit_a",
        Some("current"),
        "A",
    );
    add_measurement(
        out,
        s.temperature_c.is_some(),
        "Temperature",
        "temperature",
        Some("temperature"),
        "°C",
    );
}

/// Takes the label, or the text that stands in for it.
fn take_label(label: &Option<String>, otherwise: &str) -> (r: String)
    ensures
        r@ == label_or(*label, otherwise@),
{
    match label {
        Some(l) => l.clone(),
        None => otherwise.to_owned(),
    }
}

/// Appends a sensor for each temperature probe.
fn add_probe_sensors(out: &mut Vec<Entity>, probes: &Vec<TemperatureProbe>)
    ensures
        entity_views(final(out)@) == with_probe_sensors(entity_views(old(out)@), probes@),
{
    let ghost before = entity_views(out@);
    let mut i: usize = 0;
    while i < probes.len()
        invariant
            i <= probes.len(),
            entity_views(out@) == with_probe_sensors(before, probes@.take(i as int)),
        decreases probes.len() - i,
    {
        assert(probes@.take(i + 1).drop_last() =~= probes@.take(i as int));
        let p = &probes[i];
        let key = slug_key("temp_", p.id.as_str());
        let name = take_label(&p.label, "Temperature ".to_owned().concat(p.id.as_str()).as_str());
        add_entity(out, disable(make_measurement(name.as_str(), key.as_str(), Some("temperature"), "°C")));
        i += 1;
    }
    assert(probes@.take(i as int) =~= probes@);
}

/// Appends a sensor for each cell whose voltage the snapshot holds.
fn add_each_cell(out: &mut Vec<Entity>, cells: &Vec<CellState>)
    requires
        forall|i: int| 0 <= i < cells@.len() ==> #[trigger] cells@[i].index < u64::MAX,
    ensures
        entity_views(final(out)@) == with_each_cell(entity_views(old(out)@), cells@),
{
    let ghost before = entity_views(out@);
    let mut i: usize = 0;
    while i < cells.len()
        invariant
            i <= cells.len(),
            forall|i: int| 0 <= i < cells@.len() ==> #[trigger] cells@[i].index < u64::MAX,
            entity_views(out@) == with_each_cell(before, cells@.take(i as int)),
        decreases cells.len() - i,
    {
        assert(cells@.take(i + 1).drop_last() =~= cells@.take(i as int));
        if cells[i].voltage.is_some() {
            let index: u64 = cells[i].index;
            let mut name = "Cell ".to_owned();
            push_decimal(&mut name, (index + 1) as u128);
            let key = make_cell_key(index);
            add_entity(out, disable(make_measurement(name.as_str(), key.as_str(), Some("voltage"), "V")));
        }
        i += 1;
    }
    assert(cells@.take(i as int) =~= cells@);
}

/// Appends the sensors of the cells.
fn add_cell_sensors(out: &mut Vec<Entity>, s: &BatteryStatus)
    requires
        forall|i: int| 0 <= i < s.cells@.len() ==> #[trigger] s.cells@[i].index < u64::MAX,
    ensures
        entity_views(final(out)@) == with_cell_sensors(entity_views(old(out)@), *s),
{
    proof {
        lemma_lists_grow(entity_views(out@));
    }
    if s.cells.len() > 0 {
        add_measurement(out, s.cell_min.is_some(), "Cell min", "cell_min", Some("voltage"), "V");
        add_measurement(out, s.cell_max.is_some(), "Cell max", "cell_max", Some("voltage"), "V");
        add_measurement(out, s.cell_delta.is_some(), "Cell delta", "cell_delta", Some("voltage"), "V");
        add_each_cell(out, &s.cells);
    }
}

/// Appends the alarm entities.
fn add_alarm_sensors(out: &mut Vec<Entity>)
    ensures
        entity_views(final(out)@) == with_alarm_sensors(entity_views(old(out)@)),
{
    add_entity(out, make_binary("Alarm", "alarm_active", Some("problem")));
    add_entity(out, make_sensor("Alarms", "alarms", None, None, None));
}

/// Appends the charge and discharge entities.
fn add_mosfets(out: &mut Vec<Entity>, root: &str, caps: Capabilities, s: &BatteryStatus)
    ensures
        entity_views(final(out)@) == with_mosfets(entity_views(old(out)@), root@, caps, *s),
{
    if s.charging.is_some() {
        add_entity(
            out,
            make_toggle(root, caps.toggle_charge, "Charging", "charging", "charging", Some("battery_charging")),
        );
    }
    if s.discharging.is_some() {
        add_entity(
            out,
            make_toggle(root, caps.toggle_discharge, "Discharging", "discharging", "discharging", None),
        );
    }
}

/// Appends an entity for each free-form switch.
fn add_switch_entities(out: &mut Vec<Entity>, root: &str, caps: Capabilities, switches: &Vec<SwitchState>)
    ensures
        entity_views(final(out)@) == with_switch_entities(entity_views(old(out)@), root@, caps, switches@),
{
    let ghost before = entity_views(out@);
    let mut i: usize = 0;
    while i < switches.len()
        invariant
            i <= switches.len(),
            entity_views(out@) == with_switch_entities(before, root@, caps, switches@.take(i as int)),
        decreases switches.len() - i,
    {
        assert(switches@.take(i + 1).drop_last() =~= switches@.take(i as int));
        let w = &switches[i];
        let key = slug_key("sw_", w.id.as_str());
        let name = take_label(&w.label, w.id.as_str());
        add_entity(
            out,
            make_toggle(root, caps.controllable, name.as_str(), key.as_str(), w.id.as_str(), None),
        );
        i += 1;
    }
    assert(switches@.take(i as int) =~= switches@);
}

/// Appends the entities of each port.
fn add_port_entities(out: &mut Vec<Entity>, root: &str, caps: Capabilities, ports: &Vec<PortState>)
    ensures
        entity_views(final(out)@) == with_port_entities(entity_views(old(out)@), root@, caps, ports@),
{
    let ghost before = entity_views(out@);
    let mut i: usize = 0;
    while i < ports.len()
        invariant
            i <= ports.len(),
            entity_views(out@) == with_port_entities(before, root@, caps, ports@.take(i as int)),
        decreases ports.len() - i,
    {
        assert(ports@.take(i + 1).drop_last() =~= ports@.take(i as int));
        let p = &ports[i];
        let key = slug_key("port_", p.id.as_str());
        let name = take_label(&p.label, p.id.as_str());
        if p.on.is_some() {
            add_entity(
                out,
                make_toggle(root, caps.toggle_ports, name.as_str(), key.as_str(), p.id.as_str(), Some("power")),
            );
        }
        add_measurement(
            out,
            p.watts.is_some(),
            name.concat(" power").as_str(),
            key.concat("_w").as_str(),
            Some("power"),
            "W",
        );
        i += 1;
    }
    assert(ports@.take(i as int) =~= ports@);
}

/// Makes a JSON string, or `null`.
fn make_text_or_null(v: &Option<String>) -> (r: serde_json::Value)
    ensures
        content(r) == text_or_null(*v),
{
    match v {
        Some(s) => string(s.as_str()),
        None => null(),
    }
}

/// Describes the device that the entities belong to.
fn make_device(slug: &str, label: &str, info: &DeviceInfo) -> (r: serde_json::Value)
    ensures
        content(r) == device_json(slug@, label@, *info),
{
    let mut identifiers: Vec<serde_json::Value> = Vec::new();
    identifiers.push(string("bc_".to_owned().concat(slug).as_str()));
    assert(contents(identifiers@) =~= seq![Json::Text("bc_"@ + slug@)]);
    let mut m = no_members();
    put(&mut m, "identifiers", array(identifiers));
    put_text(&mut m, "name", label);
    put_text(&mut m, "manufacturer", info.backend.as_str());
    put(&mut m, "model", make_text_or_null(&info.model));
    put(&mut m, "serial_number", make_text_or_null(&info.serial));
    put(&mut m, "sw_version", make_text_or_null(&info.firmware));
    object(m)
}

/// Makes one item of the list of availability topics.
fn make_topic(topic: &str) -> (r: serde_json::Value)
    ensures
        content(r) == topic_json(topic@),
{
    let mut m = no_members();
    put_text(&mut m, "topic", topic);
    object(m)
}

/// Lists the availability topics of a device.
fn make_availability(base: &str, root: &str) -> (r: serde_json::Value)
    ensures
        content(r) == Json::Array(
            seq![topic_json(bridge_topic(base@)), topic_json(availability_topic(root@))],
        ),
{
    let mut topics: Vec<serde_json::Value> = Vec::new();
    topics.push(make_topic(bridge_availability_topic(base).as_str()));
    topics.push(make_topic(root.to_owned().concat("/availability").as_str()));
    assert(contents(topics@) =~= seq![
        topic_json(bridge_topic(base@)),
        topic_json(availability_topic(root@)),
    ]);
    array(topics)
}

/// Builds all discovery configs of one device, from its capabilities and a first status
/// snapshot. What the snapshot does not report gets no entity.
pub fn discovery_configs(
    prefix: &str,
    base: &str,
    slug: &str,
    label: &str,
    info: &DeviceInfo,
    caps: Capabilities,
    s: &BatteryStatus,
) -> (r: Vec<(String, serde_json::Value)>)
    requires
        forall|i: int| 0 <= i < s.cells@.len() ==> #[trigger] s.cells@[i].index < u64::MAX,
    ensures
        config_views(r@) == configs(
            (Target { prefix: prefix@, base: base@, slug: slug@, label: label@, info: *info }),
            caps,
            *s,
        ),
        ({
            let want = configs(
                Target { prefix: prefix@, base: base@, slug: slug@, label: label@, info: *info },
                caps,
                *s,
            );
            r@.len() == want.len() && forall|i: int|
                0 <= i < r@.len() ==> (#[trigger] r@[i]).0@ == want[i].0 && content(r@[i].1) == want[i].1
        }),
{
    let ghost t = Target { prefix: prefix@, base: base@, slug: slug@, label: label@, info: *info };
    let root = make_root(base, slug);
    let device = make_device(slug, label, info);
    let availability = make_availability(base, root.as_str());

    let mut es: Vec<Entity> = Vec::new();
    assert(entity_views(es@) =~= Seq::empty());
    add_device_sensors(&mut es, s);
    add_probe_sensors(&mut es, &s.temperatures);
    add_cell_sensors(&mut es, s);
    add_alarm_sensors(&mut es);
    add_mosfets(&mut es, root.as_str(), caps, s);
    add_switch_entities(&mut es, root.as_str(), caps, &s.switches);
    add_port_entities(&mut es, root.as_str(), caps, &s.ports);
    if caps.set_charge_limit {
        add_entity(&mut es, make_charge_limit(root.as_str()));
    }
    let ghost all = es@;
    assert(entity_views(all) == entities(t.root(), caps, *s));

    let mut out: Vec<(String, serde_json::Value)> = Vec::new();
    for e in it: es
        invariant
            it.seq() == all,
            t == (Target { prefix: prefix@, base: base@, slug: slug@, label: label@, info: *info }),
            root@ == t.root(),
            content(device) == device_json(t.slug, t.label, t.info),
            content(availability) == availability_json(t),
            config_views(out@) == entity_views(all.take(it.index() as int)).map_values(
                |e: EntityView| entity_config(t, e),
            ),
    {
        let ghost view = e@;
        let ghost before = out@;
        let key = e.key.as_str();
        let topic = prefix.to_owned().concat("/").concat(e.component).concat("/bc_").concat(slug)
            .concat("/").concat(key).concat("/config");
        let mut m = e.config;
        put_text(&mut m, "unique_id", "bc_".to_owned().concat(slug).concat("_").concat(key).as_str());
        put_text(&mut m, "object_id", slug.to_owned().concat("_").concat(key).as_str());
        put_text(&mut m, "state_topic", root.as_str().to_owned().concat("/state").as_str());
        put(&mut m, "availability", duplicate(&availability));
        put_text(&mut m, "availability_mode", "all");
        put(&mut m, "device", duplicate(&device));
        assert(members(m) == complete(t, view));
        out.push((topic, object(m)));
        assert(config_views(out@) =~= config_views(before).push(entity_config(t, view)));
        assert(all.take(it.index() + 1) =~= all.take(it.index() as int).push(all[it.index() as int]));
        assert(entity_views(all.take(it.index() + 1)).map_values(|e: EntityView| entity_config(t, e))
            =~= entity_views(all.take(it.index() as int)).map_values(
            |e: EntityView| entity_config(t, e),
        ).push(entity_config(t, view)));
    }
    assert(all.take(all.len() as int) =~= all);
    assert forall|i: int| 0 <= i < out@.len() implies (#[trigger] out@[i]).0@ == configs(t, caps, *s)[i].0 && content(
        out@[i].1,
    ) == configs(t, caps, *s)[i].1 by {
        assert(config_views(out@)[i] == (out@[i].0@, content(out@[i].1)));
    }
    out
}

} // verus!
