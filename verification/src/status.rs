//! What a battery reports about itself.

use crate::reading::Reading;
use vstd::prelude::*;

verus! {

/// One temperature probe.
#[derive(Debug)]
pub struct TemperatureProbe {
    pub id: String,
    pub label: Option<String>,
    pub celsius: Reading,
}

/// A free-form switch of the device: heater, balancer, precharge and the like.
#[derive(Debug)]
pub struct SwitchState {
    pub id: String,
    pub label: Option<String>,
    pub on: bool,
}

/// An output port of a power station.
#[derive(Debug)]
pub struct PortState {
    pub id: String,
    pub label: Option<String>,
    pub on: Option<bool>,
    pub watts: Option<Reading>,
}

/// One cell, counted from zero.
#[derive(Debug)]
pub struct CellState {
    pub index: u64,
    pub voltage: Option<Reading>,
}

/// A status snapshot. What the device does not report is absent.
#[derive(Debug)]
pub struct BatteryStatus {
    pub soc: Option<Reading>,
    pub soh: Option<Reading>,
    pub voltage: Option<Reading>,
    pub current: Option<Reading>,
    pub power_in: Option<Reading>,
    pub power_out: Option<Reading>,
    pub time_remaining_h: Option<Reading>,
    pub capacity_remaining_ah: Option<Reading>,
    pub capacity_full_ah: Option<Reading>,
    pub charge_current_limit_a: Option<Reading>,
    pub discharge_current_limit_a: Option<Reading>,
    pub soc_limit_max: Option<Reading>,
    pub soc_limit_min: Option<Reading>,
    /// The temperature that stands for the whole device.
    pub temperature_c: Option<Reading>,
    /// The lowest cell voltage.
    pub cell_min: Option<Reading>,
    /// The highest cell voltage.
    pub cell_max: Option<Reading>,
    /// The spread of the cell voltages.
    pub cell_delta: Option<Reading>,
    pub cycles: Option<u64>,
    pub charging: Option<bool>,
    pub discharging: Option<bool>,
    pub temperatures: Vec<TemperatureProbe>,
    pub switches: Vec<SwitchState>,
    pub ports: Vec<PortState>,
    pub cells: Vec<CellState>,
    pub alarms: Vec<String>,
}

impl BatteryStatus {
    /// Nothing is reported.
    pub open spec fn blank(self) -> bool {
        &&& self.soc is None && self.soh is None && self.voltage is None && self.current is None
        &&& self.power_in is None && self.power_out is None && self.time_remaining_h is None
        &&& self.capacity_remaining_ah is None && self.capacity_full_ah is None
        &&& self.charge_current_limit_a is None && self.discharge_current_limit_a is None
        &&& self.soc_limit_max is None && self.soc_limit_min is None
        &&& self.temperature_c is None && self.cell_min is None && self.cell_max is None
        &&& self.cell_delta is None && self.cycles is None
        &&& self.charging is None && self.discharging is None
        &&& self.temperatures@.len() == 0 && self.switches@.len() == 0 && self.ports@.len() == 0
        &&& self.cells@.len() == 0 && self.alarms@.len() == 0
    }
}

impl Default for BatteryStatus {
    fn default() -> (r: Self)
        ensures
            r.blank(),
            r.soc is None,
            r.soh is None,
            r.voltage is None,
            r.current is None,
            r.power_in is None,
            r.power_out is None,
            r.time_remaining_h is None,
            r.capacity_remaining_ah is None,
            r.capacity_full_ah is None,
            r.charge_current_limit_a is None,
            r.discharge_current_limit_a is None,
            r.soc_limit_max is None,
            r.soc_limit_min is None,
            r.temperature_c is None,
            r.cell_min is None,
            r.cell_max is None,
            r.cell_delta is None,
            r.cycles is None,
            r.charging is None,
            r.discharging is None,
            r.temperatures@.len() == 0,
            r.switches@.len() == 0,
            r.ports@.len() == 0,
            r.cells@.len() == 0,
            r.alarms@.len() == 0,
    {
        BatteryStatus {
            soc: None,
            soh: None,
            voltage: None,
            current: None,
            power_in: None,
            power_out: None,
            time_remaining_h: None,
            capacity_remaining_ah: None,
            capacity_full_ah: None,
            charge_current_limit_a: None,
            discharge_current_limit_a: None,
            soc_limit_max: None,
            soc_limit_min: None,
            temperature_c: None,
            cell_min: None,
            cell_max: None,
            cell_delta: None,
            cycles: None,
            charging: None,
            discharging: None,
            temperatures: Vec::new(),
            switches: Vec::new(),
            ports: Vec::new(),
            cells: Vec::new(),
            alarms: Vec::new(),
        }
    }
}

/// What the device is.
#[derive(Debug)]
pub struct DeviceInfo {
    pub backend: String,
    pub model: Option<String>,
    pub serial: Option<String>,
    pub firmware: Option<String>,
}

impl Default for DeviceInfo {
    fn default() -> (r: Self)
        ensures
            r.backend@.len() == 0,
            r.model is None,
            r.serial is None,
            r.firmware is None,
    {
        DeviceInfo { backend: String::new(), model: None, serial: None, firmware: None }
    }
}

/// What the device lets others control.
#[derive(Clone, Copy, Debug, PartialEq, Eq, Structural)]
pub struct Capabilities {
    pub toggle_charge: bool,
    pub toggle_discharge: bool,
    pub toggle_ports: bool,
    pub set_charge_limit: bool,
    /// Whether anything at all can be controlled.
    pub controllable: bool,
}

impl Capabilities {
    /// A device that can only be read.
    pub fn read_basic() -> (r: Self)
        ensures
            r == (Capabilities {
                toggle_charge: false,
                toggle_discharge: false,
                toggle_ports: false,
                set_charge_limit: false,
                controllable: false,
            }),
    {
        Capabilities {
            toggle_charge: false,
            toggle_discharge: false,
            toggle_ports: false,
            set_charge_limit: false,
            controllable: false,
        }
    }
}

} // verus!
