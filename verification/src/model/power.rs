//! Energy sources.
use vstd::prelude::*;
use super::common::{MeasuredValue, RangeValue};

verus! {

#[derive(Debug, Clone, PartialEq, Default)]
pub struct PowerSource {
    pub name: Option<String>,
    pub role: Option<String>,
    pub group: Option<String>,
    pub visual: Option<String>,
    pub mesh: Option<String>,
    pub battery: Option<BatterySource>,
    pub tank: Option<TankSource>,
    pub fuel_cell: Option<FuelCell>,
    pub solar: Option<SolarSource>,
    pub supercapacitor: Option<SupercapacitorSource>,
}

/// `<battery>`: rechargeable battery energy source: cell config, chemistry, capacity, discharge
/// limits. Cell-count/chemistry text leaves are `String`; physical-quantity leaves are
/// [`MeasuredValue`].
#[derive(Debug, Clone, PartialEq, Default)]
pub struct BatterySource {
    pub chemistry: Option<String>,
    pub cells_series: Option<String>,
    pub cells_parallel: Option<String>,
    pub nominal_voltage: Option<MeasuredValue>,
    pub capacity: Option<MeasuredValue>,
    pub energy: Option<MeasuredValue>,
    pub max_discharge: Option<MeasuredValue>,
    pub min_voltage: Option<MeasuredValue>,
    pub max_voltage: Option<MeasuredValue>,
    pub max_charge_rate: Option<MeasuredValue>,
    pub charge_protocol: Option<String>,
    pub cycle_life: Option<String>,
}

#[derive(Debug, Clone, PartialEq, Default)]
pub struct TankSource {
    pub fuel: Option<String>,
    pub volume: Option<MeasuredValue>,
    pub pressure: Option<MeasuredValue>,
    pub energy: Option<MeasuredValue>,
    pub flow: Option<FlowCharacterization>,
}

#[derive(Debug, Clone, PartialEq, Default)]
pub struct FlowCharacterization {
    pub method: Option<String>,
    pub outlet_pressure: Option<RangeValue>,
    pub max_flow_rate: Option<MeasuredValue>,
    pub peak_flow_rate: Option<MeasuredValue>,
    pub regulator: Option<String>,
}

#[derive(Debug, Clone, PartialEq, Default)]
pub struct FuelCell {
    pub type_: Option<String>,
    pub fuel: Option<String>,
    pub rated_power: Option<MeasuredValue>,
    pub peak_power: Option<MeasuredValue>,
    pub efficiency: Option<String>,
    pub output_voltage: Option<RangeValue>,
}

#[derive(Debug, Clone, PartialEq, Default)]
pub struct SolarSource {
    pub cell_type: Option<String>,
    pub peak_power: Option<MeasuredValue>,
    pub area: Option<MeasuredValue>,
    pub efficiency: Option<String>,
    pub voltage_mpp: Option<MeasuredValue>,
    pub current_mpp: Option<MeasuredValue>,
    pub open_circuit_voltage: Option<MeasuredValue>,
    pub mppt: Option<String>,
}

#[derive(Debug, Clone, PartialEq, Default)]
pub struct SupercapacitorSource {
    pub capacitance: Option<MeasuredValue>,
    pub max_voltage: Option<MeasuredValue>,
    pub esr: Option<MeasuredValue>,
    pub max_current: Option<MeasuredValue>,
    pub peak_current: Option<MeasuredValue>,
    pub energy: Option<MeasuredValue>,
    pub cells_series: Option<String>,
    pub cycle_life: Option<String>,
}

} // verus!
