//! The typed sample records a parsed block yields.

use vstd::prelude::*;

use crate::phase::PayloadState;

verus! {

/// Elapsed time of a sample: seconds since the run began and seconds since
/// the current phase began.
#[derive(Clone, Copy, Debug, PartialEq, Eq, Structural)]
pub struct Time {
    pub total_time: u32,
    pub phase_time: u32,
}

/// The eight named temperature readings shared by every phase, in °C.
#[derive(Clone, Copy, Debug, PartialEq, Eq, Structural)]
pub struct Temperatures {
    pub lms_emit: i16,
    pub lms_rec: i16,
    pub msp: i16,
    pub heater: i16,
    pub hvdc: i16,
    pub tether_monitoring: i16,
    pub tether_connector: i16,
    pub msp_3v3_supply: i16,
}

/// Pinpuller readings of a deployment sample: current in mA and the reported
/// accuracy percentage.
#[derive(Clone, Copy, Debug, PartialEq, Eq, Structural)]
pub struct Pinpuller {
    pub current: u16,
    pub acc: i32,
}

/// Cathode-offset supply readings: voltage in mV, current in µA, and the two
/// accuracy percentages.
#[derive(Clone, Copy, Debug, PartialEq, Eq, Structural)]
pub struct CathodeOffsetSupply {
    pub voltage: i32,
    pub current: i32,
    pub v_acc: i32,
    pub c_acc: i32,
}

/// Tether-bias supply readings: voltage in mV, current in µA, and the two
/// accuracy percentages.
#[derive(Clone, Copy, Debug, PartialEq, Eq, Structural)]
pub struct TetherBiasSupply {
    pub voltage: i32,
    pub current: i32,
    pub v_acc: i32,
    pub c_acc: i32,
}

/// Heater supply readings: voltage in mV, current in mA, and the two
/// accuracy percentages.
#[derive(Clone, Copy, Debug, PartialEq, Eq, Structural)]
pub struct HeaterSupply {
    pub voltage: i32,
    pub current: i32,
    pub v_acc: i32,
    pub c_acc: i32,
}

/// Repeller readings: voltage in mV and its accuracy percentage.
#[derive(Clone, Copy, Debug, PartialEq, Eq, Structural)]
pub struct Repeller {
    pub voltage: i32,
    pub v_acc: i32,
}

/// The four supply sub-records an emission sample adds.
#[derive(Clone, Copy, Debug, PartialEq, Eq, Structural)]
pub struct TetherSensors {
    pub cathode_offset: CathodeOffsetSupply,
    pub tether_bias: TetherBiasSupply,
    pub heater: HeaterSupply,
    pub repeller: Repeller,
}

/// One fully formed sample record. The variant data matches the phase active
/// when the block was framed: `pinpuller` is present exactly in deployment
/// samples and `tether` exactly in emission samples.
#[derive(Clone, Copy, Debug, PartialEq, Eq)]
pub struct SensorData {
    pub time: Time,
    pub temperatures: Temperatures,
    pub state: PayloadState,
    pub pinpuller: Option<Pinpuller>,
    pub tether: Option<TetherSensors>,
}

/// A record's optional parts are present exactly where its phase calls for
/// them.
pub open spec fn record_wf(d: SensorData) -> bool {
    &&& (d.pinpuller is Some <==> d.state == PayloadState::Deployment)
    &&& (d.tether is Some <==> d.state == PayloadState::Emission)
}

} // verus!
