//! Record interpreters: one pure mapper per phase from a fixed-length block
//! of lines to a typed sample record, with a fixed positional field layout.

use vstd::prelude::*;
use vstd::slice::{slice_index_get, slice_subrange};

use crate::errors::ParseError;
use crate::extract::{
    extract_measurement_from_nth_word, extract_nth_word_as_number, measurement_of, num_of_word,
};
use crate::phase::{
    packet_len, PayloadState, Tvac, DEPLOYMENT_LINES, EMISSION_LINES, PAYLOAD_OFF_LINES,
};
use crate::records::{
    CathodeOffsetSupply, HeaterSupply, Pinpuller, Repeller, SensorData, Temperatures,
    TetherBiasSupply, TetherSensors, Time,
};

verus! {

/// The views of a sequence of line strings.
pub open spec fn line_views(lines: Seq<String>) -> Seq<Seq<char>> {
    Seq::new(lines.len(), |i: int| lines[i]@)
}

/// What the two time lines of a block yield: the total run time from word 2
/// of the first and the phase-relative time from word 2 of the second, both
/// non-negative.
pub open spec fn time_of(l0: Seq<char>, l1: Seq<char>) -> Result<Time, ParseError> {
    match num_of_word(l0, 2, 0, 4294967295) {
        Err(e) => Err(e),
        Ok(tt) => match num_of_word(l1, 2, 0, 4294967295) {
            Err(e) => Err(e),
            Ok(pt) => Ok(Time { total_time: tt as u32, phase_time: pt as u32 }),
        },
    }
}

/// The word index holding the reading in each of the eight temperature
/// lines; it differs with the length of the line's label.
pub open spec fn temp_word_index(k: int) -> int {
    if k == 2 {
        1
    } else if k == 7 {
        3
    } else {
        2
    }
}

/// What the eight temperature lines of a block yield, in their fixed order;
/// the first extraction failure is the one reported.
pub open spec fn temps_of(ls: Seq<Seq<char>>) -> Result<Temperatures, ParseError> {
    match num_of_word(ls[0], 2, -32768, 32767) {
        Err(e) => Err(e),
        Ok(lms_emit) => match num_of_word(ls[1], 2, -32768, 32767) {
            Err(e) => Err(e),
            Ok(lms_rec) => match num_of_word(ls[2], 1, -32768, 32767) {
                Err(e) => Err(e),
                Ok(msp) => match num_of_word(ls[3], 2, -32768, 32767) {
                    Err(e) => Err(e),
                    Ok(heater) => match num_of_word(ls[4], 2, -32768, 32767) {
                        Err(e) => Err(e),
                        Ok(hvdc) => match num_of_word(ls[5], 2, -32768, 32767) {
                            Err(e) => Err(e),
                            Ok(tether_monitoring) => match num_of_word(ls[6], 2, -32768, 32767) {
                                Err(e) => Err(e),
                                Ok(tether_connector) => match num_of_word(
                                    ls[7],
                                    3,
                                    -32768,
                                    32767,
                                ) {
                                    Err(e) => Err(e),
                                    Ok(msp_3v3_supply) => Ok(
                                        Temperatures {
                                            lms_emit: lms_emit as i16,
                                            lms_rec: lms_rec as i16,
                                            msp: msp as i16,
                                            heater: heater as i16,
                                            hvdc: hvdc as i16,
                                            tether_monitoring: tether_monitoring as i16,
                                            tether_connector: tether_connector as i16,
                                            msp_3v3_supply: msp_3v3_supply as i16,
                                        },
                                    ),
                                },
                            },
                        },
                    },
                },
            },
        },
    }
}

/// What the two pinpuller lines of a deployment block yield: the measured
/// output current in mA and its accuracy percentage.
pub open spec fn pinpuller_of(l2: Seq<char>, l3: Seq<char>) -> Result<Pinpuller, ParseError> {
    match measurement_of(l2, 3, "mA"@, 0, 65535) {
        Err(e) => Err(e),
        Ok(current) => match measurement_of(l3, 3, "%"@, -2147483648, 2147483647) {
            Err(e) => Err(e),
            Ok(acc) => Ok(Pinpuller { current: current as u16, acc: acc as i32 }),
        },
    }
}

/// What the four lines of one supply sub-record yield: voltage in mV from
/// word 3, current in the unit `cur_unit` from word 3, and the two accuracy
/// percentages from word `acc_word`.
pub open spec fn supply_of(
    lv: Seq<char>,
    lc: Seq<char>,
    lva: Seq<char>,
    lca: Seq<char>,
    cur_unit: Seq<char>,
    acc_word: int,
) -> Result<(int, int, int, int), ParseError> {
    match measurement_of(lv, 3, "mV"@, -2147483648, 2147483647) {
        Err(e) => Err(e),
        Ok(voltage) => match measurement_of(lc, 3, cur_unit, -2147483648, 2147483647) {
            Err(e) => Err(e),
            Ok(current) => match measurement_of(lva, acc_word, "%"@, -2147483648, 2147483647) {
                Err(e) => Err(e),
                Ok(v_acc) => match measurement_of(lca, acc_word, "%"@, -2147483648, 2147483647) {
                    Err(e) => Err(e),
                    Ok(c_acc) => Ok((voltage, current, v_acc, c_acc)),
                },
            },
        },
    }
}

/// What the two repeller lines of an emission block yield: voltage in mV
/// from word 3 and its accuracy percentage from word 2.
pub open spec fn repeller_of(lv: Seq<char>, lva: Seq<char>) -> Result<Repeller, ParseError> {
    match measurement_of(lv, 3, "mV"@, -2147483648, 2147483647) {
        Err(e) => Err(e),
        Ok(voltage) => match measurement_of(lva, 2, "%"@, -2147483648, 2147483647) {
            Err(e) => Err(e),
            Ok(v_acc) => Ok(Repeller { voltage: voltage as i32, v_acc: v_acc as i32 }),
        },
    }
}

/// What an 11-line payload-off block yields: lines 0-1 the times, lines 2-9
/// the temperature block.
#[verifier::opaque]
pub open spec fn payload_off_record_of(b: Seq<Seq<char>>) -> Result<SensorData, ParseError> {
    match time_of(b[0], b[1]) {
        Err(e) => Err(e),
        Ok(time) => match temps_of(b.subrange(2, 10)) {
            Err(e) => Err(e),
            Ok(temperatures) => Ok(
                SensorData {
                    time,
                    temperatures,
                    state: PayloadState::PayloadOff,
                    pinpuller: None,
                    tether: None,
                },
            ),
        },
    }
}

/// What a 13-line deployment block yields: lines 0-1 the times, lines 2-3
/// the pinpuller readings, lines 4-11 the temperature block.
#[verifier::opaque]
pub open spec fn deployment_record_of(b: Seq<Seq<char>>) -> Result<SensorData, ParseError> {
    match time_of(b[0], b[1]) {
        Err(e) => Err(e),
        Ok(time) => match pinpuller_of(b[2], b[3]) {
            Err(e) => Err(e),
            Ok(pinpuller) => match temps_of(b.subrange(4, 12)) {
                Err(e) => Err(e),
                Ok(temperatures) => Ok(
                    SensorData {
                        time,
                        temperatures,
                        state: PayloadState::Deployment,
                        pinpuller: Some(pinpuller),
                        tether: None,
                    },
                ),
            },
        },
    }
}

/// What a 33-line emission block yields: lines 0-1 the times, lines 2-3 and
/// 7-8 the cathode-offset supply, lines 9-10 and 14-15 the tether-bias
/// supply, lines 16-17 and 20-21 the heater supply, lines 22 and 24 the
/// repeller, lines 25-32 the temperature block.
#[verifier::opaque]
pub open spec fn emission_record_of(b: Seq<Seq<char>>) -> Result<SensorData, ParseError> {
    match time_of(b[0], b[1]) {
        Err(e) => Err(e),
        Ok(time) => match supply_of(b[2], b[3], b[7], b[8], "uA"@, 3) {
            Err(e) => Err(e),
            Ok(co) => match supply_of(b[9], b[10], b[14], b[15], "uA"@, 3) {
                Err(e) => Err(e),
                Ok(tb) => match supply_of(b[16], b[17], b[20], b[21], "mA"@, 2) {
                    Err(e) => Err(e),
                    Ok(ht) => match repeller_of(b[22], b[24]) {
                        Err(e) => Err(e),
                        Ok(repeller) => match temps_of(b.subrange(25, 33)) {
                            Err(e) => Err(e),
                            Ok(temperatures) => Ok(
                                SensorData {
                                    time,
                                    temperatures,
                                    state: PayloadState::Emission,
                                    pinpuller: None,
                                    tether: Some(
                                        TetherSensors {
                                            cathode_offset: CathodeOffsetSupply {
                                                voltage: co.0 as i32,
                                                current: co.1 as i32,
                                                v_acc: co.2 as i32,
                                                c_acc: co.3 as i32,
                                            },
                                            tether_bias: TetherBiasSupply {
                                                voltage: tb.0 as i32,
                                                current: tb.1 as i32,
                                                v_acc: tb.2 as i32,
                                                c_acc: tb.3 as i32,
                                            },
                                            heater: HeaterSupply {
                                                voltage: ht.0 as i32,
                                                current: ht.1 as i32,
                                                v_acc: ht.2 as i32,
                                                c_acc: ht.3 as i32,
                                            },
                                            repeller,
                                        },
                                    ),
                                },
                            ),
                        },
                    },
                },
            },
        },
    }
}

/// What interpreting a block under a phase yields: the phase's record when
/// the block has the phase's exact length and every field extracts, the
/// first extraction error otherwise, and `StreamExhausted` when the length
/// is not the phase's own.
pub open spec fn spec_interpret(st: PayloadState, b: Seq<Seq<char>>) -> Result<
    SensorData,
    ParseError,
> {
    if b.len() != packet_len(st) {
        Err(ParseError::StreamExhausted)
    } else {
        match st {
            PayloadState::PayloadOff => payload_off_record_of(b),
            PayloadState::Deployment => deployment_record_of(b),
            PayloadState::Emission => emission_record_of(b),
        }
    }
}

/// Extracts the two elapsed-time readings from the first two lines of a
/// block.
pub fn extract_time(slice: &[String]) -> (r: Result<Time, ParseError>)
    requires
        slice@.len() == 2,
    ensures
        r == time_of(slice@[0]@, slice@[1]@),
{
    let tt = match extract_nth_word_as_number(slice_index_get(slice, 0).as_str(), 2, 0, 4294967295) {
        Ok(v) => v,
        Err(e) => return Err(e),
    };
    let pt = match extract_nth_word_as_number(slice_index_get(slice, 1).as_str(), 2, 0, 4294967295) {
        Ok(v) => v,
        Err(e) => return Err(e),
    };
    Ok(Time { total_time: tt as u32, phase_time: pt as u32 })
}

/// Extracts the eight temperature readings from a block's temperature lines.
pub fn extract_temperatures(slice: &[String]) -> (r: Result<Temperatures, ParseError>)
    requires
        slice@.len() == 8,
    ensures
        r == temps_of(line_views(slice@)),
{
    let lms_emit = match extract_nth_word_as_number(
        slice_index_get(slice, 0).as_str(),
        2,
        -32768,
        32767,
    ) {
        Ok(v) => v,
        Err(e) => return Err(e),
    };
    let lms_rec = match extract_nth_word_as_number(
        slice_index_get(slice, 1).as_str(),
        2,
        -32768,
        32767,
    ) {
        Ok(v) => v,
        Err(e) => return Err(e),
    };
    let msp = match extract_nth_word_as_number(
        slice_index_get(slice, 2).as_str(),
        1,
        -32768,
        32767,
    ) {
        Ok(v) => v,
        Err(e) => return Err(e),
    };
    let heater = match extract_nth_word_as_number(
        slice_index_get(slice, 3).as_str(),
        2,
        -32768,
        32767,
    ) {
        Ok(v) => v,
        Err(e) => return Err(e),
    };
    let hvdc = match extract_nth_word_as_number(
        slice_index_get(slice, 4).as_str(),
        2,
        -32768,
        32767,
    ) {
        Ok(v) => v,
        Err(e) => return Err(e),
    };
    let tether_monitoring = match extract_nth_word_as_number(
        slice_index_get(slice, 5).as_str(),
        2,
        -32768,
        32767,
    ) {
        Ok(v) => v,
        Err(e) => return Err(e),
    };
    let tether_connector = match extract_nth_word_as_number(
        slice_index_get(slice, 6).as_str(),
        2,
        -32768,
        32767,
    ) {
        Ok(v) => v,
        Err(e) => return Err(e),
    };
    let msp_3v3_supply = match extract_nth_word_as_number(
        slice_index_get(slice, 7).as_str(),
        3,
        -32768,
        32767,
    ) {
        Ok(v) => v,
        Err(e) => return Err(e),
    };
    Ok(
        Temperatures {
            lms_emit: lms_emit as i16,
            lms_rec: lms_rec as i16,
            msp: msp as i16,
            heater: heater as i16,
            hvdc: hvdc as i16,
            tether_monitoring: tether_monitoring as i16,
            tether_connector: tether_connector as i16,
            msp_3v3_supply: msp_3v3_supply as i16,
        },
    )
}

/// Extracts one supply sub-record's voltage, current and two accuracies from
/// its four lines.
fn extract_supply(
    lv: &str,
    lc: &str,
    lva: &str,
    lca: &str,
    cur_unit: &str,
    acc_word: usize,
) -> (r: Result<(i32, i32, i32, i32), ParseError>)
    ensures
        match supply_of(lv@, lc@, lva@, lca@, cur_unit@, acc_word as int) {
            Ok(q) => r == Ok::<(i32, i32, i32, i32), ParseError>(
                (q.0 as i32, q.1 as i32, q.2 as i32, q.3 as i32),
            ),
            Err(e) => r == Err::<(i32, i32, i32, i32), ParseError>(e),
        },
{
    let voltage = match extract_measurement_from_nth_word(lv, 3, "mV", -2147483648, 2147483647) {
        Ok(v) => v,
        Err(e) => return Err(e),
    };
    let current = match extract_measurement_from_nth_word(lc, 3, cur_unit, -2147483648, 2147483647) {
        Ok(v) => v,
        Err(e) => return Err(e),
    };
    let v_acc = match extract_measurement_from_nth_word(lva, acc_word, "%", -2147483648, 2147483647) {
        Ok(v) => v,
        Err(e) => return Err(e),
    };
    let c_acc = match extract_measurement_from_nth_word(lca, acc_word, "%", -2147483648, 2147483647) {
        Ok(v) => v,
        Err(e) => return Err(e),
    };
    Ok((voltage as i32, current as i32, v_acc as i32, c_acc as i32))
}

/// Interprets an 11-line payload-off block.
pub fn interpret_payload_off_packet(arr: &Vec<String>) -> (r: Result<SensorData, ParseError>)
    requires
        arr@.len() == PAYLOAD_OFF_LINES,
    ensures
        r == payload_off_record_of(line_views(arr@)),
{
    proof {
        reveal(payload_off_record_of);
    }
    let time = match extract_time(slice_subrange(arr.as_slice(), 0, 2)) {
        Ok(t) => t,
        Err(e) => return Err(e),
    };
    let temperatures = match extract_temperatures(slice_subrange(arr.as_slice(), 2, 10)) {
        Ok(t) => t,
        Err(e) => {
            proof {
                assert(line_views(arr@.subrange(2, 10)) =~= line_views(arr@).subrange(2, 10));
            }
            return Err(e);
        },
    };
    proof {
        assert(line_views(arr@.subrange(2, 10)) =~= line_views(arr@).subrange(2, 10));
    }
    Ok(
        SensorData {
            time,
            temperatures,
            state: PayloadState::PayloadOff,
            pinpuller: None,
            tether: None,
        },
    )
}

/// Interprets a 13-line deployment block.
pub fn interpret_deployment_packet(arr: &Vec<String>) -> (r: Result<SensorData, ParseError>)
    requires
        arr@.len() == DEPLOYMENT_LINES,
    ensures
        r == deployment_record_of(line_views(arr@)),
{
    proof {
        reveal(deployment_record_of);
    }
    let time = match extract_time(slice_subrange(arr.as_slice(), 0, 2)) {
        Ok(t) => t,
        Err(e) => return Err(e),
    };
    let current = match extract_measurement_from_nth_word(arr[2].as_str(), 3, "mA", 0, 65535) {
        Ok(v) => v,
        Err(e) => return Err(e),
    };
    let acc = match extract_measurement_from_nth_word(
        arr[3].as_str(),
        3,
        "%",
        -2147483648,
        2147483647,
    ) {
        Ok(v) => v,
        Err(e) => return Err(e),
    };
    let temperatures = match extract_temperatures(slice_subrange(arr.as_slice(), 4, 12)) {
        Ok(t) => t,
        Err(e) => {
            proof {
                assert(line_views(arr@.subrange(4, 12)) =~= line_views(arr@).subrange(4, 12));
            }
            return Err(e);
        },
    };
    proof {
        assert(line_views(arr@.subrange(4, 12)) =~= line_views(arr@).subrange(4, 12));
    }
    Ok(
        SensorData {
            time,
            temperatures,
            state: PayloadState::Deployment,
            pinpuller: Some(Pinpuller { current: current as u16, acc: acc as i32 }),
            tether: None,
        },
    )
}

/// Interprets a 33-line emission block.
pub fn interpret_emission_packet(arr: &Vec<String>) -> (r: Result<SensorData, ParseError>)
    requires
        arr@.len() == EMISSION_LINES,
    ensures
        r == emission_record_of(line_views(arr@)),
{
    proof {
        reveal(emission_record_of);
    }
    let time = match extract_time(slice_subrange(arr.as_slice(), 0, 2)) {
        Ok(t) => t,
        Err(e) => return Err(e),
    };
    let co = match extract_supply(
        arr[2].as_str(),
        arr[3].as_str(),
        arr[7].as_str(),
        arr[8].as_str(),
        "uA",
        3,
    ) {
        Ok(q) => q,
        Err(e) => return Err(e),
    };
    let tb = match extract_supply(
        arr[9].as_str(),
        arr[10].as_str(),
        arr[14].as_str(),
        arr[15].as_str(),
        "uA",
        3,
    ) {
        Ok(q) => q,
        Err(e) => return Err(e),
    };
    let ht = match extract_supply(
        arr[16].as_str(),
        arr[17].as_str(),
        arr[20].as_str(),
        arr[21].as_str(),
        "mA",
        2,
    ) {
        Ok(q) => q,
        Err(e) => return Err(e),
    };
    let rep_voltage = match extract_measurement_from_nth_word(
        arr[22].as_str(),
        3,
        "mV",
        -2147483648,
        2147483647,
    ) {
        Ok(v) => v,
        Err(e) => return Err(e),
    };
    let rep_v_acc = match extract_measurement_from_nth_word(
        arr[24].as_str(),
        2,
        "%",
        -2147483648,
        2147483647,
    ) {
        Ok(v) => v,
        Err(e) => return Err(e),
    };
    let temperatures = match extract_temperatures(slice_subrange(arr.as_slice(), 25, 33)) {
        Ok(t) => t,
        Err(e) => {
            proof {
                assert(line_views(arr@.subrange(25, 33)) =~= line_views(arr@).subrange(25, 33));
            }
            return Err(e);
        },
    };
    proof {
        assert(line_views(arr@.subrange(25, 33)) =~= line_views(arr@).subrange(25, 33));
    }
    Ok(
        SensorData {
            time,
            temperatures,
            state: PayloadState::Emission,
            pinpuller: None,
            tether: Some(
                TetherSensors {
                    cathode_offset: CathodeOffsetSupply {
                        voltage: co.0,
                        current: co.1,
                        v_acc: co.2,
                        c_acc: co.3,
                    },
                    tether_bias: TetherBiasSupply {
                        voltage: tb.0,
                        current: tb.1,
                        v_acc: tb.2,
                        c_acc: tb.3,
                    },
                    heater: HeaterSupply {
                        voltage: ht.0,
                        current: ht.1,
                        v_acc: ht.2,
                        c_acc: ht.3,
                    },
                    repeller: Repeller { voltage: rep_voltage as i32, v_acc: rep_v_acc as i32 },
                },
            ),
        },
    )
}

impl Tvac {
    /// Interprets a framed block under this phase: validates the length and
    /// dispatches to the phase's interpreter.
    pub fn interpret_packet(&self, vec: &Vec<String>) -> (r: Result<SensorData, ParseError>)
        ensures
            r == spec_interpret(self.state, line_views(vec@)),
    {
        match self.state {
            PayloadState::PayloadOff => {
                if vec.len() == PAYLOAD_OFF_LINES {
                    interpret_payload_off_packet(vec)
                } else {
                    Err(ParseError::StreamExhausted)
                }
            },
            PayloadState::Deployment => {
                if vec.len() == DEPLOYMENT_LINES {
                    interpret_deployment_packet(vec)
                } else {
                    Err(ParseError::StreamExhausted)
                }
            },
            PayloadState::Emission => {
                if vec.len() == EMISSION_LINES {
                    interpret_emission_packet(vec)
                } else {
                    Err(ParseError::StreamExhausted)
                }
            },
        }
    }
}

} // verus!
