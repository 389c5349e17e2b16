use tvac_log::errors::ParseError;
use tvac_log::interpret::{
    interpret_deployment_packet, interpret_emission_packet, interpret_payload_off_packet,
};
use tvac_log::phase::{PayloadState, Tvac};
use tvac_log::records::{SensorData, Temperatures, Time};

fn lines(v: &[&str]) -> Vec<String> {
    v.iter().map(|s| s.to_string()).collect()
}

fn temp_lines(base: i32) -> Vec<String> {
    lines(&[
        &format!("LMS Emitter: {}", base),
        &format!("LMS Receiver: {}", base + 1),
        &format!("MSP: {}", base + 2),
        &format!("Heater temp: {}", base + 3),
        &format!("HVDC temp: {}", base + 4),
        &format!("Tether monitoring: {}", base + 5),
        &format!("Tether connector: {}", base + 6),
        &format!("MSP 3V3 supply: {}", base + 7),
    ])
}

fn payload_off_block() -> Vec<String> {
    let mut b = lines(&["Total time: 120", "Phase time: 5"]);
    b.extend(temp_lines(22));
    b.push("Self check: pass".to_string());
    b
}

#[test]
fn payload_off_block_parses_to_exact_record() {
    // An 11-line payload-off block: times 120 and 5, temperatures 22..=29.
    let b = payload_off_block();
    let d = interpret_payload_off_packet(&b).unwrap();
    assert_eq!(
        d,
        SensorData {
            time: Time { total_time: 120, phase_time: 5 },
            temperatures: Temperatures {
                lms_emit: 22,
                lms_rec: 23,
                msp: 24,
                heater: 25,
                hvdc: 26,
                tether_monitoring: 27,
                tether_connector: 28,
                msp_3v3_supply: 29,
            },
            state: PayloadState::PayloadOff,
            pinpuller: None,
            tether: None,
        }
    );
}

#[test]
fn payload_off_block_with_negative_temperature() {
    let mut b = lines(&["Total time: 7200", "Phase time: 3600"]);
    b.extend(temp_lines(-45));
    b.push("filler".to_string());
    let d = interpret_payload_off_packet(&b).unwrap();
    assert_eq!(d.temperatures.lms_emit, -45);
    assert_eq!(d.temperatures.msp_3v3_supply, -38);
}

fn deployment_block(current_line: &str) -> Vec<String> {
    let mut b = lines(&["Total time: 200", "Phase time: 30"]);
    b.push(current_line.to_string());
    b.push("[ OK ] Measured output accuracy: 4%".to_string());
    b.extend(temp_lines(10));
    b.push("filler".to_string());
    b
}

#[test]
fn deployment_block_parses_pinpuller() {
    let b = deployment_block("[ OK ] Measured output current: 150mA");
    let d = interpret_deployment_packet(&b).unwrap();
    assert_eq!(d.state, PayloadState::Deployment);
    assert_eq!(d.time, Time { total_time: 200, phase_time: 30 });
    let p = d.pinpuller.unwrap();
    assert_eq!(p.current, 150);
    assert_eq!(p.acc, 4);
    assert_eq!(d.tether, None);
    assert_eq!(d.temperatures.lms_emit, 10);
    assert_eq!(d.temperatures.msp_3v3_supply, 17);
}

#[test]
fn deployment_block_wrong_unit_fails() {
    // The same line with suffix `150A` is a unit mismatch and fails the block.
    let b = deployment_block("[ OK ] Measured output current: 150A");
    assert_eq!(interpret_deployment_packet(&b), Err(ParseError::UnitMismatch));
}

#[test]
fn deployment_block_missing_token_fails() {
    let b = deployment_block("[ OK ] short");
    assert_eq!(interpret_deployment_packet(&b), Err(ParseError::FieldMissing));
}

fn emission_block() -> Vec<String> {
    let mut b = lines(&[
        "Total time: 300",                           // 0
        "Phase time: 60",                            // 1
        "[ OK ] Measured output voltage: 1001mV",    // 2
        "[ OK ] Measured output current: 2002uA",    // 3
        "filler", "filler", "filler",                // 4-6
        "[ OK ] Measured voltage accuracy: 3%",      // 7
        "[ OK ] Measured current accuracy: 4%",      // 8
        "[ OK ] Measured output voltage: -1003mV",   // 9
        "[ OK ] Measured output current: 2004uA",    // 10
        "filler", "filler", "filler",                // 11-13
        "[ OK ] Measured voltage accuracy: 5%",      // 14
        "[ OK ] Measured current accuracy: 6%",      // 15
        "[ OK ] Measured output voltage: 1005mV",    // 16
        "[ OK ] Measured output current: 7mA",       // 17
        "filler", "filler",                          // 18-19
        "[ OK ] Voltage accuracy: 8%",               // 20
        "[ OK ] Current accuracy: 9%",               // 21
        "[ OK ] Measured output voltage: 1010mV",    // 22
        "filler",                                    // 23
        "[ OK ] Voltage accuracy: 11%",              // 24
    ]);
    b.extend(temp_lines(30));                        // 25-32
    b
}

#[test]
fn emission_block_parses_all_supplies() {
    let b = emission_block();
    assert_eq!(b.len(), 33);
    let d = interpret_emission_packet(&b).unwrap();
    assert_eq!(d.state, PayloadState::Emission);
    assert_eq!(d.time, Time { total_time: 300, phase_time: 60 });
    assert_eq!(d.pinpuller, None);
    let ts = d.tether.unwrap();
    assert_eq!(ts.cathode_offset.voltage, 1001);
    assert_eq!(ts.cathode_offset.current, 2002);
    assert_eq!(ts.cathode_offset.v_acc, 3);
    assert_eq!(ts.cathode_offset.c_acc, 4);
    assert_eq!(ts.tether_bias.voltage, -1003);
    assert_eq!(ts.tether_bias.current, 2004);
    assert_eq!(ts.tether_bias.v_acc, 5);
    assert_eq!(ts.tether_bias.c_acc, 6);
    assert_eq!(ts.heater.voltage, 1005);
    assert_eq!(ts.heater.current, 7);
    assert_eq!(ts.heater.v_acc, 8);
    assert_eq!(ts.heater.c_acc, 9);
    assert_eq!(ts.repeller.voltage, 1010);
    assert_eq!(ts.repeller.v_acc, 11);
    assert_eq!(d.temperatures.lms_emit, 30);
    assert_eq!(d.temperatures.msp_3v3_supply, 37);
}

#[test]
fn emission_block_bad_supply_line_fails() {
    let mut b = emission_block();
    b[17] = "[ OK ] Measured output current: 7uA".to_string();
    assert_eq!(interpret_emission_packet(&b), Err(ParseError::UnitMismatch));
}

#[test]
fn blank_line_in_field_set_fails_block() {
    // A blank line standing at a field position can never supply a field.
    let mut b = payload_off_block();
    b[4] = String::new();
    assert_eq!(interpret_payload_off_packet(&b), Err(ParseError::FieldMissing));
}

#[test]
fn interpret_packet_dispatches_by_phase() {
    let t = Tvac::for_state(PayloadState::PayloadOff);
    let d = t.interpret_packet(&payload_off_block()).unwrap();
    assert_eq!(d.state, PayloadState::PayloadOff);
    assert_eq!(d.time.total_time, 120);
}

#[test]
fn interpret_packet_wrong_length_is_exhaustion() {
    // A block shorter than the phase requires yields StreamExhausted.
    let t = Tvac::for_state(PayloadState::Emission);
    let b = payload_off_block();
    assert_eq!(t.interpret_packet(&b), Err(ParseError::StreamExhausted));
    let t = Tvac::for_state(PayloadState::PayloadOff);
    assert_eq!(t.interpret_packet(&lines(&["a", "b"])), Err(ParseError::StreamExhausted));
}
