use tvac_log::errors::ParseError;
use tvac_log::framer::chunk_of;
use tvac_log::phase::{PayloadState, SELF_TEST_LINES};
use tvac_log::session::run_session;

fn lines(v: &[&str]) -> Vec<String> {
    v.iter().map(|s| s.to_string()).collect()
}

fn temp_lines(base: i32) -> Vec<String> {
    lines(&[
        &format!("LMS Emitter: {}", base),
        &format!("LMS Receiver: {}", base + 1),
        &format!("MSP: {}", base + 2),
        &format!("Heater temp: {}", base + 3),
        &format!("HVDC temp: {}", base + 4),
        &format!("Tether monitoring: {}", base + 5),
        &format!("Tether connector: {}", base + 6),
        &format!("MSP 3V3 supply: {}", base + 7),
    ])
}

fn payload_off_block(total: u32, phase: u32, base: i32) -> Vec<String> {
    let mut b = lines(&[&format!("Total time: {}", total), &format!("Phase time: {}", phase)]);
    b.extend(temp_lines(base));
    b.push("Self check: pass".to_string());
    b
}

fn deployment_block(current_line: &str) -> Vec<String> {
    let mut b = lines(&["Total time: 200", "Phase time: 30"]);
    b.push(current_line.to_string());
    b.push("[ OK ] Measured output accuracy: 4%".to_string());
    b.extend(temp_lines(10));
    b.push("filler".to_string());
    b
}

fn preamble() -> Vec<String> {
    (0..SELF_TEST_LINES).map(|k| format!("self-test line {}", k)).collect()
}

#[test]
fn short_preamble_is_fatal() {
    let log: Vec<String> = (0..SELF_TEST_LINES - 1).map(|_| "x".to_string()).collect();
    assert_eq!(run_session(&log), Err(ParseError::HeaderUnreadable));
}

#[test]
fn empty_tail_parses_to_nothing() {
    let out = run_session(&preamble()).unwrap();
    assert!(out.records.is_empty());
    assert!(out.failed.is_empty());
}

#[test]
fn single_payload_off_block() {
    let mut log = preamble();
    log.extend(payload_off_block(120, 5, 22));
    let out = run_session(&log).unwrap();
    assert_eq!(out.records.len(), 1);
    assert_eq!(out.failed.len(), 0);
    let d = &out.records[0];
    assert_eq!(d.state, PayloadState::PayloadOff);
    assert_eq!(d.time.total_time, 120);
    assert_eq!(d.time.phase_time, 5);
    assert_eq!(d.temperatures.lms_emit, 22);
}

#[test]
fn marker_changes_phase_for_following_blocks() {
    let mut log = preamble();
    log.extend(payload_off_block(60, 60, 20));
    log.push(String::new());
    log.push("ENTERING PINPULLER ACTIVATION PHASE".to_string());
    log.extend(deployment_block("[ OK ] Measured output current: 150mA"));
    let out = run_session(&log).unwrap();
    assert_eq!(out.records.len(), 2);
    assert_eq!(out.records[0].state, PayloadState::PayloadOff);
    assert_eq!(out.records[1].state, PayloadState::Deployment);
    assert_eq!(out.records[1].pinpuller.unwrap().current, 150);
}

fn emission_block() -> Vec<String> {
    let mut b = lines(&[
        "Total time: 300",
        "Phase time: 60",
        "[ OK ] Measured output voltage: 1001mV",
        "[ OK ] Measured output current: 2002uA",
        "filler",
        "filler",
        "filler",
        "[ OK ] Measured voltage accuracy: 3%",
        "[ OK ] Measured current accuracy: 4%",
        "[ OK ] Measured output voltage: -1003mV",
        "[ OK ] Measured output current: 2004uA",
        "filler",
        "filler",
        "filler",
        "[ OK ] Measured voltage accuracy: 5%",
        "[ OK ] Measured current accuracy: 6%",
        "[ OK ] Measured output voltage: 1005mV",
        "[ OK ] Measured output current: 7mA",
        "filler",
        "filler",
        "[ OK ] Voltage accuracy: 8%",
        "[ OK ] Current accuracy: 9%",
        "[ OK ] Measured output voltage: 1010mV",
        "filler",
        "[ OK ] Voltage accuracy: 11%",
    ]);
    b.extend(temp_lines(30));
    b
}

#[test]
fn marker_then_blank_then_emission_block() {
    // Blank separators may follow the marker; the framer skips them before
    // pulling the 33 lines of the emission block.
    let mut log = preamble();
    log.push("ENTERING EMISSION PHASE".to_string());
    log.push(String::new());
    log.extend(emission_block());
    let out = run_session(&log).unwrap();
    assert_eq!(out.records.len(), 1);
    let d = &out.records[0];
    assert_eq!(d.state, PayloadState::Emission);
    let ts = d.tether.unwrap();
    assert_eq!(ts.cathode_offset.voltage, 1001);
    assert_eq!(ts.repeller.v_acc, 11);
    assert!(d.pinpuller.is_none());
}

#[test]
fn phase_persists_across_blocks() {
    // One marker, then two emission blocks: both keep the emission schema.
    let mut log = preamble();
    log.push("ENTERING EMISSION PHASE".to_string());
    log.extend(emission_block());
    log.push(String::new());
    log.extend(emission_block());
    let out = run_session(&log).unwrap();
    assert_eq!(out.records.len(), 2);
    assert_eq!(out.records[0].state, PayloadState::Emission);
    assert_eq!(out.records[1].state, PayloadState::Emission);
}

#[test]
fn non_marker_line_leaves_phase_unchanged() {
    // A near-marker line is data, not a transition: the phase stays
    // payload-off, the line becomes the block's first line and the block
    // still parses because line 0 is only read for its word 2.
    let mut log = preamble();
    let mut b = payload_off_block(9, 9, 0);
    b[0] = "ENTERING EMISSION: 77".to_string();
    log.extend(b);
    let out = run_session(&log).unwrap();
    assert_eq!(out.records.len(), 1);
    assert_eq!(out.records[0].state, PayloadState::PayloadOff);
    assert_eq!(out.records[0].time.total_time, 77);
}

#[test]
fn blank_lines_between_blocks_are_separators() {
    let mut log = preamble();
    log.push(String::new());
    log.push(String::new());
    log.extend(payload_off_block(1, 1, 5));
    log.push(String::new());
    log.extend(payload_off_block(2, 2, 6));
    log.push(String::new());
    let out = run_session(&log).unwrap();
    assert_eq!(out.records.len(), 2);
    assert_eq!(out.records[0].time.total_time, 1);
    assert_eq!(out.records[1].time.total_time, 2);
    assert!(out.failed.is_empty());
}

#[test]
fn short_tail_yields_no_record() {
    // Fewer lines than a block requires: exhaustion ends the run normally
    // with nothing emitted for the partial block.
    let mut log = preamble();
    log.extend(lines(&["Total time: 1", "Phase time: 1", "LMS Emitter: 2"]));
    let out = run_session(&log).unwrap();
    assert!(out.records.is_empty());
    assert!(out.failed.is_empty());
}

#[test]
fn malformed_block_is_persisted_verbatim_and_parsing_resumes() {
    let mut log = preamble();
    let mut bad = payload_off_block(10, 1, 0);
    bad[3] = "LMS Receiver: oops".to_string();
    log.extend(bad.clone());
    log.push(String::new());
    log.extend(payload_off_block(20, 2, 1));
    let out = run_session(&log).unwrap();
    // The malformed block yields no record and exactly one artifact holding
    // the verbatim original lines; parsing resumes at the next block.
    assert_eq!(out.records.len(), 1);
    assert_eq!(out.records[0].time.total_time, 20);
    assert_eq!(out.failed.len(), 1);
    assert_eq!(out.failed[0].index, 0);
    assert_eq!(out.failed[0].lines, bad);
}

#[test]
fn failed_block_indices_are_contiguous_from_zero() {
    let mut log = preamble();
    let mut bad1 = payload_off_block(10, 1, 0);
    bad1[2] = "LMS Emitter: 99999999".to_string();
    let mut bad2 = payload_off_block(30, 3, 0);
    bad2[9] = "MSP 3V3 supply:".to_string();
    log.extend(bad1.clone());
    log.push(String::new());
    log.extend(payload_off_block(20, 2, 1));
    log.push(String::new());
    log.extend(bad2.clone());
    log.push(String::new());
    log.extend(payload_off_block(40, 4, 2));
    let out = run_session(&log).unwrap();
    assert_eq!(out.records.len(), 2);
    assert_eq!(out.failed.len(), 2);
    assert_eq!(out.failed[0].index, 0);
    assert_eq!(out.failed[1].index, 1);
    assert_eq!(out.failed[0].lines, bad1);
    assert_eq!(out.failed[1].lines, bad2);
}

#[test]
fn chunk_of_skips_blanks_and_frames_exactly() {
    let v = lines(&["", "", "a", "b", "c", "d"]);
    let (block, next) = chunk_of(&v, 0, 3).unwrap();
    assert_eq!(block, lines(&["a", "b", "c"]));
    assert_eq!(next, 5);
}

#[test]
fn chunk_of_exhaustion() {
    let v = lines(&["", "a", "b"]);
    assert_eq!(chunk_of(&v, 0, 3), Err(ParseError::StreamExhausted));
    let empty: Vec<String> = vec![];
    assert_eq!(chunk_of(&empty, 0, 1), Err(ParseError::StreamExhausted));
}
