//! The general properties of the parser, stated and proved once for all
//! inputs: valid blocks interpret to records carrying exactly the embedded
//! payloads, any failing field extraction fails its whole block, and blank
//! lines can never stand in a block's field set.

use vstd::prelude::*;

use crate::errors::ParseError;
use crate::extract::{measurement_of, num_of_word, words_of};
use crate::interpret::{
    deployment_record_of, emission_record_of, payload_off_record_of, spec_interpret, supply_of,
    temp_word_index, temps_of, time_of,
};
use crate::framer::{blank_end, lemma_blank_end, lemma_resync_end, resync_end};
use crate::phase::{
    marker_state, packet_len, PayloadState, DEPLOYMENT_LINES, EMISSION_LINES, PAYLOAD_OFF_LINES,
};
use crate::records::{record_wf, Temperatures};
use crate::session::spec_run_from;

verus! {

/// The record's eight temperature fields carry exactly the eight extracted
/// values, in their fixed order.
pub open spec fn temps_match(t: Temperatures, temps: Seq<int>) -> bool {
    &&& t.lms_emit as int == temps[0]
    &&& t.lms_rec as int == temps[1]
    &&& t.msp as int == temps[2]
    &&& t.heater as int == temps[3]
    &&& t.hvdc as int == temps[4]
    &&& t.tether_monitoring as int == temps[5]
    &&& t.tether_connector as int == temps[6]
    &&& t.msp_3v3_supply as int == temps[7]
}

/// The block lengths of the three phases are exactly 11, 13 and 33 lines.
pub proof fn lemma_packet_lengths()
    ensures
        packet_len(PayloadState::PayloadOff) == 11,
        packet_len(PayloadState::Deployment) == 13,
        packet_len(PayloadState::Emission) == 33,
{
}

/// A block shorter (or longer) than the active phase requires yields
/// `StreamExhausted` and no record.
pub proof fn lemma_wrong_length_yields_exhaustion(st: PayloadState, b: Seq<Seq<char>>)
    requires
        b.len() != packet_len(st),
    ensures
        spec_interpret(st, b) == Err::<crate::records::SensorData, ParseError>(
            ParseError::StreamExhausted,
        ),
{
}

/// A valid payload-off block interprets to a record whose every numeric
/// field equals the payload embedded in the corresponding input line.
pub proof fn lemma_payload_off_interpretation(b: Seq<Seq<char>>, tt: int, pt: int, temps: Seq<int>)
    requires
        b.len() == PAYLOAD_OFF_LINES,
        num_of_word(b[0], 2, 0, 4294967295) == Ok::<int, ParseError>(tt),
        num_of_word(b[1], 2, 0, 4294967295) == Ok::<int, ParseError>(pt),
        temps.len() == 8,
        num_of_word(b[2], 2, -32768, 32767) == Ok::<int, ParseError>(temps[0]),
        num_of_word(b[3], 2, -32768, 32767) == Ok::<int, ParseError>(temps[1]),
        num_of_word(b[4], 1, -32768, 32767) == Ok::<int, ParseError>(temps[2]),
        num_of_word(b[5], 2, -32768, 32767) == Ok::<int, ParseError>(temps[3]),
        num_of_word(b[6], 2, -32768, 32767) == Ok::<int, ParseError>(temps[4]),
        num_of_word(b[7], 2, -32768, 32767) == Ok::<int, ParseError>(temps[5]),
        num_of_word(b[8], 2, -32768, 32767) == Ok::<int, ParseError>(temps[6]),
        num_of_word(b[9], 3, -32768, 32767) == Ok::<int, ParseError>(temps[7]),
    ensures
        spec_interpret(PayloadState::PayloadOff, b) matches Ok(d) && {
            &&& d.state == PayloadState::PayloadOff
            &&& d.time.total_time as int == tt
            &&& d.time.phase_time as int == pt
            &&& temps_match(d.temperatures, temps)
            &&& d.pinpuller is None
            &&& d.tether is None
        },
{
    reveal(payload_off_record_of);
    let ls = b.subrange(2, 10);
    assert(ls[0] == b[2]);
    assert(ls[1] == b[3]);
    assert(ls[2] == b[4]);
    assert(ls[3] == b[5]);
    assert(ls[4] == b[6]);
    assert(ls[5] == b[7]);
    assert(ls[6] == b[8]);
    assert(ls[7] == b[9]);
}

/// A valid deployment block interprets to a record whose every numeric
/// field, the pinpuller readings included, equals the payload embedded in
/// the corresponding input line.
pub proof fn lemma_deployment_interpretation(
    b: Seq<Seq<char>>,
    tt: int,
    pt: int,
    cur: int,
    acc: int,
    temps: Seq<int>,
)
    requires
        b.len() == DEPLOYMENT_LINES,
        num_of_word(b[0], 2, 0, 4294967295) == Ok::<int, ParseError>(tt),
        num_of_word(b[1], 2, 0, 4294967295) == Ok::<int, ParseError>(pt),
        measurement_of(b[2], 3, "mA"@, 0, 65535) == Ok::<int, ParseError>(cur),
        measurement_of(b[3], 3, "%"@, -2147483648, 2147483647) == Ok::<int, ParseError>(acc),
        temps.len() == 8,
        num_of_word(b[4], 2, -32768, 32767) == Ok::<int, ParseError>(temps[0]),
        num_of_word(b[5], 2, -32768, 32767) == Ok::<int, ParseError>(temps[1]),
        num_of_word(b[6], 1, -32768, 32767) == Ok::<int, ParseError>(temps[2]),
        num_of_word(b[7], 2, -32768, 32767) == Ok::<int, ParseError>(temps[3]),
        num_of_word(b[8], 2, -32768, 32767) == Ok::<int, ParseError>(temps[4]),
        num_of_word(b[9], 2, -32768, 32767) == Ok::<int, ParseError>(temps[5]),
        num_of_word(b[10], 2, -32768, 32767) == Ok::<int, ParseError>(temps[6]),
        num_of_word(b[11], 3, -32768, 32767) == Ok::<int, ParseError>(temps[7]),
    ensures
        spec_interpret(PayloadState::Deployment, b) matches Ok(d) && {
            &&& d.state == PayloadState::Deployment
            &&& d.time.total_time as int == tt
            &&& d.time.phase_time as int == pt
            &&& (d.pinpuller matches Some(p) && p.current as int == cur && p.acc as int == acc)
            &&& temps_match(d.temperatures, temps)
            &&& d.tether is None
        },
{
    reveal(deployment_record_of);
    let ls = b.subrange(4, 12);
    assert(ls[0] == b[4]);
    assert(ls[1] == b[5]);
    assert(ls[2] == b[6]);
    assert(ls[3] == b[7]);
    assert(ls[4] == b[8]);
    assert(ls[5] == b[9]);
    assert(ls[6] == b[10]);
    assert(ls[7] == b[11]);
}

/// A valid emission block interprets to a record whose every numeric field,
/// the four supply sub-records included, equals the payload embedded in the
/// corresponding input line. The supply values are given as
/// (voltage, current, voltage accuracy, current accuracy) quadruples and the
/// repeller as a (voltage, voltage accuracy) pair.
pub proof fn lemma_emission_interpretation(
    b: Seq<Seq<char>>,
    tt: int,
    pt: int,
    co: (int, int, int, int),
    tb: (int, int, int, int),
    ht: (int, int, int, int),
    rep: (int, int),
    temps: Seq<int>,
)
    requires
        b.len() == EMISSION_LINES,
        num_of_word(b[0], 2, 0, 4294967295) == Ok::<int, ParseError>(tt),
        num_of_word(b[1], 2, 0, 4294967295) == Ok::<int, ParseError>(pt),
        measurement_of(b[2], 3, "mV"@, -2147483648, 2147483647) == Ok::<int, ParseError>(co.0),
        measurement_of(b[3], 3, "uA"@, -2147483648, 2147483647) == Ok::<int, ParseError>(co.1),
        measurement_of(b[7], 3, "%"@, -2147483648, 2147483647) == Ok::<int, ParseError>(co.2),
        measurement_of(b[8], 3, "%"@, -2147483648, 2147483647) == Ok::<int, ParseError>(co.3),
        measurement_of(b[9], 3, "mV"@, -2147483648, 2147483647) == Ok::<int, ParseError>(tb.0),
        measurement_of(b[10], 3, "uA"@, -2147483648, 2147483647) == Ok::<int, ParseError>(tb.1),
        measurement_of(b[14], 3, "%"@, -2147483648, 2147483647) == Ok::<int, ParseError>(tb.2),
        measurement_of(b[15], 3, "%"@, -2147483648, 2147483647) == Ok::<int, ParseError>(tb.3),
        measurement_of(b[16], 3, "mV"@, -2147483648, 2147483647) == Ok::<int, ParseError>(ht.0),
        measurement_of(b[17], 3, "mA"@, -2147483648, 2147483647) == Ok::<int, ParseError>(ht.1),
        measurement_of(b[20], 2, "%"@, -2147483648, 2147483647) == Ok::<int, ParseError>(ht.2),
        measurement_of(b[21], 2, "%"@, -2147483648, 2147483647) == Ok::<int, ParseError>(ht.3),
        measurement_of(b[22], 3, "mV"@, -2147483648, 2147483647) == Ok::<int, ParseError>(rep.0),
        measurement_of(b[24], 2, "%"@, -2147483648, 2147483647) == Ok::<int, ParseError>(rep.1),
        temps.len() == 8,
        num_of_word(b[25], 2, -32768, 32767) == Ok::<int, ParseError>(temps[0]),
        num_of_word(b[26], 2, -32768, 32767) == Ok::<int, ParseError>(temps[1]),
        num_of_word(b[27], 1, -32768, 32767) == Ok::<int, ParseError>(temps[2]),
        num_of_word(b[28], 2, -32768, 32767) == Ok::<int, ParseError>(temps[3]),
        num_of_word(b[29], 2, -32768, 32767) == Ok::<int, ParseError>(temps[4]),
        num_of_word(b[30], 2, -32768, 32767) == Ok::<int, ParseError>(temps[5]),
        num_of_word(b[31], 2, -32768, 32767) == Ok::<int, ParseError>(temps[6]),
        num_of_word(b[32], 3, -32768, 32767) == Ok::<int, ParseError>(temps[7]),
    ensures
        spec_interpret(PayloadState::Emission, b) matches Ok(d) && {
            &&& d.state == PayloadState::Emission
            &&& d.time.total_time as int == tt
            &&& d.time.phase_time as int == pt
            &&& (d.tether matches Some(ts) && {
                &&& ts.cathode_offset.voltage as int == co.0
                &&& ts.cathode_offset.current as int == co.1
                &&& ts.cathode_offset.v_acc as int == co.2
                &&& ts.cathode_offset.c_acc as int == co.3
                &&& ts.tether_bias.voltage as int == tb.0
                &&& ts.tether_bias.current as int == tb.1
                &&& ts.tether_bias.v_acc as int == tb.2
                &&& ts.tether_bias.c_acc as int == tb.3
                &&& ts.heater.voltage as int == ht.0
                &&& ts.heater.current as int == ht.1
                &&& ts.heater.v_acc as int == ht.2
                &&& ts.heater.c_acc as int == ht.3
                &&& ts.repeller.voltage as int == rep.0
                &&& ts.repeller.v_acc as int == rep.1
            })
            &&& temps_match(d.temperatures, temps)
            &&& d.pinpuller is None
        },
{
    reveal(emission_record_of);
    let ls = b.subrange(25, 33);
    assert(ls[0] == b[25]);
    assert(ls[1] == b[26]);
    assert(ls[2] == b[27]);
    assert(ls[3] == b[28]);
    assert(ls[4] == b[29]);
    assert(ls[5] == b[30]);
    assert(ls[6] == b[31]);
    assert(ls[7] == b[32]);
}

/// The one field extraction a given line of a block is subject to under a
/// given phase, or nothing for the lines no field is read from.
pub open spec fn line_extraction(st: PayloadState, b: Seq<Seq<char>>, k: int) -> Option<
    Result<int, ParseError>,
> {
    match st {
        PayloadState::PayloadOff => {
            if k == 0 || k == 1 {
                Some(num_of_word(b[k], 2, 0, 4294967295))
            } else if 2 <= k < 10 {
                Some(num_of_word(b[k], temp_word_index(k - 2), -32768, 32767))
            } else {
                None
            }
        },
        PayloadState::Deployment => {
            if k == 0 || k == 1 {
                Some(num_of_word(b[k], 2, 0, 4294967295))
            } else if k == 2 {
                Some(measurement_of(b[2], 3, "mA"@, 0, 65535))
            } else if k == 3 {
                Some(measurement_of(b[3], 3, "%"@, -2147483648, 2147483647))
            } else if 4 <= k < 12 {
                Some(num_of_word(b[k], temp_word_index(k - 4), -32768, 32767))
            } else {
                None
            }
        },
        PayloadState::Emission => {
            if k == 0 || k == 1 {
                Some(num_of_word(b[k], 2, 0, 4294967295))
            } else if k == 2 || k == 9 || k == 16 || k == 22 {
                Some(measurement_of(b[k], 3, "mV"@, -2147483648, 2147483647))
            } else if k == 3 || k == 10 {
                Some(measurement_of(b[k], 3, "uA"@, -2147483648, 2147483647))
            } else if k == 17 {
                Some(measurement_of(b[17], 3, "mA"@, -2147483648, 2147483647))
            } else if k == 7 || k == 8 || k == 14 || k == 15 {
                Some(measurement_of(b[k], 3, "%"@, -2147483648, 2147483647))
            } else if k == 20 || k == 21 || k == 24 {
                Some(measurement_of(b[k], 2, "%"@, -2147483648, 2147483647))
            } else if 25 <= k < 33 {
                Some(num_of_word(b[k], temp_word_index(k - 25), -32768, 32767))
            } else {
                None
            }
        },
    }
}

proof fn lemma_time_err(l0: Seq<char>, l1: Seq<char>)
    requires
        num_of_word(l0, 2, 0, 4294967295) is Err || num_of_word(l1, 2, 0, 4294967295) is Err,
    ensures
        time_of(l0, l1) is Err,
{
}

proof fn lemma_temps_err(ls: Seq<Seq<char>>, k: int)
    requires
        0 <= k < 8,
        num_of_word(ls[k], temp_word_index(k), -32768, 32767) is Err,
    ensures
        temps_of(ls) is Err,
{
}

proof fn lemma_supply_err(
    lv: Seq<char>,
    lc: Seq<char>,
    lva: Seq<char>,
    lca: Seq<char>,
    cur_unit: Seq<char>,
    acc_word: int,
)
    requires
        measurement_of(lv, 3, "mV"@, -2147483648, 2147483647) is Err || measurement_of(
            lc,
            3,
            cur_unit,
            -2147483648,
            2147483647,
        ) is Err || measurement_of(lva, acc_word, "%"@, -2147483648, 2147483647) is Err
            || measurement_of(lca, acc_word, "%"@, -2147483648, 2147483647) is Err,
    ensures
        supply_of(lv, lc, lva, lca, cur_unit, acc_word) is Err,
{
}

/// One failing field extraction anywhere in a block fails the whole
/// interpretation: no record, and in particular no partial record, is
/// produced from that block.
pub proof fn lemma_failed_line_fails_block(st: PayloadState, b: Seq<Seq<char>>, k: int)
    requires
        b.len() == packet_len(st),
        line_extraction(st, b, k) matches Some(x) && x is Err,
    ensures
        spec_interpret(st, b) is Err,
{
    match st {
        PayloadState::PayloadOff => {
            reveal(payload_off_record_of);
            if k == 0 || k == 1 {
                lemma_time_err(b[0], b[1]);
            } else {
                let ls = b.subrange(2, 10);
                assert(ls[k - 2] == b[k]);
                lemma_temps_err(ls, k - 2);
            }
        },
        PayloadState::Deployment => {
            reveal(deployment_record_of);
            if k == 0 || k == 1 {
                lemma_time_err(b[0], b[1]);
            } else if k == 2 || k == 3 {
            } else {
                let ls = b.subrange(4, 12);
                assert(ls[k - 4] == b[k]);
                lemma_temps_err(ls, k - 4);
            }
        },
        PayloadState::Emission => {
            reveal(emission_record_of);
            if k == 0 || k == 1 {
                lemma_time_err(b[0], b[1]);
            } else if k == 2 || k == 3 || k == 7 || k == 8 {
                lemma_supply_err(b[2], b[3], b[7], b[8], "uA"@, 3);
            } else if k == 9 || k == 10 || k == 14 || k == 15 {
                lemma_supply_err(b[9], b[10], b[14], b[15], "uA"@, 3);
            } else if k == 16 || k == 17 || k == 20 || k == 21 {
                lemma_supply_err(b[16], b[17], b[20], b[21], "mA"@, 2);
            } else if k == 22 || k == 24 {
            } else {
                let ls = b.subrange(25, 33);
                assert(ls[k - 25] == b[k]);
                lemma_temps_err(ls, k - 25);
            }
        },
    }
}

/// A blank line has no tokens at all.
pub proof fn lemma_blank_line_has_no_words()
    ensures
        words_of(Seq::<char>::empty()) == Seq::<Seq<char>>::empty(),
{
}

/// Every field extraction on a blank line fails with `FieldMissing`: a blank
/// line can never supply a field value.
pub proof fn lemma_blank_line_extraction_fails(n: int, suf: Seq<char>, lo: int, hi: int)
    requires
        n >= 0,
    ensures
        num_of_word(Seq::empty(), n, lo, hi) == Err::<int, ParseError>(ParseError::FieldMissing),
        measurement_of(Seq::empty(), n, suf, lo, hi) == Err::<int, ParseError>(
            ParseError::FieldMissing,
        ),
{
    lemma_blank_line_has_no_words();
}

/// A blank line standing at any field position of a block fails the whole
/// interpretation: blank lines never appear in a parsed block's field set.
pub proof fn lemma_blank_field_line_fails_block(st: PayloadState, b: Seq<Seq<char>>, k: int)
    requires
        b.len() == packet_len(st),
        line_extraction(st, b, k) is Some,
        b[k].len() == 0,
    ensures
        spec_interpret(st, b) is Err,
{
    assert(b[k] =~= Seq::<char>::empty());
    match st {
        PayloadState::PayloadOff => {
            if k == 0 || k == 1 {
                lemma_blank_line_extraction_fails(2, "mV"@, 0, 4294967295);
            } else {
                lemma_blank_line_extraction_fails(temp_word_index(k - 2), "mV"@, -32768, 32767);
            }
        },
        PayloadState::Deployment => {
            if k == 0 || k == 1 {
                lemma_blank_line_extraction_fails(2, "mV"@, 0, 4294967295);
            } else if k == 2 {
                lemma_blank_line_extraction_fails(3, "mA"@, 0, 65535);
            } else if k == 3 {
                lemma_blank_line_extraction_fails(3, "%"@, -2147483648, 2147483647);
            } else {
                lemma_blank_line_extraction_fails(temp_word_index(k - 4), "mV"@, -32768, 32767);
            }
        },
        PayloadState::Emission => {
            if k == 0 || k == 1 {
                lemma_blank_line_extraction_fails(2, "mV"@, 0, 4294967295);
            } else if k == 2 || k == 9 || k == 16 || k == 22 {
                lemma_blank_line_extraction_fails(3, "mV"@, -2147483648, 2147483647);
            } else if k == 3 || k == 10 {
                lemma_blank_line_extraction_fails(3, "uA"@, -2147483648, 2147483647);
            } else if k == 17 {
                lemma_blank_line_extraction_fails(3, "mA"@, -2147483648, 2147483647);
            } else if k == 7 || k == 8 || k == 14 || k == 15 {
                lemma_blank_line_extraction_fails(3, "%"@, -2147483648, 2147483647);
            } else if k == 20 || k == 21 || k == 24 {
                lemma_blank_line_extraction_fails(2, "%"@, -2147483648, 2147483647);
            } else {
                lemma_blank_line_extraction_fails(temp_word_index(k - 25), "mV"@, -32768, 32767);
            }
        },
    }
    lemma_failed_line_fails_block(st, b, k);
}

/// A record exists fully formed or not at all, and its variant tag matches
/// the phase its block was interpreted under.
pub proof fn lemma_record_tag_matches_phase(st: PayloadState, b: Seq<Seq<char>>)
    requires
        spec_interpret(st, b) is Ok,
    ensures
        spec_interpret(st, b) matches Ok(d) && d.state == st && record_wf(d),
{
    reveal(payload_off_record_of);
    reveal(deployment_record_of);
    reveal(emission_record_of);
}

/// Phase changes occur only on an exact marker line: over a stream holding
/// no marker, every record a run produces keeps the phase the run began in.
pub proof fn lemma_phase_stable_without_markers(lines: Seq<Seq<char>>, i: int, st: PayloadState)
    requires
        0 <= i <= lines.len(),
        forall|m: int| 0 <= m < lines.len() ==> marker_state(#[trigger] lines[m]) is None,
    ensures
        forall|k: int|
            0 <= k < spec_run_from(lines, i, st).0.len() ==> (#[trigger] spec_run_from(
                lines,
                i,
                st,
            ).0[k]).state == st,
    decreases lines.len() - i,
{
    lemma_blank_end(lines, i);
    let i1 = blank_end(lines, i);
    if i1 < lines.len() {
        lemma_blank_end(lines, i1);
        let n = packet_len(st) as int;
        if i1 + n <= lines.len() {
            let block = lines.subrange(i1, i1 + n);
            match spec_interpret(st, block) {
                Ok(rec) => {
                    lemma_record_tag_matches_phase(st, block);
                    lemma_phase_stable_without_markers(lines, i1 + n, st);
                    let rest = spec_run_from(lines, i1 + n, st);
                    assert forall|k: int|
                        0 <= k < spec_run_from(lines, i, st).0.len() implies (#[trigger] spec_run_from(
                        lines,
                        i,
                        st,
                    ).0[k]).state == st by {
                        if k > 0 {
                            assert(spec_run_from(lines, i, st).0[k] == rest.0[k - 1]);
                        }
                    }
                },
                Err(e) => {
                    lemma_resync_end(lines, i1 + n);
                    lemma_phase_stable_without_markers(lines, resync_end(lines, i1 + n), st);
                },
            }
        }
    }
}

} // verus!
