//! The session driver: reads past the self-test preamble, then repeatedly
//! skips blank separators, tracks phase transitions, frames one block for
//! the current phase, interprets it, and either appends the record or hands
//! the failed block to recovery and resynchronizes. The run ends normally
//! when the stream is exhausted with no block in flight.

use vstd::prelude::*;

use crate::errors::ParseError;
use crate::framer::{blank_end, chunk_of, lemma_blank_end, lemma_resync_end, resync_end};
use crate::interpret::{line_views, spec_interpret};
use crate::phase::{marker_state, packet_len, state_change, tvac_wf, PayloadState, Tvac,
    SELF_TEST_LINES};
use crate::records::SensorData;

verus! {

/// A failed block kept for persistence: its run-scoped zero-based sequence
/// number and its verbatim lines.
#[derive(Debug, PartialEq, Eq)]
pub struct FailedBlock {
    pub index: usize,
    pub lines: Vec<String>,
}

/// What one parse run yields: the records of the successfully interpreted
/// blocks in stream order, and the failed blocks in order of failure.
#[derive(Debug, PartialEq, Eq)]
pub struct SessionOutcome {
    pub records: Vec<SensorData>,
    pub failed: Vec<FailedBlock>,
}

/// The records and failed blocks a run produces from position `i` on, in the
/// given phase: skip blanks; stop at exhaustion; consume a marker line and
/// change phase if one stands first; frame the phase's block (skipping
/// blanks); interpret it; keep the record or keep the failed block and
/// resynchronize past the next blank line.
pub open spec fn spec_run_from(lines: Seq<Seq<char>>, i: int, st: PayloadState) -> (Seq<
    SensorData,
>, Seq<Seq<Seq<char>>>)
    decreases lines.len() - i,
        via spec_run_from_decreases
{
    let i1 = blank_end(lines, i);
    if i1 >= lines.len() {
        (Seq::empty(), Seq::empty())
    } else {
        let st2 = match marker_state(lines[i1]) {
            Some(m) => m,
            None => st,
        };
        let j = match marker_state(lines[i1]) {
            Some(m) => i1 + 1,
            None => i1,
        };
        let j1 = blank_end(lines, j);
        let n = packet_len(st2) as int;
        if j1 + n > lines.len() {
            (Seq::empty(), Seq::empty())
        } else {
            let block = lines.subrange(j1, j1 + n);
            match spec_interpret(st2, block) {
                Ok(rec) => {
                    let rest = spec_run_from(lines, j1 + n, st2);
                    (seq![rec] + rest.0, rest.1)
                },
                Err(_) => {
                    let rest = spec_run_from(lines, resync_end(lines, j1 + n), st2);
                    (rest.0, seq![block] + rest.1)
                },
            }
        }
    }
}

#[via_fn]
proof fn spec_run_from_decreases(lines: Seq<Seq<char>>, i: int, st: PayloadState) {
    if 0 <= i && i <= lines.len() {
        lemma_blank_end(lines, i);
    }
    let i1 = blank_end(lines, i);
    if i1 < lines.len() {
        let j = match marker_state(lines[i1]) {
            Some(m) => i1 + 1,
            None => i1,
        };
        if 0 <= j && j <= lines.len() {
            lemma_blank_end(lines, j);
        }
        let j1 = blank_end(lines, j);
        let st2 = match marker_state(lines[i1]) {
            Some(m) => m,
            None => st,
        };
        let m = j1 + packet_len(st2) as int;
        if 0 <= m && m <= lines.len() {
            lemma_resync_end(lines, m);
        }
    }
}

/// The verbatim line blocks of a sequence of failed-block artifacts.
pub open spec fn failed_views(fs: Seq<FailedBlock>) -> Seq<Seq<Seq<char>>> {
    Seq::new(fs.len(), |k: int| line_views(fs[k].lines@))
}

/// Runs one whole parse session over the lines of a log. The fixed-length
/// self-test preamble is discarded unparsed; a log shorter than the preamble
/// is the one fatal condition. The failed blocks carry contiguous sequence
/// numbers starting at 0, in order of failure.
pub fn run_session(lines: &Vec<String>) -> (r: Result<SessionOutcome, ParseError>)
    ensures
        lines@.len() < SELF_TEST_LINES ==> r == Err::<SessionOutcome, ParseError>(
            ParseError::HeaderUnreadable,
        ),
        lines@.len() >= SELF_TEST_LINES ==> (r matches Ok(out) && {
            let outcome = spec_run_from(
                line_views(lines@),
                SELF_TEST_LINES as int,
                PayloadState::PayloadOff,
            );
            &&& out.records@ == outcome.0
            &&& failed_views(out.failed@) == outcome.1
            &&& forall|k: int|
                0 <= k < out.failed@.len() ==> (#[trigger] out.failed@[k]).index == k
        }),
{
    if lines.len() < SELF_TEST_LINES {
        return Err(ParseError::HeaderUnreadable);
    }
    let ghost ll = line_views(lines@);
    let ghost total = spec_run_from(ll, SELF_TEST_LINES as int, PayloadState::PayloadOff);
    let len = lines.len();
    let mut i: usize = SELF_TEST_LINES;
    let mut tvac = Tvac::for_state(PayloadState::PayloadOff);
    let mut records: Vec<SensorData> = Vec::new();
    let mut failed: Vec<FailedBlock> = Vec::new();
    proof {
        assert(records@ =~= Seq::<SensorData>::empty());
        assert(failed_views(failed@) =~= Seq::<Seq<Seq<char>>>::empty());
        assert(total.0 =~= records@ + spec_run_from(ll, i as int, tvac.state).0);
        assert(total.1 =~= failed_views(failed@) + spec_run_from(ll, i as int, tvac.state).1);
    }
    loop
        invariant
            len == lines@.len(),
            SELF_TEST_LINES <= i <= len,
            ll == line_views(lines@),
            tvac_wf(tvac),
            total == spec_run_from(ll, SELF_TEST_LINES as int, PayloadState::PayloadOff),
            total.0 == records@ + spec_run_from(ll, i as int, tvac.state).0,
            total.1 == failed_views(failed@) + spec_run_from(ll, i as int, tvac.state).1,
            forall|k: int| 0 <= k < failed@.len() ==> (#[trigger] failed@[k]).index == k,
        ensures
            spec_run_from(ll, i as int, tvac.state).0 =~= Seq::<SensorData>::empty(),
            spec_run_from(ll, i as int, tvac.state).1 =~= Seq::<Seq<Seq<char>>>::empty(),
        decreases len - i,
    {
        let ghost i0 = i as int;
        let ghost st0 = tvac.state;
        // Skip the run of blank separator lines before the next block.
        while i < len && lines[i].as_str().is_empty()
            invariant
                len == lines@.len(),
                i0 <= i <= len,
                ll == line_views(lines@),
                blank_end(ll, i0) == blank_end(ll, i as int),
            decreases len - i,
        {
            i = i + 1;
        }
        proof {
            assert(blank_end(ll, i as int) == i);
            // Restarting at the first non-blank position changes nothing.
            assert(spec_run_from(ll, i0, st0) == spec_run_from(ll, i as int, st0));
        }
        if i >= len {
            break;
        }
        // A marker line announces a phase change and is consumed.
        let ghost i1 = i as int;
        let mut j = i;
        match state_change(lines[i].as_str()) {
            Some(t) => {
                tvac = t;
                j = i + 1;
            },
            None => {},
        }
        proof {
            // The phase the block is framed under is the same whether the
            // run is replayed from the old or the updated phase.
            assert(spec_run_from(ll, i1, st0) == spec_run_from(ll, i1, tvac.state));
        }
        // Frame one block for the current phase.
        match chunk_of(lines, j, tvac.packet_size) {
            Err(_) => {
                break;
            },
            Ok((block, next)) => {
                proof {
                    lemma_blank_end(ll, j as int);
                }
                let ghost j1 = blank_end(ll, j as int);
                let ghost rest = spec_run_from(ll, next as int, tvac.state);
                match tvac.interpret_packet(&block) {
                    Ok(rec) => {
                        let ghost pre = records@;
                        records.push(rec);
                        proof {
                            assert(records@ =~= pre + seq![rec]);
                            assert(pre + (seq![rec] + rest.0) =~= (pre + seq![rec]) + rest.0);
                        }
                        i = next;
                    },
                    Err(_) => {
                        let ghost prev = failed@;
                        failed.push(FailedBlock { index: failed.len(), lines: block });
                        proof {
                            assert(failed_views(failed@) =~= failed_views(prev) + seq![
                                ll.subrange(j1, j1 + tvac.packet_size),
                            ]);
                            assert(failed_views(prev) + (seq![
                                ll.subrange(j1, j1 + tvac.packet_size),
                            ] + rest.1) =~= failed_views(failed@) + rest.1);
                        }
                        // Resynchronize: discard lines up to and including
                        // the next blank line or the end of the stream.
                        let mut m = next;
                        while m < len && !lines[m].as_str().is_empty()
                            invariant
                                len == lines@.len(),
                                next <= m <= len,
                                ll == line_views(lines@),
                                resync_end(ll, next as int) == resync_end(ll, m as int),
                            decreases len - m,
                        {
                            m = m + 1;
                        }
                        if m < len {
                            m = m + 1;
                        }
                        proof {
                            assert(m == resync_end(ll, next as int));
                        }
                        i = m;
                    },
                }
            },
        }
    }
    proof {
        assert(total.0 =~= records@);
        assert(total.1 =~= failed_views(failed@));
    }
    Ok(SessionOutcome { records, failed })
}

} // verus!
