//! Packet framing: skipping blank separator lines and pulling the exact
//! number of lines the active phase's block requires.

use vstd::prelude::*;

use crate::errors::ParseError;
use crate::interpret::line_views;

verus! {

/// The first position at or after `i` holding a non-blank line, or the end
/// of the stream. Blank lines are separators, never data.
pub open spec fn blank_end(lines: Seq<Seq<char>>, i: int) -> int
    decreases lines.len() - i,
{
    if i < 0 || i >= lines.len() {
        i
    } else if lines[i].len() != 0 {
        i
    } else {
        blank_end(lines, i + 1)
    }
}

/// Everything skipped by [`blank_end`] is blank, and it stops at the stream
/// end or at the first non-blank line.
pub proof fn lemma_blank_end(lines: Seq<Seq<char>>, i: int)
    requires
        0 <= i <= lines.len(),
    ensures
        i <= blank_end(lines, i) <= lines.len(),
        forall|m: int| i <= m < blank_end(lines, i) ==> lines[m].len() == 0,
        blank_end(lines, i) < lines.len() ==> lines[blank_end(lines, i)].len() != 0,
    decreases lines.len() - i,
{
    if i < lines.len() && lines[i].len() == 0 {
        lemma_blank_end(lines, i + 1);
    }
}

/// The position just past the next blank line at or after `i`, or the end of
/// the stream: where framing resynchronizes after a failed block.
pub open spec fn resync_end(lines: Seq<Seq<char>>, i: int) -> int
    decreases lines.len() - i,
{
    if i < 0 || i >= lines.len() {
        lines.len() as int
    } else if lines[i].len() == 0 {
        i + 1
    } else {
        resync_end(lines, i + 1)
    }
}

/// Resynchronization never moves backwards and never passes the stream end.
pub proof fn lemma_resync_end(lines: Seq<Seq<char>>, i: int)
    requires
        0 <= i <= lines.len(),
    ensures
        i <= resync_end(lines, i) <= lines.len(),
    decreases lines.len() - i,
{
    if i < lines.len() && lines[i].len() != 0 {
        lemma_resync_end(lines, i + 1);
    }
}

/// Frames one block: skips the run of blank separator lines at `start`, then
/// pulls exactly `n` further lines. Fails with `StreamExhausted`, handing
/// nothing back, when fewer than `n` lines remain.
pub fn chunk_of(lines: &Vec<String>, start: usize, n: usize) -> (r: Result<
    (Vec<String>, usize),
    ParseError,
>)
    requires
        start <= lines@.len(),
    ensures
        ({
            let ll = line_views(lines@);
            let b = blank_end(ll, start as int);
            if b + n > ll.len() {
                r == Err::<(Vec<String>, usize), ParseError>(ParseError::StreamExhausted)
            } else {
                r matches Ok(p) && p.0@.len() == n && line_views(p.0@) == ll.subrange(b, b + n)
                    && p.1 == b + n
            }
        }),
{
    let ghost ll = line_views(lines@);
    let len = lines.len();
    let mut i: usize = start;
    while i < len && lines[i].as_str().is_empty()
        invariant
            len == lines@.len(),
            start <= i <= len,
            ll == line_views(lines@),
            blank_end(ll, start as int) == blank_end(ll, i as int),
        decreases len - i,
    {
        i = i + 1;
    }
    proof {
        assert(blank_end(ll, i as int) == i);
    }
    if n > len - i {
        return Err(ParseError::StreamExhausted);
    }
    let mut block: Vec<String> = Vec::new();
    let mut k: usize = 0;
    while k < n
        invariant
            len == lines@.len(),
            i + n <= len,
            k <= n,
            ll == line_views(lines@),
            block@.len() == k,
            forall|m: int| 0 <= m < k ==> #[trigger] block@[m]@ == ll[i + m],
        decreases n - k,
    {
        block.push(lines[i + k].clone());
        k = k + 1;
    }
    proof {
        assert(line_views(block@) =~= ll.subrange(i as int, i + n));
    }
    Ok((block, i + n))
}

} // verus!
