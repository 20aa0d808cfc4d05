//! The streaming engine: applies a byte-level filter to an input, line by
//! line.
//!
//! A line runs up to and including its `\n`; the last line of an input may
//! lack one. A line ending `\r\n` is normalized to end in a bare `\n` before
//! anything else happens to it. Lines whose verdict is true are written to
//! the sink with their newline; in report mode the sink receives nothing and
//! only the counters are gathered. A line whose bytes are not valid UTF-8 is
//! treated as included (fail-open): it is written all the same, and the run
//! goes on.

use vstd::prelude::*;

use crate::evaluator::SpecPred;
use crate::filter::{spec_verdict, Filter};
use crate::parser::bounded;
use vstd::utf8::valid_utf8;
use vstd::utf8::decode_utf8;

verus! {

/// The counters of one run.
#[derive(Debug, Clone, Copy, PartialEq, Eq, Structural)]
pub struct RunStats {
    /// Lines read from the source.
    pub total: usize,
    /// Lines whose verdict was false: never written.
    pub skipped: usize,
    /// Lines written to the sink (or that would have been outside report
    /// mode), force-included lines counted in.
    pub written: usize,
}

/// The length of the first line of `s`: everything up to and including the
/// first newline byte, or all of `s` when none remains.
pub open spec fn first_line_len(s: Seq<u8>) -> int
    decreases s.len(),
{
    if s.len() == 0 {
        0
    } else if s[0] == 10 {
        1
    } else {
        1 + first_line_len(s.skip(1))
    }
}

/// The input split as the engine reads it: each element one line, every byte
/// of the input kept.
pub open spec fn spec_lines(s: Seq<u8>) -> Seq<Seq<u8>>
    decreases s.len(),
{
    if s.len() == 0 {
        Seq::<Seq<u8>>::empty()
    } else {
        let n = bounded(first_line_len(s), 1, s.len() as int);
        seq![s.take(n)] + spec_lines(s.skip(n))
    }
}

/// CRLF normalization: a line ending `\r\n` keeps only the `\n`.
pub open spec fn normalize_crlf(line: Seq<u8>) -> Seq<u8> {
    if line.len() >= 2 && line[line.len() - 2] == 13 && line[line.len() - 1] == 10 {
        line.take(line.len() - 2) + seq![10u8]
    } else {
        line
    }
}

/// Whether a (normalized) line is let through: the filter's verdict on its
/// text, or forced inclusion when its bytes are not valid UTF-8 (fail-open).
pub open spec fn line_included(p: SpecPred, invert: bool, line: Seq<u8>) -> bool {
    if valid_utf8(line) {
        spec_verdict(p, invert, decode_utf8(line))
    } else {
        true
    }
}

/// How many of the lines are let through, after normalization.
pub open spec fn included_count(p: SpecPred, invert: bool, lines: Seq<Seq<u8>>) -> int
    decreases lines.len(),
{
    if lines.len() == 0 {
        0
    } else {
        included_count(p, invert, lines.drop_last()) + (if line_included(
            p,
            invert,
            normalize_crlf(lines.last()),
        ) {
            1int
        } else {
            0int
        })
    }
}

/// The bytes the sink receives outside report mode: each included line,
/// normalized, in input order.
pub open spec fn output_bytes(p: SpecPred, invert: bool, lines: Seq<Seq<u8>>) -> Seq<u8>
    decreases lines.len(),
{
    if lines.len() == 0 {
        Seq::<u8>::empty()
    } else {
        output_bytes(p, invert, lines.drop_last()) + (if line_included(
            p,
            invert,
            normalize_crlf(lines.last()),
        ) {
            normalize_crlf(lines.last())
        } else {
            Seq::<u8>::empty()
        })
    }
}

/// A scan that found no newline before `m`, and one at `m` if any, has found
/// the first line: its length is `m + 1`, or `m` at the end of the input.
proof fn lemma_first_line_scan(t: Seq<u8>, m: int)
    requires
        0 <= m <= t.len(),
        forall|k: int| 0 <= k < m ==> t[k] != 10,
        m < t.len() ==> t[m] == 10,
    ensures
        first_line_len(t) == (if m < t.len() {
            m + 1
        } else {
            m
        }),
    decreases m,
{
    if t.len() == 0 {
    } else if t[0] == 10 {
    } else {
        lemma_first_line_scan(t.skip(1), m - 1);
    }
}

/// Splits the input into its lines. Every byte is kept: the concatenation of
/// the result is the input.
pub fn split_lines(input: &[u8]) -> (lines: Vec<Vec<u8>>)
    ensures
        lines.deep_view() == spec_lines(input@),
{
    let mut lines: Vec<Vec<u8>> = Vec::new();
    let mut off: usize = 0;
    proof {
        assert(lines.deep_view() =~~= Seq::<Seq<u8>>::empty());
        assert(input@.skip(0) =~= input@);
        assert(Seq::<Seq<u8>>::empty() + spec_lines(input@) =~= spec_lines(input@));
    }
    while off < input.len()
        invariant
            off <= input@.len(),
            spec_lines(input@) == lines.deep_view() + spec_lines(input@.skip(off as int)),
        decreases input@.len() - off,
    {
        let mut j: usize = off;
        while j < input.len() && input[j] != 10u8
            invariant
                off <= j <= input@.len(),
                forall|k: int| off <= k < j ==> input@[k] != 10,
            decreases input@.len() - j,
        {
            j += 1;
        }
        let end: usize = if j < input.len() {
            j + 1
        } else {
            j
        };
        proof {
            let t = input@.skip(off as int);
            assert(forall|k: int| 0 <= k < j - off ==> t[k] == input@[k + off] && t[k] != 10);
            lemma_first_line_scan(t, j - off);
        }
        let mut line: Vec<u8> = Vec::new();
        let mut k: usize = off;
        while k < end
            invariant
                off <= k <= end <= input@.len(),
                line@ == input@.subrange(off as int, k as int),
            decreases end - k,
        {
            line.push(input[k]);
            proof {
                assert(line@ =~= input@.subrange(off as int, k + 1));
            }
            k += 1;
        }
        let ghost prev = lines.deep_view();
        let ghost t = input@.skip(off as int);
        let ghost n = end - off;
        lines.push(line);
        proof {
            assert(t.take(n as int) =~= input@.subrange(off as int, end as int));
            assert(t.skip(n as int) =~= input@.skip(end as int));
            assert(spec_lines(t) == seq![line@] + spec_lines(input@.skip(end as int)));
            assert(lines.deep_view() =~~= prev + seq![line@]);
            assert((prev + seq![line@]) + spec_lines(input@.skip(end as int)) =~~= prev + (seq![
                line@,
            ] + spec_lines(input@.skip(end as int))));
        }
        off = end;
    }
    proof {
        assert(input@.skip(off as int) =~= Seq::<u8>::empty());
        assert(lines.deep_view() + Seq::<Seq<u8>>::empty() =~~= lines.deep_view());
    }
    lines
}

/// One step of the engine: normalizes the line's ending, asks the filter,
/// and updates the counters. Returns the normalized line and whether it is
/// to be written to the sink (included, and not in report mode). A line
/// whose bytes are not valid UTF-8 counts as included regardless of the
/// filter (fail-open).
pub fn process_line(filter: &Filter, report: bool, line: Vec<u8>, stats: &mut RunStats) -> (r: (
    Vec<u8>,
    bool,
))
    requires
        old(stats).total < usize::MAX,
        old(stats).written < usize::MAX,
        old(stats).skipped < usize::MAX,
    ensures
        r.0@ == normalize_crlf(line@),
        final(stats).total == old(stats).total + 1,
        ({
            let inc = line_included(filter.evaluator@, filter.invert, normalize_crlf(line@));
            &&& final(stats).written == old(stats).written + (if inc {
                1int
            } else {
                0int
            })
            &&& final(stats).skipped == old(stats).skipped + (if inc {
                0int
            } else {
                1int
            })
            &&& r.1 == (inc && !report)
        }),
{
    let mut buffer = line;
    let ghost raw = buffer@;
    if buffer.len() >= 2 && buffer[buffer.len() - 2] == 13u8 && buffer[buffer.len() - 1] == 10u8 {
        buffer.truncate(buffer.len() - 2);
        buffer.push(10u8);
        proof {
            assert(buffer@ =~= normalize_crlf(raw));
        }
    }
    stats.total = stats.total + 1;
    let included = match filter.apply(buffer.as_slice()) {
        Ok(matched) => matched,
        Err(_) => true,
    };
    if included {
        stats.written = stats.written + 1;
    } else {
        stats.skipped = stats.skipped + 1;
    }
    (buffer, included && !report)
}

/// Runs the engine on an in-memory input: splits it into lines, applies the
/// filter to each, and returns the bytes for the sink together with the
/// counters. Outside report mode the sink bytes are exactly the included
/// lines, normalized, in order; in report mode they are empty. The counters
/// always satisfy `written + skipped == total`.
pub fn run_filter(input: &[u8], filter: &Filter, report: bool) -> (r: (Vec<u8>, RunStats))
    ensures
        r.1.total == spec_lines(input@).len(),
        r.1.written == included_count(filter.evaluator@, filter.invert, spec_lines(input@)),
        r.1.written + r.1.skipped == r.1.total,
        !report ==> r.0@ == output_bytes(filter.evaluator@, filter.invert, spec_lines(input@)),
        report ==> r.0@.len() == 0,
{
    broadcast use vstd::std_specs::vec::vec_clone_deep_view_proof;

    let lines = split_lines(input);
    let mut out: Vec<u8> = Vec::new();
    let mut stats = RunStats { total: 0, skipped: 0, written: 0 };
    let mut i: usize = 0;
    while i < lines.len()
        invariant
            i <= lines@.len(),
            lines.deep_view() == spec_lines(input@),
            lines.deep_view().len() == lines@.len(),
            stats.total == i,
            stats.written + stats.skipped == stats.total,
            stats.written == included_count(
                filter.evaluator@,
                filter.invert,
                lines.deep_view().take(i as int),
            ),
            !report ==> out@ == output_bytes(
                filter.evaluator@,
                filter.invert,
                lines.deep_view().take(i as int),
            ),
            report ==> out@.len() == 0,
        decreases lines@.len() - i,
    {
        let line = lines[i].clone();
        proof {
            assert(line.deep_view() =~~= lines.deep_view()[i as int]);
            assert(line@ =~= line.deep_view());
        }
        let (mut written_line, write) = process_line(filter, report, line, &mut stats);
        if write {
            out.append(&mut written_line);
        }
        proof {
            let all = lines.deep_view();
            assert(all.take(i + 1).drop_last() =~~= all.take(i as int));
            assert(all.take(i + 1).last() == all[i as int]);
            if !(line_included(filter.evaluator@, filter.invert, normalize_crlf(all[i as int]))
                && !report) {
                assert(out@ + Seq::<u8>::empty() =~= out@);
            }
        }
        i += 1;
    }
    proof {
        assert(lines.deep_view().take(lines@.len() as int) =~~= lines.deep_view());
    }
    (out, stats)
}

} // verus!
