//! The silence analyzer: scans the detector's line-oriented diagnostic
//! stream for end-of-silence markers, reads the probe's duration output,
//! and derives the complementary speech clips with padding and
//! minimum-length filtering.
use vstd::prelude::*;
use crate::clip::{
    Clip, SilencePeriod, valid_clip, valid_period, period_start, END_PAD_MS, MIN_CLIP_MS,
};
use crate::parse::{
    find_from, find_sub_from, trimmed, parseable, ms_val, find_byte_from, find_sub, trim,
    parse_ms, lemma_find_from, lemma_find_sub_from,
};
use crate::text::{push_str, push_i64, ms_to_secs_string, int_chars, sec_chars};
use crate::TIME_MAX_MS;

verus! {

/// The bytes of the start-marker label `silence_start:`.
pub open spec fn start_marker() -> Seq<u8> {
    seq![
        0x73u8, 0x69, 0x6c, 0x65, 0x6e, 0x63, 0x65, 0x5f, 0x73, 0x74, 0x61, 0x72,
        0x74, 0x3a,
    ]
}

/// The bytes of the end-marker label `silence_end:`.
pub open spec fn end_marker() -> Seq<u8> {
    seq![0x73u8, 0x69, 0x6c, 0x65, 0x6e, 0x63, 0x65, 0x5f, 0x65, 0x6e, 0x64, 0x3a]
}

fn start_marker_bytes() -> (v: Vec<u8>)
    ensures
        v@ == start_marker(),
{
    let v: Vec<u8> = vec![
        0x73u8, 0x69, 0x6c, 0x65, 0x6e, 0x63, 0x65, 0x5f, 0x73, 0x74, 0x61, 0x72,
        0x74, 0x3a,
    ];
    proof {
        assert(v@ =~= start_marker());
    }
    v
}

fn end_marker_bytes() -> (v: Vec<u8>)
    ensures
        v@ == end_marker(),
{
    let v: Vec<u8> = vec![
        0x73u8, 0x69, 0x6c, 0x65, 0x6e, 0x63, 0x65, 0x5f, 0x65, 0x6e, 0x64, 0x3a,
    ];
    proof {
        assert(v@ =~= end_marker());
    }
    v
}

/// The silence periods one diagnostic line contributes: none unless the
/// line is an end marker whose fields parse, one otherwise. The end time
/// is the first `|`-separated field after the label; the duration is the
/// text between the first and second `:` of the following field. A line
/// that carries a start marker is informational and contributes nothing,
/// as does any line outside this shape or with a zero duration.
pub open spec fn line_periods(line: Seq<u8>, off: int) -> Seq<SilencePeriod> {
    if find_sub_from(line, start_marker(), 0) is Some {
        Seq::empty()
    } else {
        match find_sub_from(line, end_marker(), 0) {
            None => Seq::empty(),
            Some(i) => {
                let rest = line.skip(i + end_marker().len() as int);
                let bar = find_from(rest, 0, 0x7c);
                if bar >= rest.len() {
                    Seq::empty()
                } else {
                    let end_txt = trimmed(rest.take(bar));
                    let after = rest.skip(bar + 1);
                    let field = after.take(find_from(after, 0, 0x7c));
                    let c1 = find_from(field, 0, 0x3a);
                    if c1 >= field.len() {
                        Seq::empty()
                    } else {
                        let tail = field.skip(c1 + 1);
                        let dur_txt = trimmed(tail.take(find_from(tail, 0, 0x3a)));
                        if parseable(end_txt) && parseable(dur_txt) && ms_val(dur_txt)
                            > 0 {
                            seq![
                                SilencePeriod {
                                    end_ms: (ms_val(end_txt) + off) as i64,
                                    dur_ms: ms_val(dur_txt) as i64,
                                },
                            ]
                        } else {
                            Seq::empty()
                        }
                    }
                }
            },
        }
    }
}

/// Parse one diagnostic line.
pub fn parse_line(line: &[u8], off: i64) -> (r: Option<SilencePeriod>)
    requires
        0 <= off <= TIME_MAX_MS,
    ensures
        match r {
            Some(p) => line_periods(line@, off as int) == seq![p] && valid_period(p),
            None => line_periods(line@, off as int) == Seq::<SilencePeriod>::empty(),
        },
{
    let start_pat = start_marker_bytes();
    let end_pat = end_marker_bytes();
    if find_sub(line, start_pat.as_slice()).is_some() {
        return None;
    }
    let i = match find_sub(line, end_pat.as_slice()) {
        None => {
            return None;
        },
        Some(i) => i,
    };
    proof {
        lemma_find_sub_from(line@, end_marker(), 0);
        assert(end_marker().len() == 12);
    }
    let line_len = line.len();
    let rest = vstd::slice::slice_subrange(line, i + 12, line_len);
    proof {
        assert(rest@ =~= line@.skip(i + end_marker().len() as int));
    }
    let bar = find_byte_from(rest, 0, 0x7c);
    if bar >= rest.len() {
        return None;
    }
    let end_txt = trim(vstd::slice::slice_subrange(rest, 0, bar));
    proof {
        assert(rest@.subrange(0, bar as int) =~= rest@.take(bar as int));
    }
    let after = vstd::slice::slice_subrange(rest, bar + 1, rest.len());
    proof {
        assert(after@ =~= rest@.skip(bar + 1));
    }
    let bar2 = find_byte_from(after, 0, 0x7c);
    let field = vstd::slice::slice_subrange(after, 0, bar2);
    proof {
        assert(field@ =~= after@.take(find_from(after@, 0, 0x7c)));
    }
    let c1 = find_byte_from(field, 0, 0x3a);
    if c1 >= field.len() {
        return None;
    }
    let tail = vstd::slice::slice_subrange(field, c1 + 1, field.len());
    proof {
        assert(tail@ =~= field@.skip(c1 + 1));
    }
    let c2 = find_byte_from(tail, 0, 0x3a);
    let dur_txt = trim(vstd::slice::slice_subrange(tail, 0, c2));
    proof {
        assert(tail@.subrange(0, c2 as int) =~= tail@.take(find_from(tail@, 0, 0x3a)));
    }
    let end_val = match parse_ms(end_txt) {
        None => {
            return None;
        },
        Some(v) => v,
    };
    let dur_val = match parse_ms(dur_txt) {
        None => {
            return None;
        },
        Some(v) => v,
    };
    if dur_val <= 0 {
        return None;
    }
    let p = SilencePeriod { end_ms: end_val + off, dur_ms: dur_val };
    proof {
        assert(line_periods(line@, off as int) =~= seq![p]);
    }
    Some(p)
}

/// Whether a line ends in a carriage return that line splitting removes.
pub open spec fn chop_cr(line: Seq<u8>) -> Seq<u8> {
    if line.len() > 0 && line.last() == 0x0d {
        line.drop_last()
    } else {
        line
    }
}

/// All silence periods contributed by the stream from position `pos` on,
/// one line at a time; lines are separated by `\n`, an optional `\r`
/// before the separator is dropped.
pub open spec fn periods_from(s: Seq<u8>, pos: int, off: int) -> Seq<SilencePeriod>
    decreases s.len() - pos,
    via periods_from_decreases
{
    if pos < 0 || pos >= s.len() {
        Seq::empty()
    } else {
        let nl = find_from(s, pos, 0x0a);
        let nxt = if nl + 1 < s.len() {
            nl + 1
        } else {
            s.len() as int
        };
        line_periods(chop_cr(s.subrange(pos, nl)), off) + periods_from(s, nxt, off)
    }
}

#[via_fn]
proof fn periods_from_decreases(s: Seq<u8>, pos: int, off: int) {
    if 0 <= pos < s.len() {
        lemma_find_from(s, pos, 0x0a);
    }
}

/// The silence periods of a whole diagnostic stream.
pub open spec fn report_periods(s: Seq<u8>, off: int) -> Seq<SilencePeriod> {
    periods_from(s, 0, off)
}

/// Scan the detector's diagnostic stream for end-of-silence markers.
/// Every period comes out with the analysis offset added to its end time,
/// exactly as the marker lines report them, in line order; malformed
/// lines contribute nothing.
pub fn silence_periods_from_report(stderr: &[u8], off: i64) -> (r: Vec<SilencePeriod>)
    requires
        0 <= off <= TIME_MAX_MS,
    ensures
        r@ == report_periods(stderr@, off as int),
        forall|i: int| 0 <= i < r@.len() ==> valid_period(#[trigger] r@[i]),
{
    let mut out: Vec<SilencePeriod> = Vec::new();
    let mut pos: usize = 0;
    while pos < stderr.len()
        invariant
            0 <= off <= TIME_MAX_MS,
            0 <= pos <= stderr@.len(),
            report_periods(stderr@, off as int) == out@ + periods_from(
                stderr@,
                pos as int,
                off as int,
            ),
            forall|i: int| 0 <= i < out@.len() ==> valid_period(#[trigger] out@[i]),
        decreases stderr@.len() - pos,
    {
        let ghost out0 = out@;
        let ghost pos0 = pos as int;
        let nl = find_byte_from(stderr, pos, 0x0a);
        let mut line_end: usize = nl;
        if line_end > pos && stderr[line_end - 1] == 0x0d {
            line_end = line_end - 1;
        }
        let line = vstd::slice::slice_subrange(stderr, pos, line_end);
        proof {
            let full = stderr@.subrange(pos as int, nl as int);
            if nl > pos && stderr@[nl - 1] == 0x0d {
                assert(full.last() == stderr@[nl - 1]);
                assert(full.drop_last() =~= stderr@.subrange(pos as int, nl - 1));
                assert(line@ =~= chop_cr(full));
            } else {
                if full.len() > 0 {
                    assert(full.last() == stderr@[nl - 1]);
                }
                assert(line@ =~= chop_cr(full));
            }
        }
        match parse_line(line, off) {
            Some(p) => {
                out.push(p);
                proof {
                    assert(out@ =~= out0 + seq![p]);
                }
            },
            None => {},
        }
        proof {
            let nl_i = nl as int;
            let len = stderr@.len() as int;
            let nxt = if nl_i + 1 < len {
                nl_i + 1
            } else {
                len
            };
            assert(periods_from(stderr@, pos0, off as int) == line_periods(
                chop_cr(stderr@.subrange(pos0, nl_i)),
                off as int,
            ) + periods_from(stderr@, nxt, off as int));
            assert(out@ + periods_from(stderr@, nxt, off as int) =~= out0
                + periods_from(stderr@, pos0, off as int));
        }
        if nl >= stderr.len() {
            pos = stderr.len();
        } else {
            pos = nl + 1;
        }
    }
    proof {
        assert(periods_from(stderr@, pos as int, off as int)
            == Seq::<SilencePeriod>::empty());
        assert(out@ + Seq::<SilencePeriod>::empty() =~= out@);
    }
    out
}

/// A candidate clip's end after policy is applied: trailing padding when
/// the clip abuts a following silence, then a clamp to the total duration
/// when that is known (positive).
pub open spec fn padded_end(e: int, pad: bool, total: int) -> int {
    let e2 = if pad {
        e + END_PAD_MS
    } else {
        e
    };
    if total > 0 && e2 > total {
        total
    } else {
        e2
    }
}

/// The clip a candidate `[s, e)` contributes: its padded form when that
/// survives the minimum-length filter, nothing otherwise.
pub open spec fn clip_entry(s: int, e: int, pad: bool, total: int) -> Seq<(int, int)> {
    let fe = padded_end(e, pad, total);
    if fe - s >= MIN_CLIP_MS && s < fe {
        seq![(s, fe)]
    } else {
        Seq::empty()
    }
}

/// The gap clips contributed by the first `n` adjacent pairs of silence
/// periods: pair `k` spans from the end of period `k` to the start of
/// period `k + 1`, with trailing padding.
pub open spec fn gap_clips_upto(ps: Seq<SilencePeriod>, total: int, n: int) -> Seq<
    (int, int),
>
    decreases n,
{
    if n <= 0 {
        Seq::empty()
    } else {
        gap_clips_upto(ps, total, n - 1) + clip_entry(
            ps[n - 1].end_ms as int,
            period_start(ps[n]),
            true,
            total,
        )
    }
}

/// The speech clips derived from the silence periods over
/// `[off, total]`: with no silence, the whole span (when the total
/// duration exceeds the minimum length); otherwise a leading clip before
/// the first silence, one padded gap clip between each adjacent pair, and
/// a trailing clip after the last silence. Only `clip_entry`'s filter
/// decides survival: a candidate is dropped exactly when its final length
/// falls below the minimum or it ends at or before its start.
pub open spec fn derived_clips(ps: Seq<SilencePeriod>, off: int, total: int) -> Seq<
    (int, int),
> {
    if ps.len() == 0 {
        if total > MIN_CLIP_MS {
            clip_entry(off, total, false, total)
        } else {
            Seq::empty()
        }
    } else {
        clip_entry(off, period_start(ps[0]), false, total) + gap_clips_upto(
            ps,
            total,
            ps.len() - 1,
        ) + clip_entry(ps.last().end_ms as int, total, false, total)
    }
}

/// Every derived clip is at least the minimum length and starts before
/// it ends: the filter in `clip_entry` admits nothing else.
pub proof fn lemma_derived_clips_wellformed(ps: Seq<SilencePeriod>, off: int, total: int)
    ensures
        forall|i: int| 0 <= i < derived_clips(ps, off, total).len() ==> {
            let c = #[trigger] derived_clips(ps, off, total)[i];
            c.0 < c.1 && c.1 - c.0 >= MIN_CLIP_MS
        },
{
    if ps.len() > 0 {
        lemma_gap_clips_wellformed(ps, total, ps.len() as int - 1);
    }
}

proof fn lemma_gap_clips_wellformed(ps: Seq<SilencePeriod>, total: int, n: int)
    ensures
        forall|i: int| 0 <= i < gap_clips_upto(ps, total, n).len() ==> {
            let c = #[trigger] gap_clips_upto(ps, total, n)[i];
            c.0 < c.1 && c.1 - c.0 >= MIN_CLIP_MS
        },
    decreases n,
{
    if n > 0 {
        lemma_gap_clips_wellformed(ps, total, n - 1);
        let a = gap_clips_upto(ps, total, n - 1);
        let e = clip_entry(ps[n - 1].end_ms as int, period_start(ps[n]), true, total);
        assert(gap_clips_upto(ps, total, n) == a + e);
        assert forall|i: int| 0 <= i < gap_clips_upto(ps, total, n).len() implies {
            let c = #[trigger] gap_clips_upto(ps, total, n)[i];
            c.0 < c.1 && c.1 - c.0 >= MIN_CLIP_MS
        } by {
            if i < a.len() {
                assert(gap_clips_upto(ps, total, n)[i] == a[i]);
            } else {
                assert(gap_clips_upto(ps, total, n)[i] == e[i - a.len()]);
            }
        }
    }
}

/// The detector reports silences in playback order: non-decreasing end
/// times.
pub open spec fn ends_nondecreasing(ps: Seq<SilencePeriod>) -> bool {
    forall|k: int|
        0 <= k && k + 1 < ps.len() ==> (#[trigger] ps[k]).end_ms <= ps[k + 1].end_ms
}

proof fn lemma_ends_mono(ps: Seq<SilencePeriod>, a: int, b: int)
    requires
        ends_nondecreasing(ps),
        0 <= a <= b < ps.len(),
    ensures
        ps[a].end_ms <= ps[b].end_ms,
    decreases b - a,
{
    if a < b {
        lemma_ends_mono(ps, a, b - 1);
    }
}

proof fn lemma_gaps_chronological(ps: Seq<SilencePeriod>, total: int, n: int)
    requires
        ends_nondecreasing(ps),
        0 <= n < ps.len(),
    ensures
        forall|i: int|
            0 <= i && i + 1 < gap_clips_upto(ps, total, n).len() ==> (
            #[trigger] gap_clips_upto(ps, total, n)[i]).0 <= gap_clips_upto(
                ps,
                total,
                n,
            )[i + 1].0,
        gap_clips_upto(ps, total, n).len() > 0 ==> n >= 1 && gap_clips_upto(
            ps,
            total,
            n,
        ).last().0 <= ps[n - 1].end_ms,
        forall|i: int|
            0 <= i < gap_clips_upto(ps, total, n).len() ==> ps[0].end_ms <= (
            #[trigger] gap_clips_upto(ps, total, n)[i]).0,
    decreases n,
{
    if n > 0 {
        lemma_gaps_chronological(ps, total, n - 1);
        let g0 = gap_clips_upto(ps, total, n - 1);
        let e = clip_entry(ps[n - 1].end_ms as int, period_start(ps[n]), true, total);
        let g = gap_clips_upto(ps, total, n);
        assert(g == g0 + e);
        if n >= 2 {
            lemma_ends_mono(ps, n - 2, n - 1);
        }
        lemma_ends_mono(ps, 0, n - 1);
        assert forall|i: int| 0 <= i && i + 1 < g.len() implies (#[trigger] g[i]).0
            <= g[i + 1].0 by {
            if i + 1 < g0.len() {
                assert(g[i] == g0[i] && g[i + 1] == g0[i + 1]);
            } else {
                assert(g[i + 1] == e[0] && e[0].0 == ps[n - 1].end_ms);
                assert(g[i] == g0.last());
            }
        }
        assert forall|i: int| 0 <= i < g.len() implies ps[0].end_ms <= (
        #[trigger] g[i]).0 by {
            if i < g0.len() {
                assert(g[i] == g0[i]);
            } else {
                assert(g[i] == e[0] && e[0].0 == ps[n - 1].end_ms);
            }
        }
    }
}

/// With the silence periods in playback order — non-decreasing end
/// times, each at or after the analysis offset, as the detector emits
/// them — the derived clips come out chronologically: no clip starts
/// earlier than the one before it.
pub proof fn lemma_derived_clips_chronological(
    ps: Seq<SilencePeriod>,
    off: int,
    total: int,
)
    requires
        ends_nondecreasing(ps),
        forall|k: int| 0 <= k < ps.len() ==> off <= (#[trigger] ps[k]).end_ms,
    ensures
        forall|i: int|
            0 <= i && i + 1 < derived_clips(ps, off, total).len() ==> (
            #[trigger] derived_clips(ps, off, total)[i]).0 <= derived_clips(
                ps,
                off,
                total,
            )[i + 1].0,
{
    let d = derived_clips(ps, off, total);
    if ps.len() == 0 {
        assert(d.len() <= 1);
    } else {
        let lead = clip_entry(off, period_start(ps[0]), false, total);
        let g = gap_clips_upto(ps, total, ps.len() - 1);
        let trail = clip_entry(ps.last().end_ms as int, total, false, total);
        assert(d == lead + g + trail);
        if ps.len() >= 2 {
            lemma_gaps_chronological(ps, total, ps.len() as int - 1);
            lemma_ends_mono(ps, ps.len() as int - 2, ps.len() as int - 1);
        }
        lemma_ends_mono(ps, 0, ps.len() as int - 1);
        assert forall|i: int| 0 <= i && i + 1 < d.len() implies (#[trigger] d[i]).0
            <= d[i + 1].0 by {
            if i + 1 < lead.len() {
                // impossible: the leading part has at most one entry
                assert(lead.len() <= 1);
            } else if i + 1 < lead.len() + g.len() {
                if i < lead.len() {
                    assert(d[i] == lead[0] && lead[0].0 == off);
                    assert(d[i + 1] == g[i + 1 - lead.len()]);
                    assert(ps[0].end_ms <= g[i + 1 - lead.len()].0);
                } else {
                    assert(d[i] == g[i - lead.len()]);
                    assert(d[i + 1] == g[i + 1 - lead.len()]);
                }
            } else {
                assert(d[i + 1] == trail[0] && trail[0].0 == ps.last().end_ms);
                if i < lead.len() {
                    assert(d[i] == lead[0] && lead[0].0 == off);
                } else {
                    assert(d[i] == g[i - lead.len()]);
                    assert(g.last().0 <= ps[ps.len() - 2].end_ms);
                    assert(g[i - lead.len()] == g.last());
                }
            }
        }
    }
}

/// Append the clip a candidate contributes, if it survives the filter.
fn add_clip(
    clips: &mut Vec<Clip>,
    source: &str,
    s: i64,
    e: i64,
    pad: bool,
    total: i64,
) -> (added: bool)
    requires
        0 <= s <= 2 * (TIME_MAX_MS as int),
        -2 * (TIME_MAX_MS as int) <= e <= 2 * (TIME_MAX_MS as int),
        0 <= total <= TIME_MAX_MS,
    ensures
        final(clips)@.len() == old(clips)@.len() + clip_entry(
            s as int,
            e as int,
            pad,
            total as int,
        ).len(),
        forall|i: int| 0 <= i < old(clips)@.len() ==> final(clips)@[i] == old(clips)@[i],
        forall|i: int|
            old(clips)@.len() <= i < final(clips)@.len() ==> {
                let c = #[trigger] final(clips)@[i];
                let entry = clip_entry(s as int, e as int, pad, total as int)[i - old(
                    clips,
                )@.len()];
                c.start_ms == entry.0 && c.end_ms == entry.1 && c.source@ == source@
                    && valid_clip(c)
            },
        added == (clip_entry(s as int, e as int, pad, total as int).len() == 1),
{
    let padded: i64 = if pad {
        e + END_PAD_MS
    } else {
        e
    };
    let fe: i64 = if total > 0 && padded > total {
        total
    } else {
        padded
    };
    if fe - s >= MIN_CLIP_MS && s < fe {
        clips.push(Clip { source: source.to_owned(), start_ms: s, end_ms: fe });
        true
    } else {
        false
    }
}

/// Derive speech clips from the reported silence periods: the complement
/// of the silences over `[off, total]`, padded and filtered as
/// `derived_clips` states, each tagged with `source`, in the order the
/// periods were reported.
pub fn derive_clips(
    source: &str,
    periods: &Vec<SilencePeriod>,
    off: i64,
    total: i64,
) -> (r: Vec<Clip>)
    requires
        0 <= off <= TIME_MAX_MS,
        0 <= total <= TIME_MAX_MS,
        forall|i: int| 0 <= i < periods@.len() ==> valid_period(#[trigger] periods@[i]),
    ensures
        r@.len() == derived_clips(periods@, off as int, total as int).len(),
        forall|i: int| 0 <= i < r@.len() ==> {
            let c = #[trigger] r@[i];
            let entry = derived_clips(periods@, off as int, total as int)[i];
            c.start_ms == entry.0 && c.end_ms == entry.1 && c.source@ == source@
                && valid_clip(c)
        },
        forall|i: int| 0 <= i < r@.len() ==> (#[trigger] r@[i]).end_ms - r@[i].start_ms
            >= MIN_CLIP_MS,
{
    proof {
        lemma_derived_clips_wellformed(periods@, off as int, total as int);
    }
    let mut clips: Vec<Clip> = Vec::new();
    let n = periods.len();
    if n == 0 {
        if total > MIN_CLIP_MS {
            add_clip(&mut clips, source, off, total, false, total);
        }
        proof {
            lemma_clip_lengths(clips@, periods@, off as int, total as int);
        }
        return clips;
    }
    let ghost lead = clip_entry(off as int, period_start(periods@[0]), false, total as int);
    let first_start: i64 = periods[0].end_ms - periods[0].dur_ms;
    add_clip(&mut clips, source, off, first_start, false, total);
    let mut k: usize = 0;
    while k + 1 < n
        invariant
            n == periods@.len(),
            1 <= n,
            0 <= k <= n - 1,
            0 <= off <= TIME_MAX_MS,
            0 <= total <= TIME_MAX_MS,
            forall|i: int|
                0 <= i < periods@.len() ==> valid_period(#[trigger] periods@[i]),
            lead == clip_entry(
                off as int,
                period_start(periods@[0]),
                false,
                total as int,
            ),
            clips@.len() == lead.len() + gap_clips_upto(
                periods@,
                total as int,
                k as int,
            ).len(),
            forall|i: int| 0 <= i < clips@.len() ==> {
                let c = #[trigger] clips@[i];
                let entry = (lead + gap_clips_upto(periods@, total as int, k as int))[i];
                c.start_ms == entry.0 && c.end_ms == entry.1 && c.source@ == source@
                    && valid_clip(c)
            },
        decreases n - k,
    {
        let cur_end: i64 = periods[k].end_ms;
        let nxt_start: i64 = periods[k + 1].end_ms - periods[k + 1].dur_ms;
        add_clip(&mut clips, source, cur_end, nxt_start, true, total);
        proof {
            assert(gap_clips_upto(periods@, total as int, k + 1) == gap_clips_upto(
                periods@,
                total as int,
                k as int,
            ) + clip_entry(
                periods@[k as int].end_ms as int,
                period_start(periods@[k + 1]),
                true,
                total as int,
            ));
        }
        k = k + 1;
    }
    let last_end: i64 = periods[n - 1].end_ms;
    proof {
        assert(periods@[n - 1] == periods@.last());
    }
    add_clip(&mut clips, source, last_end, total, false, total);
    proof {
        lemma_clip_lengths(clips@, periods@, off as int, total as int);
    }
    clips
}

/// Clips that match the derived entries pointwise inherit the
/// minimum-length bound that every entry carries.
proof fn lemma_clip_lengths(cs: Seq<Clip>, ps: Seq<SilencePeriod>, off: int, total: int)
    requires
        cs.len() == derived_clips(ps, off, total).len(),
        forall|i: int| 0 <= i < cs.len() ==> {
            let c = #[trigger] cs[i];
            let entry = derived_clips(ps, off, total)[i];
            c.start_ms == entry.0 && c.end_ms == entry.1
        },
    ensures
        forall|i: int| 0 <= i < cs.len() ==> (#[trigger] cs[i]).end_ms - cs[i].start_ms
            >= MIN_CLIP_MS,
{
    lemma_derived_clips_wellformed(ps, off, total);
    assert forall|i: int|
        0 <= i < cs.len() implies (#[trigger] cs[i]).end_ms - cs[i].start_ms
        >= MIN_CLIP_MS by {
        let entry = derived_clips(ps, off, total)[i];
        assert(cs[i].start_ms == entry.0 && cs[i].end_ms == entry.1);
        assert(entry.0 < entry.1 && entry.1 - entry.0 >= MIN_CLIP_MS);
    }
}

/// The silence-detection filter string: threshold in whole decibels,
/// fixed 0.8 s minimum silence duration.
pub open spec fn filter_chars(threshold_db: int) -> Seq<char> {
    "silencedetect=n="@ + int_chars(threshold_db) + "dB:d=0.8"@
}

/// The detector's argument list: seek to the start offset, read the
/// source, apply the silence filter, discard the media output.
pub fn detect_args(path: &str, off: i64, threshold_db: i32) -> (r: Vec<String>)
    requires
        0 <= off <= TIME_MAX_MS,
    ensures
        r@.len() == 9,
        r@[0]@ == "-ss"@,
        r@[1]@ == sec_chars(off as int),
        r@[2]@ == "-i"@,
        r@[3]@ == path@,
        r@[4]@ == "-af"@,
        r@[5]@ == filter_chars(threshold_db as int),
        r@[6]@ == "-f"@,
        r@[7]@ == "null"@,
        r@[8]@ == "-"@,
{
    let mut filter: String = "silencedetect=n=".to_owned();
    push_i64(&mut filter, threshold_db as i64);
    push_str(&mut filter, "dB:d=0.8");
    let mut v: Vec<String> = Vec::new();
    v.push("-ss".to_owned());
    v.push(ms_to_secs_string(off));
    v.push("-i".to_owned());
    v.push(path.to_owned());
    v.push("-af".to_owned());
    v.push(filter);
    v.push("-f".to_owned());
    v.push("null".to_owned());
    v.push("-".to_owned());
    v
}

/// The prober's argument list: ask for the container's total duration as
/// a bare number on standard output.
pub fn probe_args(path: &str) -> (r: Vec<String>)
    ensures
        r@.len() == 7,
        r@[0]@ == "-v"@,
        r@[1]@ == "error"@,
        r@[2]@ == "-show_entries"@,
        r@[3]@ == "format=duration"@,
        r@[4]@ == "-of"@,
        r@[5]@ == "default=noprint_wrappers=1:nokey=1"@,
        r@[6]@ == path@,
{
    let mut v: Vec<String> = Vec::new();
    v.push("-v".to_owned());
    v.push("error".to_owned());
    v.push("-show_entries".to_owned());
    v.push("format=duration".to_owned());
    v.push("-of".to_owned());
    v.push("default=noprint_wrappers=1:nokey=1".to_owned());
    v.push(path.to_owned());
    v
}

/// The whole analysis after the two tool runs: parse the detector's
/// diagnostic stream, read the probe's duration, derive the speech clips.
pub fn clips_from_tool_output(
    source: &str,
    detector_stderr: &[u8],
    prober_stdout: &[u8],
    off: i64,
) -> (r: Vec<Clip>)
    requires
        0 <= off <= TIME_MAX_MS,
    ensures
        ({
            let ps = report_periods(detector_stderr@, off as int);
            let total = probe_ms(prober_stdout@);
            &&& r@.len() == derived_clips(ps, off as int, total).len()
            &&& forall|i: int| 0 <= i < r@.len() ==> {
                let c = #[trigger] r@[i];
                let entry = derived_clips(ps, off as int, total)[i];
                c.start_ms == entry.0 && c.end_ms == entry.1 && c.source@ == source@
                    && valid_clip(c)
            }
            &&& forall|i: int| 0 <= i < r@.len() ==> (#[trigger] r@[i]).end_ms
                - r@[i].start_ms >= MIN_CLIP_MS
        }),
{
    let periods = silence_periods_from_report(detector_stderr, off);
    let total = probe_duration_ms(prober_stdout);
    derive_clips(source, &periods, off, total)
}

/// The probe's answer in milliseconds: the trimmed body parsed as a
/// decimal timestamp, or zero ("unknown") when it is outside the grammar.
pub open spec fn probe_ms(s: Seq<u8>) -> int {
    if parseable(trimmed(s)) {
        ms_val(trimmed(s))
    } else {
        0
    }
}

/// Read the prober's duration output. Unparseable output means the total
/// duration is unknown, reported as zero; analysis then applies no upper
/// clamp.
pub fn probe_duration_ms(stdout: &[u8]) -> (r: i64)
    ensures
        r == probe_ms(stdout@),
        0 <= r < TIME_MAX_MS,
{
    let t = trim(stdout);
    match parse_ms(t) {
        Some(v) => v,
        None => 0,
    }
}

} // verus!
