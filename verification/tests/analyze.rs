use silencecut::analyze::{
    clips_from_tool_output, derive_clips, detect_args, probe_args, probe_duration_ms,
    silence_periods_from_report,
};
use silencecut::clip::SilencePeriod;

fn periods(pairs: &[(i64, i64)]) -> Vec<SilencePeriod> {
    pairs
        .iter()
        .map(|&(end_ms, dur_ms)| SilencePeriod { end_ms, dur_ms })
        .collect()
}

#[test]
fn no_silence_whole_span_is_one_clip() {
    // Zero silence periods, total 120 s, offset 0: exactly one clip [0, 120].
    let clips = derive_clips("a.mp4", &periods(&[]), 0, 120_000);
    assert_eq!(clips.len(), 1);
    assert_eq!(clips[0].start_ms, 0);
    assert_eq!(clips[0].end_ms, 120_000);
    assert_eq!(clips[0].source, "a.mp4");
}

#[test]
fn no_silence_short_total_is_no_clip() {
    let clips = derive_clips("a.mp4", &periods(&[]), 0, 1_000);
    assert_eq!(clips.len(), 0);
}

#[test]
fn single_silence_gives_leading_and_trailing_clips() {
    // Silence 8..10 within 20 s: leading clip [0, 8], trailing clip [10, 20],
    // neither padded.
    let clips = derive_clips("a.mp4", &periods(&[(10_000, 2_000)]), 0, 20_000);
    assert_eq!(clips.len(), 2);
    assert_eq!((clips[0].start_ms, clips[0].end_ms), (0, 8_000));
    assert_eq!((clips[1].start_ms, clips[1].end_ms), (10_000, 20_000));
}

#[test]
fn boundary_length_leading_clip_is_kept() {
    // Silence 1..2 within 20 s: the leading candidate [0, 1] is exactly
    // the minimum length, and only shorter candidates are discarded.
    let clips = derive_clips("a.mp4", &periods(&[(2_000, 1_000)]), 0, 20_000);
    assert_eq!(clips.len(), 2);
    assert_eq!((clips[0].start_ms, clips[0].end_ms), (0, 1_000));
    assert_eq!((clips[1].start_ms, clips[1].end_ms), (2_000, 20_000));
}

#[test]
fn boundary_length_trailing_clip_is_kept() {
    // Silence 18..19 within 20 s: the trailing candidate [19, 20] is
    // exactly the minimum length and is kept.
    let clips = derive_clips("a.mp4", &periods(&[(19_000, 1_000)]), 0, 20_000);
    assert_eq!(clips.len(), 2);
    assert_eq!((clips[0].start_ms, clips[0].end_ms), (0, 18_000));
    assert_eq!((clips[1].start_ms, clips[1].end_ms), (19_000, 20_000));
}

#[test]
fn boundary_length_leading_clip_from_tool_output() {
    let stderr: &[u8] = b"silence_end: 2|silence_duration: 1\n";
    let stdout: &[u8] = b"20";
    let clips = clips_from_tool_output("take.mp4", stderr, stdout, 0);
    assert_eq!(clips.len(), 2);
    assert_eq!((clips[0].start_ms, clips[0].end_ms), (0, 1_000));
    assert_eq!((clips[1].start_ms, clips[1].end_ms), (2_000, 20_000));
}

#[test]
fn short_gap_clip_is_discarded_despite_padding() {
    // Gap [5, 5.4] between silences: padding brings it to 5.7, still
    // 0.7 s < 1 s, so it is discarded.
    let clips = derive_clips(
        "a.mp4",
        &periods(&[(5_000, 1_000), (6_000, 600)]),
        0,
        20_000,
    );
    assert_eq!(clips.len(), 2);
    assert_eq!((clips[0].start_ms, clips[0].end_ms), (0, 4_000));
    assert_eq!((clips[1].start_ms, clips[1].end_ms), (6_000, 20_000));
}

#[test]
fn gap_clip_is_padded_and_kept() {
    // Gap [5, 6.2]: padding brings the end to 6.5, 1.5 s >= 1 s, kept.
    let clips = derive_clips(
        "a.mp4",
        &periods(&[(5_000, 1_000), (7_000, 800)]),
        0,
        20_000,
    );
    assert_eq!(clips.len(), 3);
    assert_eq!((clips[0].start_ms, clips[0].end_ms), (0, 4_000));
    assert_eq!((clips[1].start_ms, clips[1].end_ms), (5_000, 6_500));
    assert_eq!((clips[2].start_ms, clips[2].end_ms), (7_000, 20_000));
}

#[test]
fn padded_end_is_clamped_to_total() {
    // Gap [5, 6.2] with total 6.4: the padded end 6.5 is clamped to 6.4.
    let clips = derive_clips(
        "a.mp4",
        &periods(&[(5_000, 1_000), (7_000, 800)]),
        0,
        6_400,
    );
    assert!(clips
        .iter()
        .any(|c| c.start_ms == 5_000 && c.end_ms == 6_400));
}

#[test]
fn every_emitted_clip_is_wellformed() {
    // Messy periods, offset 1.5 s: every surviving clip starts before it
    // ends and lasts at least the minimum length.
    let ps = periods(&[(3_000, 2_500), (3_100, 3_000), (9_000, 100), (9_000, 8_999)]);
    let clips = derive_clips("x.mkv", &ps, 1_500, 30_000);
    assert!(!clips.is_empty());
    for c in &clips {
        assert!(c.start_ms < c.end_ms);
        assert!(c.end_ms - c.start_ms >= 1_000);
        assert!(c.start_ms >= 0);
    }
}

#[test]
fn parses_end_marker_line() {
    let report = b"[silencedetect @ 0x6000] silence_end: 10.5 | silence_duration: 2.25\n";
    let ps = silence_periods_from_report(report, 0);
    assert_eq!(ps.len(), 1);
    assert_eq!(ps[0].end_ms, 10_500);
    assert_eq!(ps[0].dur_ms, 2_250);
}

#[test]
fn end_time_carries_the_offset() {
    let report = b"silence_end: 10.5 | silence_duration: 2.25\n";
    let ps = silence_periods_from_report(report, 2_000);
    assert_eq!(ps.len(), 1);
    assert_eq!(ps[0].end_ms, 12_500);
    assert_eq!(ps[0].dur_ms, 2_250);
}

#[test]
fn start_marker_lines_are_informational() {
    let report = b"[silencedetect @ 0x6000] silence_start: 8.25\nsilence_end: 10 | silence_duration: 1.75\n";
    let ps = silence_periods_from_report(report, 0);
    assert_eq!(ps.len(), 1);
    assert_eq!(ps[0].end_ms, 10_000);
    assert_eq!(ps[0].dur_ms, 1_750);
}

#[test]
fn malformed_lines_are_skipped() {
    let report = b"frame= 100 fps=25\nsilence_end: oops | silence_duration: 2\nsilence_end: 5.0\nsilence_end: 7.0 | silence_duration: 0.0\nsilence_end: 9.5 | silence_duration: 1.5\n";
    let ps = silence_periods_from_report(report, 0);
    assert_eq!(ps.len(), 1);
    assert_eq!(ps[0].end_ms, 9_500);
    assert_eq!(ps[0].dur_ms, 1_500);
}

#[test]
fn crlf_and_missing_final_newline_are_accepted() {
    let report = b"silence_end: 1.5 | silence_duration: 1.0\r\nsilence_end: 4 | silence_duration: 1.25";
    let ps = silence_periods_from_report(report, 0);
    assert_eq!(ps.len(), 2);
    assert_eq!((ps[0].end_ms, ps[0].dur_ms), (1_500, 1_000));
    assert_eq!((ps[1].end_ms, ps[1].dur_ms), (4_000, 1_250));
}

#[test]
fn fraction_digits_beyond_three_are_truncated() {
    let report = b"silence_end: 3.14159 | silence_duration: 1.9999\n";
    let ps = silence_periods_from_report(report, 0);
    assert_eq!(ps.len(), 1);
    assert_eq!(ps[0].end_ms, 3_141);
    assert_eq!(ps[0].dur_ms, 1_999);
}

#[test]
fn probe_output_is_trimmed_and_parsed() {
    assert_eq!(probe_duration_ms(b" 120.5 \n"), 120_500);
    assert_eq!(probe_duration_ms(b"0.25"), 250);
}

#[test]
fn unparseable_probe_output_means_unknown() {
    assert_eq!(probe_duration_ms(b"N/A\n"), 0);
    assert_eq!(probe_duration_ms(b""), 0);
    assert_eq!(probe_duration_ms(b"12,5"), 0);
}

#[test]
fn whole_analysis_from_tool_output() {
    let stderr: &[u8] = b"silence_start: 8.0\nsilence_end: 10.0 | silence_duration: 2.0\n";
    let stdout: &[u8] = b"20.0\n";
    let clips = clips_from_tool_output("take.mp4", stderr, stdout, 0);
    assert_eq!(clips.len(), 2);
    assert_eq!((clips[0].start_ms, clips[0].end_ms), (0, 8_000));
    assert_eq!((clips[1].start_ms, clips[1].end_ms), (10_000, 20_000));
    assert_eq!(clips[0].source, "take.mp4");
}

#[test]
fn detector_argument_list() {
    let args = detect_args("in.mp4", 1_500, -50);
    let want = vec![
        "-ss",
        "1.500",
        "-i",
        "in.mp4",
        "-af",
        "silencedetect=n=-50dB:d=0.8",
        "-f",
        "null",
        "-",
    ];
    assert_eq!(args, want);
}

#[test]
fn prober_argument_list() {
    let args = probe_args("in.mp4");
    let want = vec![
        "-v",
        "error",
        "-show_entries",
        "format=duration",
        "-of",
        "default=noprint_wrappers=1:nokey=1",
        "in.mp4",
    ];
    assert_eq!(args, want);
}
