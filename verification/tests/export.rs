use silencecut::clip::Clip;
use silencecut::error::AppError;
use silencecut::export::{concat_args, extract_args, manifest_path, temp_path, ExportAction, ExportJob, Phase};
use std::collections::HashSet;

fn clip(source: &str, start_ms: i64, end_ms: i64) -> Clip {
    Clip::new(source.to_string(), start_ms, end_ms)
}

#[test]
fn empty_clip_list_fails_with_not_found() {
    // No job exists on failure, so nothing can be written or removed.
    let r = ExportJob::new(Vec::new(), "out.mp4".to_string(), 42);
    match r {
        Err(AppError::NotFound(m)) => assert_eq!(m, "No clips provided"),
        _ => panic!("expected NotFound"),
    }
}

#[test]
fn temp_and_manifest_names_carry_timestamp_and_index() {
    assert_eq!(temp_path(42, 0), "/tmp/clip_42_0.mp4");
    assert_eq!(temp_path(42, 17), "/tmp/clip_42_17.mp4");
    assert_eq!(manifest_path(42), "/tmp/concat_42.txt");
}

#[test]
fn extractor_argument_list() {
    let c = clip("in.mp4", 12_345, 20_000);
    let args = extract_args(&c, "/tmp/clip_9_0.mp4");
    let want = vec![
        "-ss", "12.345", "-t", "7.655", "-i", "in.mp4", "-c:v", "libx264", "-preset",
        "fast", "-crf", "23", "-c:a", "aac", "-b:a", "192k", "-y", "/tmp/clip_9_0.mp4",
    ];
    assert_eq!(args, want);
}

#[test]
fn concatenator_argument_list_overwrites_output() {
    let args = concat_args("/tmp/concat_9.txt", "out.mp4");
    let want = vec![
        "-f", "concat", "-safe", "0", "-i", "/tmp/concat_9.txt", "-c", "copy", "-y",
        "out.mp4",
    ];
    assert_eq!(args, want);
}

/// Drive one export run, failing the extraction whose index is
/// `fail_at` (if any), and model the disk as a set of created files.
/// Returns the result and the files left on the modelled disk.
fn drive(
    clips: Vec<Clip>,
    output: &str,
    ts: u64,
    fail_at: Option<usize>,
) -> (Result<String, AppError>, HashSet<String>, Vec<String>) {
    let mut job = ExportJob::new(clips, output.to_string(), ts).unwrap();
    let mut disk: HashSet<String> = HashSet::new();
    let mut manifest_body: Vec<String> = Vec::new();
    while job.phase != Phase::Finished {
        match job.next_action() {
            ExportAction::RunExtract { index, dest, args } => {
                assert_eq!(args.last().unwrap(), &dest);
                if fail_at == Some(index) {
                    job.report(false, "boom");
                } else {
                    disk.insert(dest);
                    job.report(true, "");
                }
            }
            ExportAction::WriteManifest { path, content } => {
                disk.insert(path);
                manifest_body = content.lines().map(|l| l.to_string()).collect();
                job.report(true, "");
            }
            ExportAction::RunConcat { args } => {
                assert!(args.contains(&"-y".to_string()));
                assert_eq!(args.last().unwrap().as_str(), output);
                job.report(true, "");
            }
            ExportAction::RemoveFiles { paths } => {
                for p in &paths {
                    disk.remove(p);
                }
                job.report(true, "");
            }
        }
    }
    (job.finish(), disk, manifest_body)
}

#[test]
fn successful_export_returns_output_and_cleans_up() {
    let clips = vec![clip("a.mp4", 0, 2_000), clip("b.mp4", 1_000, 4_500)];
    let (r, disk, manifest) = drive(clips, "final.mp4", 7, None);
    assert_eq!(r.unwrap(), "final.mp4");
    assert!(disk.is_empty());
    assert_eq!(
        manifest,
        vec!["file '/tmp/clip_7_0.mp4'", "file '/tmp/clip_7_1.mp4'"]
    );
}

#[test]
fn failed_second_extraction_cleans_up_and_names_the_index() {
    // Extraction of clip 1 (the second of three) fails: afterwards no
    // temporary artifact remains and the error names index 1.
    let clips = vec![
        clip("a.mp4", 0, 2_000),
        clip("b.mp4", 0, 3_000),
        clip("c.mp4", 0, 4_000),
    ];
    let (r, disk, manifest) = drive(clips, "final.mp4", 9, Some(1));
    assert!(disk.is_empty());
    assert!(manifest.is_empty());
    match r {
        Err(AppError::FFmpeg(m)) => assert_eq!(m, "Failed to extract clip 1: boom"),
        _ => panic!("expected FFmpeg error"),
    }
}

#[test]
fn rerunning_export_leaves_no_orphans() {
    // Two runs against the same output path: each concatenation carries
    // the overwrite flag, and neither run leaves temporary files behind.
    let mk = || vec![clip("a.mp4", 0, 2_000), clip("b.mp4", 500, 2_500)];
    let (r1, disk1, _) = drive(mk(), "same.mp4", 11, None);
    let (r2, disk2, _) = drive(mk(), "same.mp4", 12, None);
    assert_eq!(r1.unwrap(), "same.mp4");
    assert_eq!(r2.unwrap(), "same.mp4");
    assert!(disk1.is_empty());
    assert!(disk2.is_empty());
}

#[test]
fn manifest_order_matches_clip_order_for_permuted_sources() {
    let clips = vec![
        clip("z.mp4", 9_000, 11_000),
        clip("a.mp4", 0, 5_000),
        clip("m.mp4", 3_000, 4_200),
    ];
    let mut job = ExportJob::new(clips, "out.mp4".to_string(), 5).unwrap();
    let mut extracted: Vec<(usize, String, String)> = Vec::new();
    loop {
        match job.next_action() {
            ExportAction::RunExtract { index, dest, args } => {
                extracted.push((index, args[5].clone(), dest));
                job.report(true, "");
            }
            ExportAction::WriteManifest { path: _, content } => {
                let lines: Vec<&str> = content.lines().collect();
                assert_eq!(lines.len(), 3);
                for (i, line) in lines.iter().enumerate() {
                    assert_eq!(*line, format!("file '{}'", extracted[i].2));
                }
                break;
            }
            _ => panic!("unexpected action"),
        }
    }
    // Extractions happened in input order, reading the permuted sources.
    let sources: Vec<&str> = extracted.iter().map(|e| e.1.as_str()).collect();
    assert_eq!(sources, vec!["z.mp4", "a.mp4", "m.mp4"]);
    let indices: Vec<usize> = extracted.iter().map(|e| e.0).collect();
    assert_eq!(indices, vec![0, 1, 2]);
}

#[test]
fn manifest_write_failure_surfaces_io_error_and_cleans_up() {
    let clips = vec![clip("a.mp4", 0, 2_000)];
    let mut job = ExportJob::new(clips, "out.mp4".to_string(), 3).unwrap();
    let mut disk: HashSet<String> = HashSet::new();
    match job.next_action() {
        ExportAction::RunExtract { dest, .. } => {
            disk.insert(dest);
            job.report(true, "");
        }
        _ => panic!("expected extraction"),
    }
    match job.next_action() {
        ExportAction::WriteManifest { .. } => job.report(false, "disk full"),
        _ => panic!("expected manifest write"),
    }
    match job.next_action() {
        ExportAction::RemoveFiles { paths } => {
            // The manifest may exist in part; it is removed with the temps.
            assert_eq!(
                paths,
                vec!["/tmp/clip_3_0.mp4".to_string(), "/tmp/concat_3.txt".to_string()]
            );
            for p in &paths {
                disk.remove(p);
            }
            job.report(true, "");
        }
        _ => panic!("expected cleanup"),
    }
    assert!(disk.is_empty());
    match job.finish() {
        Err(AppError::Io(m)) => assert_eq!(m, "disk full"),
        _ => panic!("expected Io error"),
    }
}

#[test]
fn concat_failure_surfaces_tool_diagnostics_after_cleanup() {
    let clips = vec![clip("a.mp4", 0, 2_000)];
    let mut job = ExportJob::new(clips, "out.mp4".to_string(), 4).unwrap();
    match job.next_action() {
        ExportAction::RunExtract { .. } => job.report(true, ""),
        _ => panic!("expected extraction"),
    }
    match job.next_action() {
        ExportAction::WriteManifest { .. } => job.report(true, ""),
        _ => panic!("expected manifest write"),
    }
    match job.next_action() {
        ExportAction::RunConcat { .. } => job.report(false, "bad stream"),
        _ => panic!("expected concatenation"),
    }
    let removed = match job.next_action() {
        ExportAction::RemoveFiles { paths } => {
            job.report(true, "");
            paths
        }
        _ => panic!("expected cleanup"),
    };
    assert_eq!(
        removed,
        vec!["/tmp/clip_4_0.mp4".to_string(), "/tmp/concat_4.txt".to_string()]
    );
    match job.finish() {
        Err(AppError::FFmpeg(m)) => {
            assert_eq!(m, "Failed to concatenate clips: bad stream")
        }
        _ => panic!("expected FFmpeg error"),
    }
}

#[test]
fn error_messages_carry_their_labels() {
    assert_eq!(AppError::Io("x".to_string()).message(), "IO error: x");
    assert_eq!(AppError::NotFound("y".to_string()).message(), "Not found: y");
    assert_eq!(AppError::FFmpeg("z".to_string()).message(), "FFmpeg error: z");
    assert_eq!(AppError::Json("w".to_string()).message(), "JSON error: w");
    assert_eq!(AppError::Shell("v".to_string()).message(), "Shell error: v");
}

#[test]
fn clip_duration_is_end_minus_start() {
    let c = clip("a.mp4", 1_250, 4_000);
    assert_eq!(c.duration_ms(), 2_750);
}
