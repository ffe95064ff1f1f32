//! The clip exporter: a three-phase pipeline (extract each clip to a
//! temporary artifact, write a manifest, concatenate) driven as a state
//! machine. The caller performs each returned action and reports its
//! outcome; the machine guarantees that the final cleanup step names
//! exactly the artifacts created so far, whatever the outcome.
use vstd::prelude::*;
use crate::clip::{Clip, valid_clip};
use crate::error::AppError;
use crate::text::{push_str, push_u64, ms_to_secs_string, dec_chars, sec_chars};

verus! {

/// Path of the temporary artifact for clip `i` of the run stamped `ts`.
pub open spec fn temp_chars(ts: int, i: int) -> Seq<char> {
    "/tmp/clip_"@ + dec_chars(ts) + "_"@ + dec_chars(i) + ".mp4"@
}

/// Path of the manifest file for the run stamped `ts`.
pub open spec fn manifest_chars(ts: int) -> Seq<char> {
    "/tmp/concat_"@ + dec_chars(ts) + ".txt"@
}

/// One manifest line naming an artifact.
pub open spec fn manifest_entry_chars(p: Seq<char>) -> Seq<char> {
    "file '"@ + p + "'\n"@
}

/// The manifest body for the first `n` clips: one line per clip, in clip
/// order.
pub open spec fn manifest_upto(ts: int, n: int) -> Seq<char>
    decreases n,
{
    if n <= 0 {
        Seq::empty()
    } else {
        manifest_upto(ts, n - 1) + manifest_entry_chars(temp_chars(ts, n - 1))
    }
}

/// Appending clip `i` appends exactly its manifest line: the manifest
/// lists artifacts in clip order.
pub proof fn lemma_manifest_step(ts: int, i: int)
    requires
        0 <= i,
    ensures
        manifest_upto(ts, i + 1) == manifest_upto(ts, i) + manifest_entry_chars(
            temp_chars(ts, i),
        ),
{
}

/// The manifest for fewer clips is a prefix of the manifest for more:
/// adding clips never reorders the lines already written.
pub proof fn lemma_manifest_prefix(ts: int, i: int, n: int)
    requires
        0 <= i <= n,
    ensures
        manifest_upto(ts, i).is_prefix_of(manifest_upto(ts, n)),
    decreases n,
{
    if i < n {
        lemma_manifest_prefix(ts, i, n - 1);
        assert(manifest_upto(ts, i).is_prefix_of(manifest_upto(ts, n - 1)));
        assert(manifest_upto(ts, n) == manifest_upto(ts, n - 1) + manifest_entry_chars(
            temp_chars(ts, n - 1),
        ));
    }
}

pub fn temp_path(ts: u64, i: usize) -> (r: String)
    ensures
        r@ == temp_chars(ts as int, i as int),
{
    let mut s: String = "/tmp/clip_".to_owned();
    push_u64(&mut s, ts);
    push_str(&mut s, "_");
    push_u64(&mut s, i as u64);
    push_str(&mut s, ".mp4");
    proof {
        assert(s@ =~= temp_chars(ts as int, i as int));
    }
    s
}

pub fn manifest_path(ts: u64) -> (r: String)
    ensures
        r@ == manifest_chars(ts as int),
{
    let mut s: String = "/tmp/concat_".to_owned();
    push_u64(&mut s, ts);
    push_str(&mut s, ".txt");
    proof {
        assert(s@ =~= manifest_chars(ts as int));
    }
    s
}

fn manifest_content(ts: u64, n: usize) -> (r: String)
    ensures
        r@ == manifest_upto(ts as int, n as int),
{
    let mut s = String::new();
    proof {
        assert(s@ =~= manifest_upto(ts as int, 0));
    }
    let mut i: usize = 0;
    while i < n
        invariant
            0 <= i <= n,
            s@ == manifest_upto(ts as int, i as int),
        decreases n - i,
    {
        let ghost s0 = s@;
        push_str(&mut s, "file '");
        let t = temp_path(ts, i);
        push_str(&mut s, t.as_str());
        push_str(&mut s, "'\n");
        proof {
            assert(s@ =~= s0 + manifest_entry_chars(temp_chars(ts as int, i as int)));
        }
        i = i + 1;
    }
    s
}

/// The extractor's argument list for one clip: seek and duration in
/// decimal seconds, a fixed re-encode configuration, overwrite, and the
/// destination artifact.
pub fn extract_args(clip: &Clip, dest: &str) -> (r: Vec<String>)
    requires
        valid_clip(*clip),
    ensures
        r@.len() == 18,
        r@[0]@ == "-ss"@,
        r@[1]@ == sec_chars(clip.start_ms as int),
        r@[2]@ == "-t"@,
        r@[3]@ == sec_chars(clip.end_ms - clip.start_ms),
        r@[4]@ == "-i"@,
        r@[5]@ == clip.source@,
        r@[6]@ == "-c:v"@,
        r@[7]@ == "libx264"@,
        r@[8]@ == "-preset"@,
        r@[9]@ == "fast"@,
        r@[10]@ == "-crf"@,
        r@[11]@ == "23"@,
        r@[12]@ == "-c:a"@,
        r@[13]@ == "aac"@,
        r@[14]@ == "-b:a"@,
        r@[15]@ == "192k"@,
        r@[16]@ == "-y"@,
        r@[17]@ == dest@,
{
    let mut v: Vec<String> = Vec::new();
    v.push("-ss".to_owned());
    v.push(ms_to_secs_string(clip.start_ms));
    v.push("-t".to_owned());
    v.push(ms_to_secs_string(clip.end_ms - clip.start_ms));
    v.push("-i".to_owned());
    v.push(clip.source.clone());
    v.push("-c:v".to_owned());
    v.push("libx264".to_owned());
    v.push("-preset".to_owned());
    v.push("fast".to_owned());
    v.push("-crf".to_owned());
    v.push("23".to_owned());
    v.push("-c:a".to_owned());
    v.push("aac".to_owned());
    v.push("-b:a".to_owned());
    v.push("192k".to_owned());
    v.push("-y".to_owned());
    v.push(dest.to_owned());
    v
}

/// The concatenator's argument list: concat mode over the manifest,
/// stream copy, overwrite, destination.
pub fn concat_args(manifest: &str, output: &str) -> (r: Vec<String>)
    ensures
        r@.len() == 10,
        r@[0]@ == "-f"@,
        r@[1]@ == "concat"@,
        r@[2]@ == "-safe"@,
        r@[3]@ == "0"@,
        r@[4]@ == "-i"@,
        r@[5]@ == manifest@,
        r@[6]@ == "-c"@,
        r@[7]@ == "copy"@,
        r@[8]@ == "-y"@,
        r@[9]@ == output@,
{
    let mut v: Vec<String> = Vec::new();
    v.push("-f".to_owned());
    v.push("concat".to_owned());
    v.push("-safe".to_owned());
    v.push("0".to_owned());
    v.push("-i".to_owned());
    v.push(manifest.to_owned());
    v.push("-c".to_owned());
    v.push("copy".to_owned());
    v.push("-y".to_owned());
    v.push(output.to_owned());
    v
}

/// The failure text for an extraction that did not succeed, naming the
/// failing clip's index.
pub open spec fn extract_fail_chars(i: int, diag: Seq<char>) -> Seq<char> {
    "Failed to extract clip "@ + dec_chars(i) + ": "@ + diag
}

/// The failure text for a concatenation that did not succeed.
pub open spec fn concat_fail_chars(diag: Seq<char>) -> Seq<char> {
    "Failed to concatenate clips: "@ + diag
}

fn extract_fail_message(i: usize, diag: &str) -> (r: String)
    ensures
        r@ == extract_fail_chars(i as int, diag@),
{
    let mut s: String = "Failed to extract clip ".to_owned();
    push_u64(&mut s, i as u64);
    push_str(&mut s, ": ");
    push_str(&mut s, diag);
    proof {
        assert(s@ =~= extract_fail_chars(i as int, diag@));
    }
    s
}

fn concat_fail_message(diag: &str) -> (r: String)
    ensures
        r@ == concat_fail_chars(diag@),
{
    let mut s: String = "Failed to concatenate clips: ".to_owned();
    push_str(&mut s, diag);
    s
}

/// Where an export run stands.
#[derive(Clone, Copy, Debug, PartialEq, Eq, Structural)]
pub enum Phase {
    /// Extracting clips, in input order, one at a time.
    Extracting,
    /// All clips extracted; the manifest is to be written.
    WritingManifest,
    /// Manifest written; the concatenation is to run.
    Concatenating,
    /// The pipeline is over, successfully or not; the temporary
    /// artifacts are to be removed.
    CleaningUp,
    /// Cleanup has run; only the result remains to be taken.
    Finished,
}

/// What the driver of an export run is to do next.
pub enum ExportAction {
    /// Run the extractor with `args`, producing `dest` for clip `index`.
    RunExtract { index: usize, dest: String, args: Vec<String> },
    /// Write `content` to the file at `path`.
    WriteManifest { path: String, content: String },
    /// Run the concatenator with `args`.
    RunConcat { args: Vec<String> },
    /// Best-effort delete each named file; a missing file is no error.
    RemoveFiles { paths: Vec<String> },
}

/// One export run: an ordered clip list bound for `output_path`, stamped
/// with a per-run timestamp that makes the temporary names unique.
pub struct ExportJob {
    pub clips: Vec<Clip>,
    pub output_path: String,
    pub timestamp: u64,
    /// How many clips have been extracted successfully.
    pub done: usize,
    /// Whether the manifest file may exist on disk.
    pub manifest_written: bool,
    pub phase: Phase,
    /// The error to surface after cleanup, if the pipeline failed.
    pub failure: Option<AppError>,
}

impl ExportJob {
    /// The state machine's invariant.
    pub open spec fn wf(self) -> bool {
        &&& self.clips@.len() > 0
        &&& forall|i: int|
            0 <= i < self.clips@.len() ==> valid_clip(#[trigger] self.clips@[i])
        &&& self.done <= self.clips@.len()
        &&& (self.phase == Phase::Extracting ==> self.done < self.clips@.len()
            && self.failure is None && !self.manifest_written)
        &&& (self.phase == Phase::WritingManifest ==> self.done == self.clips@.len()
            && self.failure is None && !self.manifest_written)
        &&& (self.phase == Phase::Concatenating ==> self.done == self.clips@.len()
            && self.failure is None && self.manifest_written)
    }

    /// Every artifact created so far: the temporary file of each
    /// completed extraction, in clip order, then the manifest once it
    /// may exist.
    pub open spec fn created_paths(self) -> Seq<Seq<char>> {
        Seq::new(
            self.done as nat,
            |i: int| temp_chars(self.timestamp as int, i),
        ) + if self.manifest_written {
            seq![manifest_chars(self.timestamp as int)]
        } else {
            Seq::<Seq<char>>::empty()
        }
    }

    /// Start an export run. Fails, touching nothing, exactly when the
    /// clip list is empty.
    pub fn new(clips: Vec<Clip>, output_path: String, timestamp: u64) -> (r: Result<
        ExportJob,
        AppError,
    >)
        requires
            forall|i: int| 0 <= i < clips@.len() ==> valid_clip(#[trigger] clips@[i]),
        ensures
            clips@.len() == 0 <==> r is Err,
            r matches Err(e) ==> e matches AppError::NotFound(m) && m@
                == "No clips provided"@,
            r matches Ok(j) ==> j.wf() && j.clips == clips && j.output_path
                == output_path && j.timestamp == timestamp && j.done == 0 && j.phase
                == Phase::Extracting && j.failure is None && j.created_paths()
                =~= Seq::<Seq<char>>::empty(),
    {
        if clips.len() == 0 {
            return Err(AppError::NotFound("No clips provided".to_owned()));
        }
        Ok(
            ExportJob {
                clips,
                output_path,
                timestamp,
                done: 0,
                manifest_written: false,
                phase: Phase::Extracting,
                failure: None,
            },
        )
    }

    /// The action the driver is to perform now. In particular, in the
    /// cleanup phase the files to remove are exactly the artifacts
    /// created so far, in creation order — no more, no fewer.
    pub fn next_action(&self) -> (a: ExportAction)
        requires
            self.wf(),
            self.phase != Phase::Finished,
        ensures
            self.phase == Phase::Extracting ==> (a matches
                ExportAction::RunExtract { index, dest, args } && index == self.done
                && dest@ == temp_chars(self.timestamp as int, self.done as int)
                && args@.len() == 18 && args@[0]@ == "-ss"@ && args@[1]@ == sec_chars(
                self.clips@[self.done as int].start_ms as int,
            ) && args@[2]@ == "-t"@ && args@[3]@ == sec_chars(
                self.clips@[self.done as int].end_ms
                    - self.clips@[self.done as int].start_ms,
            ) && args@[4]@ == "-i"@ && args@[5]@
                == self.clips@[self.done as int].source@ && args@[6]@ == "-c:v"@
                && args@[7]@ == "libx264"@ && args@[8]@ == "-preset"@ && args@[9]@
                == "fast"@ && args@[10]@ == "-crf"@ && args@[11]@ == "23"@
                && args@[12]@ == "-c:a"@ && args@[13]@ == "aac"@ && args@[14]@
                == "-b:a"@ && args@[15]@ == "192k"@ && args@[16]@ == "-y"@
                && args@[17]@ == dest@),
            self.phase == Phase::WritingManifest ==> (a matches
                ExportAction::WriteManifest { path, content } && path@
                == manifest_chars(self.timestamp as int) && content@ == manifest_upto(
                self.timestamp as int,
                self.clips@.len() as int,
            )),
            self.phase == Phase::Concatenating ==> (a matches
                ExportAction::RunConcat { args } && args@.len() == 10 && args@[0]@
                == "-f"@ && args@[1]@ == "concat"@ && args@[2]@ == "-safe"@
                && args@[3]@ == "0"@ && args@[4]@ == "-i"@ && args@[5]@
                == manifest_chars(self.timestamp as int) && args@[6]@ == "-c"@
                && args@[7]@ == "copy"@ && args@[8]@ == "-y"@ && args@[9]@
                == self.output_path@),
            self.phase == Phase::CleaningUp ==> (a matches
                ExportAction::RemoveFiles { paths } && paths@.len()
                == self.created_paths().len() && (forall|i: int|
                0 <= i < paths@.len() ==> (#[trigger] paths@[i])@
                    == self.created_paths()[i])),
    {
        match self.phase {
            Phase::Extracting => {
                let idx = self.done;
                let dest = temp_path(self.timestamp, idx);
                let args = extract_args(&self.clips[idx], dest.as_str());
                ExportAction::RunExtract { index: idx, dest, args }
            },
            Phase::WritingManifest => ExportAction::WriteManifest {
                path: manifest_path(self.timestamp),
                content: manifest_content(self.timestamp, self.clips.len()),
            },
            Phase::Concatenating => {
                let m = manifest_path(self.timestamp);
                ExportAction::RunConcat {
                    args: concat_args(m.as_str(), self.output_path.as_str()),
                }
            },
            Phase::CleaningUp | Phase::Finished => {
                let mut paths: Vec<String> = Vec::new();
                let mut i: usize = 0;
                while i < self.done
                    invariant
                        0 <= i <= self.done,
                        paths@.len() == i,
                        forall|k: int|
                            0 <= k < i ==> (#[trigger] paths@[k])@ == temp_chars(
                                self.timestamp as int,
                                k,
                            ),
                    decreases self.done - i,
                {
                    paths.push(temp_path(self.timestamp, i));
                    i = i + 1;
                }
                if self.manifest_written {
                    paths.push(manifest_path(self.timestamp));
                }
                ExportAction::RemoveFiles { paths }
            },
        }
    }

    /// Fold the outcome of the action just performed into the state.
    /// A failed extraction aborts the phase at once — the remaining
    /// clips are not attempted — and the error names the failing clip's
    /// index and carries the tool's diagnostic text. Every failure path
    /// leads through the cleanup phase, with the created artifacts
    /// untouched in the state until the driver removes them.
    pub fn report(&mut self, ok: bool, diag: &str)
        requires
            old(self).wf(),
            old(self).phase != Phase::Finished,
        ensures
            final(self).wf(),
            final(self).clips == old(self).clips,
            final(self).output_path == old(self).output_path,
            final(self).timestamp == old(self).timestamp,
            ({
                let pre = *old(self);
                let post = *final(self);
                &&& (pre.phase == Phase::Extracting && ok ==> {
                    &&& post.done == pre.done + 1
                    &&& post.failure is None
                    &&& !post.manifest_written
                    &&& post.phase == (if pre.done + 1 < pre.clips@.len() {
                        Phase::Extracting
                    } else {
                        Phase::WritingManifest
                    })
                })
                &&& (pre.phase == Phase::Extracting && !ok ==> {
                    &&& post.done == pre.done
                    &&& post.phase == Phase::CleaningUp
                    &&& !post.manifest_written
                    &&& (post.failure matches Some(e) && e matches AppError::FFmpeg(m)
                        && m@ == extract_fail_chars(pre.done as int, diag@))
                })
                &&& (pre.phase == Phase::WritingManifest ==> {
                    &&& post.done == pre.done
                    &&& post.manifest_written
                    &&& (ok ==> post.phase == Phase::Concatenating
                        && post.failure is None)
                    &&& (!ok ==> post.phase == Phase::CleaningUp && (post.failure
                        matches Some(e) && e matches AppError::Io(m) && m@ == diag@))
                })
                &&& (pre.phase == Phase::Concatenating ==> {
                    &&& post.done == pre.done
                    &&& post.manifest_written == pre.manifest_written
                    &&& post.phase == Phase::CleaningUp
                    &&& (ok ==> post.failure is None)
                    &&& (!ok ==> (post.failure matches Some(e) && e matches
                        AppError::FFmpeg(m) && m@ == concat_fail_chars(diag@)))
                })
                &&& (pre.phase == Phase::CleaningUp ==> {
                    &&& post.done == pre.done
                    &&& post.manifest_written == pre.manifest_written
                    &&& post.phase == Phase::Finished
                    &&& post.failure == pre.failure
                })
            }),
    {
        match self.phase {
            Phase::Extracting => {
                proof {
                    assert(old(self).phase == Phase::Extracting);
                    assert(old(self).done < old(self).clips@.len());
                }
                if ok {
                    let n = self.clips.len();
                    self.done = self.done + 1;
                    if self.done == n {
                        self.phase = Phase::WritingManifest;
                    }
                } else {
                    self.failure = Some(
                        AppError::FFmpeg(extract_fail_message(self.done, diag)),
                    );
                    self.phase = Phase::CleaningUp;
                }
            },
            Phase::WritingManifest => {
                self.manifest_written = true;
                if ok {
                    self.phase = Phase::Concatenating;
                } else {
                    self.failure = Some(AppError::Io(diag.to_owned()));
                    self.phase = Phase::CleaningUp;
                }
            },
            Phase::Concatenating => {
                if !ok {
                    self.failure = Some(AppError::FFmpeg(concat_fail_message(diag)));
                }
                self.phase = Phase::CleaningUp;
            },
            Phase::CleaningUp | Phase::Finished => {
                self.phase = Phase::Finished;
            },
        }
    }

    /// Take the run's result: the output path on success, the failure
    /// recorded by the pipeline otherwise.
    pub fn finish(self) -> (r: Result<String, AppError>)
        requires
            self.phase == Phase::Finished,
        ensures
            self.failure is None ==> (r matches Ok(p) && p == self.output_path),
            self.failure matches Some(e) ==> (r matches Err(e2) && e2 == e),
    {
        match self.failure {
            None => Ok(self.output_path),
            Some(e) => Err(e),
        }
    }
}

} // verus!
