//! Daemon-start cleanup of finished jobs and the recordings directory: which
//! audio goes, how the passes are counted, the quarantine name that a
//! recovery delete parks audio under, and which recordings are orphans.

use vstd::prelude::*;

use crate::text::str_eq;
use crate::text::{chars_of, string_from_range};

verus! {

pub open spec fn quarantine_prefix() -> Seq<char> {
    ".agentdictate-delete-"@
}

pub open spec fn quarantine_suffix() -> Seq<char> {
    ".pending"@
}

/// The file name a recovery delete parks a job's audio under.
pub open spec fn quarantine_name(id: Seq<char>) -> Seq<char> {
    quarantine_prefix() + id + quarantine_suffix()
}

/// The job id text of a quarantine file name: the name without the prefix
/// and then without the suffix, when it has both.
pub open spec fn quarantined_id(name: Seq<char>) -> Option<Seq<char>> {
    let p = quarantine_prefix();
    let q = quarantine_suffix();
    if p.len() <= name.len() && name.take(p.len() as int) == p {
        let rest = name.skip(p.len() as int);
        if q.len() <= rest.len() && rest.skip(rest.len() - q.len()) == q {
            Some(rest.take(rest.len() - q.len()))
        } else {
            None
        }
    } else {
        None
    }
}

fn starts_with(s: &Vec<char>, p: &Vec<char>) -> (r: bool)
    ensures
        r == (p@.len() <= s@.len() && s@.take(p@.len() as int) == p@),
{
    if p.len() > s.len() {
        return false;
    }
    let mut i: usize = 0;
    while i < p.len()
        invariant
            p@.len() <= s@.len(),
            i <= p@.len(),
            forall|k: int| 0 <= k < i ==> s@[k] == p@[k],
        decreases p@.len() - i,
    {
        if s[i] != p[i] {
            proof {
                assert(s@.take(p@.len() as int)[i as int] != p@[i as int]);
            }
            return false;
        }
        i += 1;
    }
    proof {
        assert(s@.take(p@.len() as int) =~= p@);
    }
    true
}

fn ends_with(s: &Vec<char>, q: &Vec<char>) -> (r: bool)
    ensures
        r == (q@.len() <= s@.len() && s@.skip(s@.len() - q@.len()) == q@),
{
    if q.len() > s.len() {
        return false;
    }
    let start = s.len() - q.len();
    let mut i: usize = 0;
    while i < q.len()
        invariant
            q@.len() <= s@.len(),
            start == s@.len() - q@.len(),
            s@.len() == s.len(),
            i <= q@.len(),
            forall|k: int| 0 <= k < i ==> s@[start + k] == q@[k],
        decreases q@.len() - i,
    {
        if s[start + i] != q[i] {
            proof {
                assert(s@.skip(start as int)[i as int] != q@[i as int]);
            }
            return false;
        }
        i += 1;
    }
    proof {
        assert(s@.skip(start as int) =~= q@);
    }
    true
}

/// `.agentdictate-delete-<id>.pending`.
pub fn quarantine_file_name(id: &str) -> (name: String)
    ensures
        name@ == quarantine_name(id@),
{
    let mut name = ".agentdictate-delete-".to_owned();
    name.append(id);
    name.append(".pending");
    name
}

/// The job id text that a quarantine file name holds, or `None` when the
/// name is not one. The caller parses the text as a job id.
pub fn quarantined_job_text(file_name: &str) -> (id: Option<String>)
    ensures
        match id {
            Some(t) => quarantined_id(file_name@) == Some(t@),
            None => quarantined_id(file_name@) is None,
        },
{
    let name = chars_of(file_name);
    let prefix = chars_of(".agentdictate-delete-");
    let suffix = chars_of(".pending");
    if !starts_with(&name, &prefix) {
        return None;
    }
    let rest_chars = string_from_range(name.as_slice(), prefix.len(), name.len());
    let rest = chars_of(rest_chars.as_str());
    proof {
        assert(rest@ =~= name@.skip(prefix@.len() as int));
    }
    if !ends_with(&rest, &suffix) {
        return None;
    }
    let id = string_from_range(rest.as_slice(), 0, rest.len() - suffix.len());
    proof {
        assert(rest@.subrange(0, rest@.len() - suffix@.len()) =~= rest@.take(rest@.len() - suffix@.len()));
    }
    Some(id)
}

/// A parked recording's name reads back as the job id it was parked for.
pub proof fn lemma_quarantine_round_trip(id: Seq<char>)
    ensures
        quarantined_id(quarantine_name(id)) == Some(id),
{
    let p = quarantine_prefix();
    let q = quarantine_suffix();
    let name = quarantine_name(id);
    assert(name.take(p.len() as int) =~= p);
    let rest = name.skip(p.len() as int);
    assert(rest =~= id + q);
    assert(rest.skip(rest.len() - q.len()) =~= q);
    assert(rest.take(rest.len() - q.len()) =~= id);
}

/// A finished job left in the job table.
#[derive(Clone, Copy, Debug, PartialEq, Eq, Structural)]
pub enum FinishedStage {
    Delivered,
    NoSpeech,
    Deleted,
}

/// The finished stage of a stored stage name; the table is only asked for
/// finished stages, so any other name is `Deleted`.
pub fn finished_stage(name: &str) -> (stage: FinishedStage)
    ensures
        stage == if name@ == "delivered"@ {
            FinishedStage::Delivered
        } else if name@ == "no_speech"@ {
            FinishedStage::NoSpeech
        } else {
            FinishedStage::Deleted
        },
{
    if str_eq(name, "delivered") {
        FinishedStage::Delivered
    } else if str_eq(name, "no_speech") {
        FinishedStage::NoSpeech
    } else {
        FinishedStage::Deleted
    }
}

/// Whether a finished job's recording is deleted: always for a job the user
/// deleted, and for the others unless temporary audio is preserved.
pub fn removes_audio(stage: FinishedStage, preserve_temp_audio: bool) -> (removes: bool)
    ensures
        removes == (stage == FinishedStage::Deleted || !preserve_temp_audio),
{
    stage == FinishedStage::Deleted || !preserve_temp_audio
}

/// What becomes of audio parked for a recovery delete that a crash
/// interrupted.
#[derive(Clone, Copy, Debug, PartialEq, Eq, Structural)]
pub enum QuarantineAction {
    /// The delete never committed: the audio goes back to the job.
    Restore,
    /// The delete committed: the parked audio is removed.
    Remove,
}

/// Whether parked audio goes back to its job: only while the job row still
/// exists, is not a committed delete (rows left at `deleted` come from
/// databases older than the removal of deleted jobs), and nothing occupies
/// its audio path.
pub open spec fn spec_quarantine_action(job_stage: Option<Seq<char>>, audio_path_taken: bool) -> QuarantineAction {
    match job_stage {
        Some(stage) => if stage != "deleted"@ && !audio_path_taken {
            QuarantineAction::Restore
        } else {
            QuarantineAction::Remove
        },
        None => QuarantineAction::Remove,
    }
}

/// Decides the fate of parked audio from its job's stored stage, if the
/// job row exists, and whether something already exists at its audio path.
pub fn quarantine_action(job_stage: Option<&str>, audio_path_taken: bool) -> (action: QuarantineAction)
    ensures
        action == spec_quarantine_action(
            match job_stage {
                Some(s) => Some(s@),
                None => None,
            },
            audio_path_taken,
        ),
{
    match job_stage {
        Some(stage) => {
            if !str_eq(stage, "deleted") && !audio_path_taken {
                QuarantineAction::Restore
            } else {
                QuarantineAction::Remove
            }
        },
        None => QuarantineAction::Remove,
    }
}

/// Whether a recovery delete whose job row could not be removed puts its
/// parked audio back: only when the audio was parked and nothing has since
/// taken its path, so the job that stays is never left without its audio.
pub fn restores_after_failed_delete(parked: bool, audio_path_taken: bool) -> (restore: bool)
    ensures
        restore == (parked && !audio_path_taken),
{
    parked && !audio_path_taken
}

/// What deleting a recording did.
#[derive(Clone, Copy, Debug, PartialEq, Eq, Structural)]
pub enum RemovalOutcome {
    Removed,
    /// The file was already gone.
    Missing,
    Failed,
}

pub open spec fn wav_suffix() -> Seq<char> {
    ".wav"@
}

/// Whether a file name's extension is `wav`: something precedes the last
/// `.`, and `wav` follows it.
pub open spec fn has_wav_extension(name: Seq<char>) -> bool {
    name.len() > wav_suffix().len() && name.skip(name.len() - wav_suffix().len()) == wav_suffix()
}

/// A recording that cleanup may delete: a `.wav` file that no job owns and
/// that is older than an hour (`old_file`).
pub fn is_orphan_recording(file_name: &str, owned: &Vec<String>, old_file: bool) -> (orphan: bool)
    ensures
        orphan == (has_wav_extension(file_name@) && !(exists|k: int|
            0 <= k < owned@.len() && #[trigger] owned@[k]@ == file_name@) && old_file),
{
    let name = chars_of(file_name);
    let suffix = chars_of(".wav");
    proof {
        reveal_strlit(".wav");
    }
    if !(name.len() > suffix.len() && ends_with(&name, &suffix)) {
        return false;
    }
    let mut k: usize = 0;
    while k < owned.len()
        invariant
            k <= owned@.len(),
            forall|j: int| 0 <= j < k ==> #[trigger] owned@[j]@ != file_name@,
        decreases owned@.len() - k,
    {
        if str_eq(owned[k].as_str(), file_name) {
            return false;
        }
        k += 1;
    }
    old_file
}

/// What a cleanup pass did, for the daemon's log.
#[derive(Clone, Copy, Debug, PartialEq, Eq, Structural)]
pub struct FinishedJobCleanup {
    /// Deliveries a crash left before their dictation was recorded.
    pub recorded_deliveries: usize,
    pub removed_jobs: usize,
    pub removed_recordings: usize,
    /// Recordings that could not be deleted. A finished job whose audio
    /// could not be deleted keeps its row, so the next start retries it.
    pub failed_removals: usize,
}

impl FinishedJobCleanup {
    /// Nothing done yet.
    pub fn new() -> (c: Self)
        ensures
            c == (FinishedJobCleanup {
                recorded_deliveries: 0,
                removed_jobs: 0,
                removed_recordings: 0,
                failed_removals: 0,
            }),
    {
        FinishedJobCleanup { recorded_deliveries: 0, removed_jobs: 0, removed_recordings: 0, failed_removals: 0 }
    }

    /// Counts the deletion of a finished job's recording. Returns whether
    /// the job may leave the table: not when its audio could not be deleted.
    pub fn count_job_recording(&mut self, removal: RemovalOutcome) -> (job_may_go: bool)
        requires
            old(self).removed_recordings < usize::MAX,
            old(self).failed_removals < usize::MAX,
        ensures
            job_may_go == (removal != RemovalOutcome::Failed),
            *final(self) == match removal {
                RemovalOutcome::Removed => FinishedJobCleanup {
                    removed_recordings: (old(self).removed_recordings + 1) as usize,
                    ..*old(self)
                },
                RemovalOutcome::Missing => *old(self),
                RemovalOutcome::Failed => FinishedJobCleanup {
                    failed_removals: (old(self).failed_removals + 1) as usize,
                    ..*old(self)
                },
            },
    {
        match removal {
            RemovalOutcome::Removed => {
                self.removed_recordings = self.removed_recordings + 1;
                true
            },
            RemovalOutcome::Missing => true,
            RemovalOutcome::Failed => {
                self.failed_removals = self.failed_removals + 1;
                false
            },
        }
    }

    /// Counts a finished job that left the table, and whether its delivery
    /// was recorded on the way.
    pub fn count_removed_job(&mut self, recorded_delivery: bool)
        requires
            old(self).removed_jobs < usize::MAX,
            old(self).recorded_deliveries < usize::MAX,
        ensures
            *final(self) == (FinishedJobCleanup {
                removed_jobs: (old(self).removed_jobs + 1) as usize,
                recorded_deliveries: if recorded_delivery {
                    (old(self).recorded_deliveries + 1) as usize
                } else {
                    old(self).recorded_deliveries
                },
                ..*old(self)
            }),
    {
        if recorded_delivery {
            self.recorded_deliveries = self.recorded_deliveries + 1;
        }
        self.removed_jobs = self.removed_jobs + 1;
    }

    /// Counts the deletion of an orphan recording.
    pub fn count_orphan_removal(&mut self, removal: RemovalOutcome)
        requires
            old(self).removed_recordings < usize::MAX,
            old(self).failed_removals < usize::MAX,
        ensures
            *final(self) == match removal {
                RemovalOutcome::Removed => FinishedJobCleanup {
                    removed_recordings: (old(self).removed_recordings + 1) as usize,
                    ..*old(self)
                },
                RemovalOutcome::Missing => *old(self),
                RemovalOutcome::Failed => FinishedJobCleanup {
                    failed_removals: (old(self).failed_removals + 1) as usize,
                    ..*old(self)
                },
            },
    {
        self.count_job_recording(removal);
    }
}

impl Default for FinishedJobCleanup {
    /// Nothing done yet.
    fn default() -> (c: Self)
        ensures
            c == (FinishedJobCleanup {
                recorded_deliveries: 0,
                removed_jobs: 0,
                removed_recordings: 0,
                failed_removals: 0,
            }),
    {
        FinishedJobCleanup::new()
    }
}

} // verus!
