//! How long finished work stays on this computer. A Recovery item, text and
//! audio, lasts a week after its last change, or a day for a recording
//! discarded with Esc. Times are seconds since the Unix epoch.

use vstd::prelude::*;

use crate::job::{
    clone_opt, is_recovery_stage, opt_view, spec_is_recovery_stage, spec_recovery_lifetime_days, DeliveryStatus, JobId, JobRecord, JobStage, Timestamp,
};

verus! {

/// Seconds a Recovery item stays after its last change.
pub const RECOVERY_LIFETIME_SECONDS: i64 = 604800;

/// Seconds a recording discarded with Esc stays in Recovery.
pub const CANCELLED_LIFETIME_SECONDS: i64 = 86400;

/// Seconds a Recovery item at `stage` stays after its last change.
pub open spec fn spec_lifetime_seconds(stage: JobStage) -> int {
    if stage == JobStage::Cancelled {
        CANCELLED_LIFETIME_SECONDS as int
    } else {
        RECOVERY_LIFETIME_SECONDS as int
    }
}

/// Whether a job at `stage`, last changed at `updated_at`, has expired from
/// Recovery by `now`: a recoverable job more than a week old, or a
/// discarded one more than a day old. Other jobs never expire here.
pub open spec fn spec_expired(stage: JobStage, updated_at: int, now: int) -> bool {
    spec_is_recovery_stage(stage) && updated_at < now - spec_lifetime_seconds(stage)
}

pub fn is_expired_recovery(stage: JobStage, updated_at: i64, now: i64) -> (expired: bool)
    ensures
        expired == spec_expired(stage, updated_at as int, now as int),
{
    let updated = updated_at as i128;
    let current = now as i128;
    if !is_recovery_stage(stage) {
        false
    } else if stage == JobStage::Cancelled {
        updated < current - CANCELLED_LIFETIME_SECONDS as i128
    } else {
        updated < current - RECOVERY_LIFETIME_SECONDS as i128
    }
}

/// When a listed Recovery item at `stage` is deleted: a week after its last
/// change, or a day for a recording discarded with Esc.
pub fn recovery_expires_at(stage: JobStage, updated_at: i64) -> (expires_at: i64)
    requires
        updated_at <= i64::MAX - RECOVERY_LIFETIME_SECONDS,
    ensures
        expires_at == updated_at + spec_lifetime_seconds(stage),
        expires_at == updated_at + spec_recovery_lifetime_days(stage) * 86400,
{
    if stage == JobStage::Cancelled {
        updated_at + CANCELLED_LIFETIME_SECONDS
    } else {
        updated_at + RECOVERY_LIFETIME_SECONDS
    }
}

/// What a retention pass removed.
#[derive(Clone, Copy, Debug, PartialEq, Eq, Structural)]
pub struct Retention {
    pub purged_transcripts: usize,
    pub expired_recoveries: usize,
    /// Expired Recovery items that could not be deleted; the next pass
    /// tries again.
    pub failed_expiries: usize,
}

impl Retention {
    /// A pass that purged `purged_transcripts` texts and nothing else yet.
    pub fn new(purged_transcripts: usize) -> (r: Self)
        ensures
            r == (Retention { purged_transcripts, expired_recoveries: 0, failed_expiries: 0 }),
    {
        Retention { purged_transcripts, expired_recoveries: 0, failed_expiries: 0 }
    }

    /// Counts one expired item: deleted, or left for the next pass.
    pub fn count_expiry(&mut self, deleted: bool)
        requires
            old(self).expired_recoveries < usize::MAX,
            old(self).failed_expiries < usize::MAX,
        ensures
            *final(self) == if deleted {
                Retention { expired_recoveries: (old(self).expired_recoveries + 1) as usize, ..*old(self) }
            } else {
                Retention { failed_expiries: (old(self).failed_expiries + 1) as usize, ..*old(self) }
            },
    {
        if deleted {
            self.expired_recoveries = self.expired_recoveries + 1;
        } else {
            self.failed_expiries = self.failed_expiries + 1;
        }
    }

    /// Whether removed text must also leave the write-ahead log.
    pub fn removed_anything(&self) -> (b: bool)
        ensures
            b == (self.purged_transcripts > 0 || self.expired_recoveries > 0),
    {
        self.purged_transcripts > 0 || self.expired_recoveries > 0
    }
}

/// A discarded recording never outlives a recoverable item: when a failed
/// item has expired, a discarded one changed at the same time has too.
pub proof fn lemma_cancelled_expires_first(updated_at: int, now: int)
    ensures
        spec_expired(JobStage::Failed, updated_at, now) ==> spec_expired(JobStage::Cancelled, updated_at, now),
{
}

/// A dictation the user can retry or delete in Recovery.
#[derive(Debug, PartialEq, Eq)]
pub struct RecoveryEntry {
    pub job_id: JobId,
    pub stage: JobStage,
    pub updated_at: Timestamp,
    /// A week after the last change, or a day for a discarded recording.
    pub expires_at: Timestamp,
    pub raw_transcript: String,
    pub final_text: String,
    pub error_message: Option<String>,
    pub audio_present: bool,
    pub delivery_ambiguous: bool,
}

/// The positions of the jobs Recovery lists, in order: those at a
/// recoverable stage.
pub open spec fn listed_positions(jobs: Seq<(JobRecord, bool)>) -> Seq<int>
    decreases jobs.len(),
{
    if jobs.len() == 0 {
        Seq::empty()
    } else {
        let rest = listed_positions(jobs.drop_last());
        if spec_is_recovery_stage(jobs.last().0.stage) {
            rest.push(jobs.len() - 1)
        } else {
            rest
        }
    }
}

/// What Recovery shows of `job`, whose audio is present or not.
pub open spec fn presents(entry: RecoveryEntry, job: JobRecord, audio_present: bool) -> bool {
    &&& entry.job_id == job.id
    &&& entry.stage == job.stage
    &&& entry.updated_at == job.updated_at
    &&& entry.expires_at.seconds == job.updated_at.seconds + spec_recovery_lifetime_days(job.stage) * 86400
    &&& entry.expires_at.nanos == job.updated_at.nanos
    &&& entry.raw_transcript@ == job.raw_transcript@
    &&& entry.final_text@ == job.final_text@
    &&& opt_view(entry.error_message) == opt_view(job.error_message)
    &&& entry.audio_present == audio_present
    &&& entry.delivery_ambiguous == (job.delivery_status == DeliveryStatus::Ambiguous)
}

proof fn lemma_positions_bounded(jobs: Seq<(JobRecord, bool)>)
    ensures
        forall|k: int| 0 <= k < listed_positions(jobs).len() ==> 0 <= #[trigger] listed_positions(jobs)[k] < jobs.len(),
    decreases jobs.len(),
{
    if jobs.len() > 0 {
        let rest = jobs.drop_last();
        lemma_positions_bounded(rest);
        assert forall|k: int| 0 <= k < listed_positions(jobs).len() implies 0 <= #[trigger] listed_positions(
            jobs,
        )[k] < jobs.len() by {
            if k < listed_positions(rest).len() {
                assert(listed_positions(jobs)[k] == listed_positions(rest)[k]);
            }
        }
    }
}

/// Recovery lists exactly the jobs at a recoverable stage, a kept discarded
/// recording among them (never one still starting, recording or
/// transcribing), each once, in the order given.
pub proof fn lemma_recovery_listing(jobs: Seq<(JobRecord, bool)>)
    ensures
        forall|k: int| 0 <= k < listed_positions(jobs).len() ==> {
            &&& 0 <= #[trigger] listed_positions(jobs)[k] < jobs.len()
            &&& spec_is_recovery_stage(jobs[listed_positions(jobs)[k]].0.stage)
        },
        forall|k: int, l: int| 0 <= k < l < listed_positions(jobs).len() ==> #[trigger] listed_positions(jobs)[k]
            < #[trigger] listed_positions(jobs)[l],
        forall|i: int| 0 <= i < jobs.len() && spec_is_recovery_stage(#[trigger] jobs[i].0.stage) ==> exists|k: int|
            0 <= k < listed_positions(jobs).len() && #[trigger] listed_positions(jobs)[k] == i,
    decreases jobs.len(),
{
    if jobs.len() > 0 {
        let rest = jobs.drop_last();
        lemma_recovery_listing(rest);
        let pr = listed_positions(rest);
        let pj = listed_positions(jobs);
        assert forall|k: int| 0 <= k < pr.len() implies #[trigger] pj[k] == pr[k] && jobs[pr[k]] == rest[pr[k]] by {
            assert(rest[pr[k]] == jobs[pr[k]]);
        }
        assert forall|i: int| 0 <= i < jobs.len() && spec_is_recovery_stage(#[trigger] jobs[i].0.stage) implies exists|k: int|
            0 <= k < pj.len() && #[trigger] pj[k] == i by {
            if i < jobs.len() - 1 {
                assert(rest[i] == jobs[i]);
                let k = choose|k: int| 0 <= k < pr.len() && #[trigger] pr[k] == i;
                assert(pj[k] == i);
            } else {
                assert(pj[pj.len() - 1] == i);
            }
        }
    }
}

/// The dictations Recovery lists, from the recoverable jobs newest first,
/// each paired with whether its audio file is present: those at a
/// recoverable stage, in the same order, each expiring a week after its
/// last change, or a day for a recording discarded with Esc. A job still
/// recording or processing is never listed.
pub fn recoveries(jobs: &Vec<(JobRecord, bool)>) -> (entries: Vec<RecoveryEntry>)
    requires
        forall|i: int| 0 <= i < jobs@.len() ==> (#[trigger] jobs@[i]).0.updated_at.seconds <= i64::MAX
            - RECOVERY_LIFETIME_SECONDS,
    ensures
        entries@.len() == listed_positions(jobs@).len(),
        forall|k: int| 0 <= k < entries@.len() ==> presents(
            #[trigger] entries@[k],
            jobs@[listed_positions(jobs@)[k]].0,
            jobs@[listed_positions(jobs@)[k]].1,
        ),
{
    let mut entries: Vec<RecoveryEntry> = Vec::new();
    let mut i: usize = 0;
    while i < jobs.len()
        invariant
            i <= jobs@.len(),
            forall|j: int| 0 <= j < jobs@.len() ==> (#[trigger] jobs@[j]).0.updated_at.seconds <= i64::MAX
                - RECOVERY_LIFETIME_SECONDS,
            entries@.len() == listed_positions(jobs@.take(i as int)).len(),
            forall|k: int| 0 <= k < entries@.len() ==> presents(
                #[trigger] entries@[k],
                jobs@[listed_positions(jobs@.take(i as int))[k]].0,
                jobs@[listed_positions(jobs@.take(i as int))[k]].1,
            ),
        decreases jobs@.len() - i,
    {
        let ghost before = jobs@.take(i as int);
        let ghost after = jobs@.take(i + 1);
        proof {
            assert(after.drop_last() =~= before);
            lemma_positions_bounded(before);
        }
        let job = &jobs[i].0;
        let audio_present = jobs[i].1;
        if is_recovery_stage(job.stage) {
            let entry = RecoveryEntry {
                job_id: job.id.duplicate(),
                stage: job.stage,
                updated_at: job.updated_at,
                expires_at: Timestamp {
                    seconds: recovery_expires_at(job.stage, job.updated_at.seconds),
                    nanos: job.updated_at.nanos,
                },
                raw_transcript: job.raw_transcript.clone(),
                final_text: job.final_text.clone(),
                error_message: clone_opt(&job.error_message),
                audio_present,
                delivery_ambiguous: job.delivery_status == DeliveryStatus::Ambiguous,
            };
            entries.push(entry);
            proof {
                assert(listed_positions(after) == listed_positions(before).push(i as int));
                assert forall|k: int| 0 <= k < entries@.len() implies presents(
                    #[trigger] entries@[k],
                    jobs@[listed_positions(after)[k]].0,
                    jobs@[listed_positions(after)[k]].1,
                ) by {
                    if k < entries@.len() - 1 {
                        assert(listed_positions(after)[k] == listed_positions(before)[k]);
                    }
                }
            }
        } else {
            proof {
                assert(listed_positions(after) == listed_positions(before));
            }
        }
        i += 1;
    }
    proof {
        assert(jobs@.take(jobs@.len() as int) =~= jobs@);
    }
    entries
}

/// Whether a job at `stage` is one the user can still act on in Recovery:
/// a captured recording, a transcript ready or failed to paste, an
/// interrupted job, or a recording discarded with Esc and kept.
pub open spec fn user_can_recover(stage: JobStage) -> bool {
    ||| stage == JobStage::Captured
    ||| stage == JobStage::ReadyToDeliver
    ||| stage == JobStage::Interrupted
    ||| stage == JobStage::Failed
    ||| stage == JobStage::Cancelled
}

/// Recovery lists every job the user can still act on, and only those: a
/// transcript whose paste was blocked (`ReadyToDeliver`) is listed as a
/// captured, interrupted or failed job is, and so is a kept discarded
/// recording; a job starting, recording, transcribing, delivered, without
/// speech or deleted never is.
pub proof fn lemma_recovery_lists_what_the_user_can_recover(jobs: Seq<(JobRecord, bool)>)
    ensures
        forall|i: int| 0 <= i < jobs.len() && user_can_recover(#[trigger] jobs[i].0.stage) ==> exists|k: int|
            0 <= k < listed_positions(jobs).len() && #[trigger] listed_positions(jobs)[k] == i,
        forall|k: int| 0 <= k < listed_positions(jobs).len() ==> user_can_recover(
            jobs[#[trigger] listed_positions(jobs)[k]].0.stage,
        ),
{
    lemma_recovery_listing(jobs);
    assert forall|i: int| 0 <= i < jobs.len() && user_can_recover(#[trigger] jobs[i].0.stage) implies exists|k: int|
        0 <= k < listed_positions(jobs).len() && #[trigger] listed_positions(jobs)[k] == i by {
        assert(spec_is_recovery_stage(jobs[i].0.stage));
    }
    assert forall|k: int| 0 <= k < listed_positions(jobs).len() implies user_can_recover(
        jobs[#[trigger] listed_positions(jobs)[k]].0.stage,
    ) by {
        assert(spec_is_recovery_stage(jobs[listed_positions(jobs)[k]].0.stage));
    }
}

/// How long a Recovery item lasts: a week after its last change, or a day
/// for a kept discarded recording; a job Recovery does not list never
/// expires from it.
pub proof fn lemma_recovery_lifetimes(stage: JobStage, updated_at: int, now: int)
    ensures
        (stage == JobStage::Captured || stage == JobStage::ReadyToDeliver || stage == JobStage::Interrupted
            || stage == JobStage::Failed) ==> {
            &&& spec_expired(stage, updated_at, now) <==> updated_at < now - 7 * 86400
            &&& spec_recovery_lifetime_days(stage) * 86400 == 7 * 86400
        },
        stage == JobStage::Cancelled ==> {
            &&& spec_expired(stage, updated_at, now) <==> updated_at < now - 86400
            &&& spec_recovery_lifetime_days(stage) * 86400 == 86400
        },
        !user_can_recover(stage) ==> !spec_expired(stage, updated_at, now),
{
}

} // verus!
