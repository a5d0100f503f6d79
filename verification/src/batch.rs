//! The capture coordinator's decision logic.
//!
//! A batch runs in phases: resolve targets, initialize the survivors,
//! format one shared capture-instant timestamp, align the shutters on a
//! barrier sized to the survivors, fan frames out to the sinks, and
//! aggregate per-device outcomes without ever aborting peers.  The
//! blocking transport work happens in the driver; every decision — what
//! to name the artifacts, when a recording aborts, how outcomes
//! aggregate — is verified here.

use vstd::prelude::*;
use crate::codec;
use crate::config::{name_of, AppSettings};
use crate::errors::AppError;
use crate::filename::{compose_filename, filename_spec};
use crate::manager::CameraManager;
use crate::sink::{join_path, joined_path};

verus! {

/// A recording aborts after this many consecutive failed frame reads.
pub const MAX_CONSECUTIVE_READ_ERRORS: u32 = 5;

/// What one read attempt of an opened stream produced.
#[derive(Debug, Clone, Copy, PartialEq, Eq, Structural)]
pub enum ReadOutcome {
    /// A frame was read and is worth writing.
    Frame,
    /// A frame was read but is empty; it is skipped, not written.
    EmptyFrame,
    /// The read failed.
    ReadError,
}

/// The running state of one device's recording loop.
#[derive(Debug, Clone, Copy, PartialEq, Eq, Structural)]
pub struct RecordProgress {
    pub frames_written: u64,
    pub consecutive_failures: u32,
    pub aborted: bool,
}

/// The initial state of a recording.
pub open spec fn record_start_spec() -> RecordProgress {
    RecordProgress { frames_written: 0, consecutive_failures: 0, aborted: false }
}

/// One step of the recording loop: a successful read resets the failure
/// budget and writes the frame unless it is empty; a failed read burns
/// one unit of the budget and aborts the recording when
/// `MAX_CONSECUTIVE_READ_ERRORS` failures occur in a row.
pub open spec fn record_step_spec(st: RecordProgress, outcome: ReadOutcome) -> RecordProgress {
    if st.aborted {
        st
    } else {
        match outcome {
            ReadOutcome::Frame => RecordProgress {
                frames_written: (st.frames_written + 1) as u64,
                consecutive_failures: 0,
                aborted: false,
            },
            ReadOutcome::EmptyFrame => RecordProgress {
                frames_written: st.frames_written,
                consecutive_failures: 0,
                aborted: false,
            },
            ReadOutcome::ReadError => RecordProgress {
                frames_written: st.frames_written,
                consecutive_failures: (st.consecutive_failures + 1) as u32,
                aborted: st.consecutive_failures + 1 >= MAX_CONSECUTIVE_READ_ERRORS,
            },
        }
    }
}

/// The state after a whole sequence of read outcomes.
pub open spec fn record_run_spec(outcomes: Seq<ReadOutcome>) -> RecordProgress
    decreases outcomes.len(),
{
    if outcomes.len() == 0 {
        record_start_spec()
    } else {
        record_step_spec(record_run_spec(outcomes.drop_last()), outcomes.last())
    }
}

impl RecordProgress {
    /// The state before the first read.
    pub fn start() -> (r: RecordProgress)
        ensures
            r == record_start_spec(),
    {
        RecordProgress { frames_written: 0, consecutive_failures: 0, aborted: false }
    }

    /// Advances the recording by one read outcome.
    pub fn step(&mut self, outcome: ReadOutcome)
        requires
            old(self).frames_written < u64::MAX,
            old(self).consecutive_failures < u32::MAX,
        ensures
            *final(self) == record_step_spec(*old(self), outcome),
    {
        if self.aborted {
            return ;
        }
        match outcome {
            ReadOutcome::Frame => {
                self.frames_written = self.frames_written + 1;
                self.consecutive_failures = 0;
            },
            ReadOutcome::EmptyFrame => {
                self.consecutive_failures = 0;
            },
            ReadOutcome::ReadError => {
                self.consecutive_failures = self.consecutive_failures + 1;
                if self.consecutive_failures >= MAX_CONSECUTIVE_READ_ERRORS {
                    self.aborted = true;
                }
            },
        }
    }
}

/// Replays a sequence of read outcomes from the initial state.
pub fn simulate_record(outcomes: &Vec<ReadOutcome>) -> (r: RecordProgress)
    requires
        outcomes@.len() < u32::MAX,
    ensures
        r == record_run_spec(outcomes@),
{
    let n = outcomes.len();
    let mut st = RecordProgress::start();
    let mut i: usize = 0;
    while i < n
        invariant
            n == outcomes@.len() < u32::MAX,
            0 <= i <= n,
            st == record_run_spec(outcomes@.subrange(0, i as int)),
            st.frames_written <= i,
            st.consecutive_failures <= i,
        decreases n - i,
    {
        st.step(outcomes[i]);
        proof {
            assert(outcomes@.subrange(0, i + 1).drop_last() =~= outcomes@.subrange(0, i as int));
        }
        i = i + 1;
    }
    proof {
        assert(outcomes@.subrange(0, n as int) =~= outcomes@);
    }
    st
}

/// Judges a finished recording.  The recording failed exactly when it
/// aborted on the read-error budget — a transport-level error; a
/// recording that wrote zero frames but did not abort succeeds with a
/// warning (the file may be left empty).
pub fn judge_recording(progress: &RecordProgress) -> (r: (Result<(), AppError>, bool))
    ensures
        r.0 is Ok <==> !progress.aborted,
        r.0 matches Err(e) ==> e is Rtsp,
        r.1 == (!progress.aborted && progress.frames_written == 0),
{
    if progress.aborted {
        (
            Err(
                AppError::Rtsp("recording aborted after consecutive frame read errors".to_owned()),
            ),
            false,
        )
    } else {
        (Ok(()), progress.frames_written == 0)
    }
}

/// A recording of zero duration plans zero frames: the replayed loop
/// writes no frame, does not abort, and the outcome is success with the
/// empty-file warning.
pub proof fn lemma_zero_duration_records_nothing()
    ensures
        record_run_spec(Seq::<ReadOutcome>::empty()) == record_start_spec(),
        !record_run_spec(Seq::<ReadOutcome>::empty()).aborted,
        record_run_spec(Seq::<ReadOutcome>::empty()).frames_written == 0,
{
}

/// Five consecutive read failures terminate the recording for that
/// device with a transport error, whatever state the loop was in; peer
/// devices are unaffected because each device runs its own loop state.
pub proof fn lemma_five_consecutive_failures_abort(st: RecordProgress)
    ensures
        ({
            let s1 = record_step_spec(st, ReadOutcome::ReadError);
            let s2 = record_step_spec(s1, ReadOutcome::ReadError);
            let s3 = record_step_spec(s2, ReadOutcome::ReadError);
            let s4 = record_step_spec(s3, ReadOutcome::ReadError);
            let s5 = record_step_spec(s4, ReadOutcome::ReadError);
            s5.aborted
        }),
{
}

/// How many read outcomes delivered a frame worth writing.
pub open spec fn count_frames(outcomes: Seq<ReadOutcome>) -> int
    decreases outcomes.len(),
{
    if outcomes.len() == 0 {
        0
    } else {
        count_frames(outcomes.drop_last()) + if outcomes.last() is Frame {
            1int
        } else {
            0int
        }
    }
}

/// How many read outcomes did not deliver a frame (failures and empties).
pub open spec fn count_non_frames(outcomes: Seq<ReadOutcome>) -> int
    decreases outcomes.len(),
{
    if outcomes.len() == 0 {
        0
    } else {
        count_non_frames(outcomes.drop_last()) + if outcomes.last() is Frame {
            0int
        } else {
            1int
        }
    }
}

/// Some window of five consecutive reads all failed: either the last
/// five reads, or such a window earlier in the sequence.
pub open spec fn has_five_consecutive_errors(outcomes: Seq<ReadOutcome>) -> bool
    decreases outcomes.len(),
{
    if outcomes.len() < 5 {
        false
    } else {
        (forall|k: int|
            outcomes.len() - 5 <= k < outcomes.len() ==> (#[trigger] outcomes[k]) is ReadError)
            || has_five_consecutive_errors(outcomes.drop_last())
    }
}

/// The length of the trailing run of failed reads.
pub open spec fn trailing_errors(outcomes: Seq<ReadOutcome>) -> int
    decreases outcomes.len(),
{
    if outcomes.len() == 0 {
        0
    } else if outcomes.last() is ReadError {
        trailing_errors(outcomes.drop_last()) + 1
    } else {
        0
    }
}

proof fn lemma_counts_partition(outcomes: Seq<ReadOutcome>)
    ensures
        count_frames(outcomes) + count_non_frames(outcomes) == outcomes.len(),
        0 <= count_frames(outcomes),
        0 <= count_non_frames(outcomes),
    decreases outcomes.len(),
{
    if outcomes.len() > 0 {
        lemma_counts_partition(outcomes.drop_last());
    }
}

proof fn lemma_trailing_errors_props(outcomes: Seq<ReadOutcome>)
    ensures
        0 <= trailing_errors(outcomes) <= outcomes.len(),
        forall|j: int|
            outcomes.len() - trailing_errors(outcomes) <= j < outcomes.len() ==> (
            #[trigger] outcomes[j]) is ReadError,
    decreases outcomes.len(),
{
    if outcomes.len() > 0 {
        let prefix = outcomes.drop_last();
        lemma_trailing_errors_props(prefix);
        assert forall|j: int|
            outcomes.len() - trailing_errors(outcomes) <= j < outcomes.len() implies (
        #[trigger] outcomes[j]) is ReadError by {
            if outcomes.last() is ReadError {
                if j < outcomes.len() - 1 {
                    assert(outcomes[j] == prefix[j]);
                    assert(prefix.len() - trailing_errors(prefix) <= j < prefix.len());
                } else {
                    assert(outcomes[j] == outcomes.last());
                }
            }
        }
    }
}

/// The invariants of a replayed recording: while it has not aborted, the
/// failure counter equals the trailing error run and every delivered
/// frame was written; and it aborts only on a five-failure run.
proof fn lemma_record_run_props(outcomes: Seq<ReadOutcome>)
    requires
        outcomes.len() <= u64::MAX,
    ensures
        ({
            let st = record_run_spec(outcomes);
            &&& (!st.aborted ==> st.consecutive_failures <= 4)
            &&& (!st.aborted ==> st.consecutive_failures == trailing_errors(outcomes))
            &&& (!st.aborted ==> st.frames_written == count_frames(outcomes))
            &&& (st.aborted ==> has_five_consecutive_errors(outcomes))
        }),
    decreases outcomes.len(),
{
    lemma_counts_partition(outcomes);
    if outcomes.len() > 0 {
        let prefix = outcomes.drop_last();
        let last = outcomes.last();
        assert(forall|k: int| 0 <= k < prefix.len() ==> #[trigger] prefix[k] == outcomes[k]);
        lemma_record_run_props(prefix);
        lemma_counts_partition(prefix);
        lemma_trailing_errors_props(prefix);
        let st0 = record_run_spec(prefix);
        let st = record_run_spec(outcomes);
        if st0.aborted {
            assert(has_five_consecutive_errors(outcomes));
        } else {
            if st.aborted {
                // the final read failed and exhausted the budget
                assert(last is ReadError);
                assert(st0.consecutive_failures >= 4);
                assert(trailing_errors(prefix) >= 4);
                assert forall|k: int|
                    outcomes.len() - 5 <= k < outcomes.len() implies (#[trigger] outcomes[k])
                    is ReadError by {
                    if k < outcomes.len() - 1 {
                        assert(outcomes[k] == prefix[k]);
                        assert(prefix.len() - trailing_errors(prefix) <= k < prefix.len());
                    } else {
                        assert(outcomes[k] == last);
                    }
                }
                assert(has_five_consecutive_errors(outcomes));
            }
        }
    }
}

/// A recording with no five-failure run never aborts, and writes exactly
/// one frame per successful read: the frames written plus the transient
/// failures and skipped empties account for every planned read, so at
/// most that many frames are missing from the plan.
pub proof fn lemma_recording_survives_transient_failures(outcomes: Seq<ReadOutcome>)
    requires
        outcomes.len() <= u64::MAX,
        !has_five_consecutive_errors(outcomes),
    ensures
        !record_run_spec(outcomes).aborted,
        record_run_spec(outcomes).frames_written == count_frames(outcomes),
        record_run_spec(outcomes).frames_written + count_non_frames(outcomes) == outcomes.len(),
{
    lemma_record_run_props(outcomes);
    lemma_counts_partition(outcomes);
}

/// One device's planned part of a batch: its registry handle, its name,
/// and the artifact filename seeded with the batch's shared timestamp.
#[derive(Debug, Clone)]
pub struct PlannedCapture {
    pub device_index: usize,
    pub name: String,
    pub filename: String,
}

/// Plans one batch: one planned capture per surviving target, in target
/// order, every filename carrying the same timestamp token.
pub fn plan_batch(manager: &CameraManager, targets: &Vec<usize>, ts: &str, ext: &str) -> (r: Vec<
    PlannedCapture,
>)
    requires
        forall|i: int| 0 <= i < targets@.len() ==> #[trigger] targets@[i] < manager.devices@.len(),
    ensures
        r@.len() == targets@.len(),
        forall|i: int|
            0 <= i < r@.len() ==> {
                &&& (#[trigger] r@[i]).device_index == targets@[i]
                &&& r@[i].name@ == name_of(manager.devices@[targets@[i] as int])
                &&& r@[i].filename@ == filename_spec(
                    name_of(manager.devices@[targets@[i] as int]),
                    ts@,
                    ext@,
                )
            },
{
    let n = targets.len();
    let mut plan: Vec<PlannedCapture> = Vec::new();
    let mut i: usize = 0;
    while i < n
        invariant
            n == targets@.len(),
            0 <= i <= n,
            forall|k: int| 0 <= k < n ==> #[trigger] targets@[k] < manager.devices@.len(),
            plan@.len() == i,
            forall|k: int|
                0 <= k < i ==> {
                    &&& (#[trigger] plan@[k]).device_index == targets@[k]
                    &&& plan@[k].name@ == name_of(manager.devices@[targets@[k] as int])
                    &&& plan@[k].filename@ == filename_spec(
                        name_of(manager.devices@[targets@[k] as int]),
                        ts@,
                        ext@,
                    )
                },
        decreases n - i,
    {
        let idx = targets[i];
        let name = manager.device(idx).get_name().clone();
        let filename = compose_filename(name.as_str(), ts, ext);
        plan.push(PlannedCapture { device_index: idx, name, filename });
        i = i + 1;
    }
    plan
}

/// Every filename a batch plan carries shares the batch's timestamp
/// token: each one is `{name}_{ts}.{ext}` for the one `ts` the plan was
/// seeded with.
pub proof fn lemma_batch_filenames_share_ts(
    plan: Seq<PlannedCapture>,
    names: Seq<Seq<char>>,
    ts: Seq<char>,
    ext: Seq<char>,
)
    requires
        names.len() == plan.len(),
        forall|i: int|
            0 <= i < plan.len() ==> (#[trigger] plan[i]).filename@ == filename_spec(
                names[i],
                ts,
                ext,
            ),
    ensures
        forall|i: int, j: int|
            0 <= i < plan.len() && 0 <= j < plan.len() ==> (#[trigger] plan[i]).filename@
                .subrange(
                names[i].len() as int,
                plan[i].filename@.len() as int,
            ) == (#[trigger] plan[j]).filename@.subrange(
                names[j].len() as int,
                plan[j].filename@.len() as int,
            ),
{
    assert forall|i: int|
        0 <= i < plan.len() implies (#[trigger] plan[i]).filename@.subrange(
        names[i].len() as int,
        plan[i].filename@.len() as int,
    ) == "_"@ + ts + "."@ + ext by {
        assert(plan[i].filename@ == names[i] + ("_"@ + ts + "."@ + ext)) by {
            assert(names[i] + ("_"@ + ts + "."@ + ext) =~= filename_spec(names[i], ts, ext));
        }
        assert(plan[i].filename@.subrange(names[i].len() as int, plan[i].filename@.len() as int)
            =~= "_"@ + ts + "."@ + ext);
    }
}

/// The outcome entry built for position `i` of a snapshot batch: the
/// planned name; on worker success exactly one artifact, at the planned
/// filename under the output directory; on failure the worker's own
/// error, unchanged.
pub open spec fn snapshot_outcome_matches(
    plan: Seq<PlannedCapture>,
    out_dir: Seq<char>,
    results: Seq<Result<(), AppError>>,
    i: int,
    o: DeviceOutcome,
) -> bool {
    &&& o.name@ == plan[i].name@
    &&& (results[i] is Ok ==> (o.result matches Ok(paths) && paths@.len() == 1 && paths@[0]@
        == joined_path(out_dir, plan[i].filename@)))
    &&& (results[i] matches Err(e) ==> (o.result matches Err(e2) && e2 == e))
}

/// Builds the per-device outcomes of a snapshot batch from the plan and
/// the workers' reports, in plan order.  A worker that succeeded
/// produced exactly one artifact, at its planned filename under the
/// output directory — the link under which the batch's filenames equal
/// its successes (see `lemma_filenames_match_successes`); a worker's
/// error passes through unchanged.
pub fn collect_snapshot_outcomes(
    plan: &Vec<PlannedCapture>,
    out_dir: &str,
    results: Vec<Result<(), AppError>>,
) -> (r: Vec<DeviceOutcome>)
    requires
        results@.len() == plan@.len(),
    ensures
        r@.len() == plan@.len(),
        forall|i: int|
            0 <= i < r@.len() ==> snapshot_outcome_matches(
                plan@,
                out_dir@,
                results@,
                i,
                #[trigger] r@[i],
            ),
{
    let ghost orig = results@;
    let n = plan.len();
    let mut results = results;
    let mut stack: Vec<DeviceOutcome> = Vec::new();
    while results.len() > 0
        invariant
            orig.len() == plan@.len() == n,
            results@ == orig.subrange(0, results@.len() as int),
            stack@.len() + results@.len() == n,
            forall|k: int|
                0 <= k < stack@.len() ==> snapshot_outcome_matches(
                    plan@,
                    out_dir@,
                    orig,
                    n - 1 - k,
                    #[trigger] stack@[k],
                ),
        decreases results@.len(),
    {
        let idx = results.len() - 1;
        let res = results.pop().unwrap();
        proof {
            assert(res == orig[idx as int]);
            assert(results@ =~= orig.subrange(0, idx as int));
        }
        let outcome = match res {
            Ok(()) => {
                let mut paths: Vec<String> = Vec::new();
                paths.push(join_path(out_dir, plan[idx].filename.as_str()));
                DeviceOutcome { name: plan[idx].name.clone(), result: Ok(paths) }
            },
            Err(e) => DeviceOutcome { name: plan[idx].name.clone(), result: Err(e) },
        };
        stack.push(outcome);
    }
    let mut out: Vec<DeviceOutcome> = Vec::new();
    while stack.len() > 0
        invariant
            orig.len() == plan@.len() == n,
            out@.len() + stack@.len() == n,
            forall|k: int|
                0 <= k < stack@.len() ==> snapshot_outcome_matches(
                    plan@,
                    out_dir@,
                    orig,
                    n - 1 - k,
                    #[trigger] stack@[k],
                ),
            forall|i: int|
                0 <= i < out@.len() ==> snapshot_outcome_matches(
                    plan@,
                    out_dir@,
                    orig,
                    i,
                    #[trigger] out@[i],
                ),
        decreases stack@.len(),
    {
        let o = stack.pop().unwrap();
        out.push(o);
    }
    out
}

/// What one device's worker reported back to the coordinator.
#[derive(Debug)]
pub struct DeviceOutcome {
    pub name: String,
    /// The artifact paths written for this device, or the device's error.
    pub result: Result<Vec<String>, AppError>,
}

/// The aggregate verdict over a batch.
#[derive(Debug, Clone, Copy, PartialEq, Eq, Structural)]
pub enum BatchStatus {
    AllOk,
    Partial,
    AllFailed,
}

/// The batch outcome: one entry per device plus the aggregate status.
#[derive(Debug)]
pub struct BatchOutcome {
    pub outcomes: Vec<DeviceOutcome>,
    pub status: BatchStatus,
}

/// How many devices succeeded.
pub open spec fn ok_count(outcomes: Seq<DeviceOutcome>) -> int
    decreases outcomes.len(),
{
    if outcomes.len() == 0 {
        0
    } else {
        ok_count(outcomes.drop_last()) + if outcomes.last().result is Ok {
            1int
        } else {
            0int
        }
    }
}

/// The aggregate status: every device succeeded (vacuously for an empty
/// batch), none did, or some did.
pub open spec fn status_of_outcomes(outcomes: Seq<DeviceOutcome>) -> BatchStatus {
    if ok_count(outcomes) == outcomes.len() {
        BatchStatus::AllOk
    } else if ok_count(outcomes) == 0 {
        BatchStatus::AllFailed
    } else {
        BatchStatus::Partial
    }
}

/// All artifact filenames of the successful outcomes, in batch order.
pub open spec fn batch_filenames(outcomes: Seq<DeviceOutcome>) -> Seq<Seq<char>>
    decreases outcomes.len(),
{
    if outcomes.len() == 0 {
        Seq::empty()
    } else {
        batch_filenames(outcomes.drop_last()) + (match outcomes.last().result {
            Ok(paths) => paths@.map_values(|p: String| p@),
            Err(_) => Seq::empty(),
        })
    }
}

/// Aggregates per-device outcomes into the batch outcome.  The
/// coordinator itself succeeds whatever the per-device results are: an
/// empty target set yields an empty outcome with every-device-succeeded
/// status and no artifacts.
pub fn aggregate_outcomes(outcomes: Vec<DeviceOutcome>) -> (r: BatchOutcome)
    ensures
        r.outcomes == outcomes,
        r.status == status_of_outcomes(outcomes@),
        outcomes@.len() == 0 ==> (r.status == BatchStatus::AllOk && batch_filenames(outcomes@)
            == Seq::<Seq<char>>::empty()),
{
    let n = outcomes.len();
    let mut ok: usize = 0;
    let mut i: usize = 0;
    while i < n
        invariant
            n == outcomes@.len(),
            0 <= i <= n,
            ok == ok_count(outcomes@.subrange(0, i as int)),
            ok <= i,
        decreases n - i,
    {
        let is_ok = match &outcomes[i].result {
            Ok(_) => true,
            Err(_) => false,
        };
        if is_ok {
            ok = ok + 1;
        }
        proof {
            assert(outcomes@.subrange(0, i + 1).drop_last() =~= outcomes@.subrange(0, i as int));
            assert(outcomes@.subrange(0, i + 1).last() == outcomes@[i as int]);
        }
        i = i + 1;
    }
    proof {
        assert(outcomes@.subrange(0, n as int) =~= outcomes@);
    }
    let status = if ok == n {
        BatchStatus::AllOk
    } else if ok == 0 {
        BatchStatus::AllFailed
    } else {
        BatchStatus::Partial
    };
    proof {
        lemma_ok_count_bounds(outcomes@);
    }
    BatchOutcome { outcomes, status }
}

proof fn lemma_ok_count_bounds(outcomes: Seq<DeviceOutcome>)
    ensures
        0 <= ok_count(outcomes) <= outcomes.len(),
    decreases outcomes.len(),
{
    if outcomes.len() > 0 {
        lemma_ok_count_bounds(outcomes.drop_last());
    }
}

/// In a batch whose workers write exactly one artifact per success, the
/// number of artifact filenames equals the number of successful
/// outcomes.
pub proof fn lemma_filenames_match_successes(outcomes: Seq<DeviceOutcome>)
    requires
        forall|i: int|
            0 <= i < outcomes.len() ==> ((#[trigger] outcomes[i]).result matches Ok(paths)
                ==> paths@.len() == 1),
    ensures
        batch_filenames(outcomes).len() == ok_count(outcomes),
    decreases outcomes.len(),
{
    if outcomes.len() > 0 {
        lemma_filenames_match_successes(outcomes.drop_last());
        assert(outcomes.last() == outcomes[outcomes.len() - 1]);
    }
}

/// The synchronous shutter barrier, modelled by its protocol state: how
/// many workers it waits for, how many have arrived, and whether it has
/// released.  It is scoped to a single batch and sized to the batch's
/// survivors.
#[derive(Debug, Clone, Copy, PartialEq, Eq, Structural)]
pub struct ShutterSync {
    pub parties: usize,
    pub arrived: usize,
    pub released: bool,
}

impl ShutterSync {
    /// The barrier releases exactly when every party has arrived.
    pub open spec fn wf(self) -> bool {
        &&& self.arrived <= self.parties
        &&& (self.released <==> self.arrived == self.parties)
    }

    /// A fresh barrier for `parties` workers.
    pub fn new(parties: usize) -> (r: ShutterSync)
        requires
            parties >= 1,
        ensures
            r.wf(),
            r.parties == parties,
            r.arrived == 0,
            !r.released,
    {
        ShutterSync { parties, arrived: 0, released: false }
    }

    /// One worker finishes its pre-grab setup and arrives at the barrier.
    /// The result says whether this arrival released the barrier.
    pub fn arrive(&mut self) -> (r: bool)
        requires
            old(self).wf(),
            old(self).arrived < old(self).parties,
        ensures
            final(self).wf(),
            final(self).parties == old(self).parties,
            final(self).arrived == old(self).arrived + 1,
            r == final(self).released,
    {
        self.arrived = self.arrived + 1;
        self.released = self.arrived == self.parties;
        self.released
    }
}

/// No worker begins its read before all peers are ready: a released
/// barrier implies that every party has arrived, so a read gated on the
/// release cannot precede any peer's arrival.
pub proof fn lemma_no_read_before_barrier_release(s: ShutterSync)
    requires
        s.wf(),
        s.released,
    ensures
        s.arrived == s.parties,
{
}

/// The per-batch recording parameters derived from the settings.
#[derive(Debug, Clone)]
pub struct RecordPlan {
    pub fourcc: String,
    pub warn_unknown_codec: bool,
    pub fps: u32,
    pub warn_fps: bool,
    pub num_frames: u64,
    pub filename: String,
}

/// Derives one device's recording parameters: the four-character codec
/// code from the codec table, the configured frame rate (30 when unset;
/// a warning when the device reported a non-positive rate), the planned
/// frame count `fps * duration`, and the artifact filename seeded with
/// the batch timestamp.  A configured frame rate of zero cannot drive a
/// writer and is rejected as a configuration error.
pub fn plan_recording(
    settings: &AppSettings,
    name: &str,
    ts: &str,
    duration_seconds: u64,
    device_fps_positive: bool,
) -> (r: Result<RecordPlan, AppError>)
    requires
        ({
            let fps = match settings.video_fps {
                Some(f) => f,
                None => 30u32,
            };
            (fps as int) * (duration_seconds as int) <= u64::MAX
        }),
    ensures
        r is Ok <==> crate::realsense::or_default(settings.video_fps, 30) > 0,
        r matches Ok(p) ==> {
            &&& p.fourcc@ == codec::fourcc_spec(settings.video_codec@, settings.video_format@)
            &&& p.warn_unknown_codec == !codec::fourcc_known(
                settings.video_codec@,
                settings.video_format@,
            )
            &&& p.fps == crate::realsense::or_default(settings.video_fps, 30)
            &&& p.warn_fps == !device_fps_positive
            &&& p.num_frames == (p.fps as int) * (duration_seconds as int)
            &&& p.filename@ == filename_spec(name@, ts@, settings.video_format@)
        },
        r matches Err(e) ==> e is Config,
{
    let fps: u32 = match settings.video_fps {
        Some(f) => f,
        None => 30,
    };
    if fps == 0 {
        return Err(AppError::Config("configured video fps must be positive".to_owned()));
    }
    let (fourcc, warn_unknown_codec) = codec::map_codec_to_fourcc(
        settings.video_codec.as_str(),
        settings.video_format.as_str(),
    );
    let num_frames = (fps as u64) * duration_seconds;
    let filename = compose_filename(name, ts, settings.video_format.as_str());
    Ok(
        RecordPlan {
            fourcc,
            warn_unknown_codec,
            fps,
            warn_fps: !device_fps_positive,
            num_frames,
            filename,
        },
    )
}

/// Validates the frame dimensions the device reported before a writer is
/// opened: both must be positive (and fit the writer's 32-bit sizes).
pub fn check_frame_dimensions(width: i64, height: i64) -> (r: Result<(u32, u32), AppError>)
    ensures
        r is Ok <==> (0 < width <= u32::MAX && 0 < height <= u32::MAX),
        r matches Ok(d) ==> d.0 == width && d.1 == height,
        r matches Err(e) ==> e is OpenCV,
{
    if width <= 0 || height <= 0 || width > u32::MAX as i64 || height > u32::MAX as i64 {
        return Err(AppError::OpenCV("invalid frame dimensions reported by the device".to_owned()));
    }
    Ok((width as u32, height as u32))
}

/// The table of streams the media manager has opened, one per device,
/// created lazily on first use and never duplicated.
#[derive(Debug)]
pub struct CameraMediaManager {
    pub open_streams: Vec<String>,
}

/// Whether a stream is already open under this name.
pub open spec fn has_stream(streams: Seq<String>, name: Seq<char>) -> bool {
    exists|i: int| 0 <= i < streams.len() && (#[trigger] streams[i])@ == name
}

impl CameraMediaManager {
    /// Stream names are unique: at most one handle per logical device.
    pub open spec fn wf(self) -> bool {
        forall|i: int, j: int|
            0 <= i < j < self.open_streams@.len() ==> (#[trigger] self.open_streams@[i])@ != (
            #[trigger] self.open_streams@[j])@
    }

    /// A fresh manager with no open streams.
    pub fn new() -> (r: CameraMediaManager)
        ensures
            r.wf(),
            r.open_streams@.len() == 0,
    {
        CameraMediaManager { open_streams: Vec::new() }
    }

    /// Registers the stream for `name`, opening it on first use.  Returns
    /// true when a handle already existed and is reused.  Existing
    /// handles are never dropped or duplicated.
    pub fn get_or_init(&mut self, name: &str) -> (r: bool)
        requires
            old(self).wf(),
        ensures
            final(self).wf(),
            r == has_stream(old(self).open_streams@, name@),
            has_stream(final(self).open_streams@, name@),
            r ==> final(self).open_streams@ == old(self).open_streams@,
            !r ==> {
                &&& final(self).open_streams@.len() == old(self).open_streams@.len() + 1
                &&& final(self).open_streams@.subrange(0, old(self).open_streams@.len() as int)
                    == old(self).open_streams@
                &&& final(self).open_streams@.last()@ == name@
            },
    {
        let n = self.open_streams.len();
        let mut i: usize = 0;
        while i < n
            invariant
                self.wf(),
                *self == *old(self),
                n == self.open_streams@.len(),
                0 <= i <= n,
                forall|k: int| 0 <= k < i ==> (#[trigger] self.open_streams@[k])@ != name@,
            decreases n - i,
        {
            if crate::config::str_eq(self.open_streams[i].as_str(), name) {
                proof {
                    assert((self.open_streams@[i as int])@ == name@);
                    assert(has_stream(self.open_streams@, name@));
                }
                return true;
            }
            i = i + 1;
        }
        let ghost pre = self.open_streams@;
        self.open_streams.push(name.to_owned());
        proof {
            assert(self.open_streams@.last()@ == name@);
            assert(self.open_streams@.subrange(0, pre.len() as int) =~= pre);
            assert forall|a: int, b: int|
                0 <= a < b < self.open_streams@.len() implies (#[trigger] self.open_streams@[a])@
                != (#[trigger] self.open_streams@[b])@ by {
                if b < pre.len() {
                } else {
                    assert(self.open_streams@[b]@ == name@);
                    assert(self.open_streams@[a]@ != name@);
                }
            }
        }
        false
    }
}

/// A credential is resolved from the driver's environment lookup: present
/// means the device can authenticate, absent is a per-device credential
/// error that leaves the rest of the batch untouched.
pub fn resolve_credential(name: &str, env_value: Option<String>) -> (r: Result<String, AppError>)
    ensures
        r is Ok <==> env_value is Some,
        r matches Ok(p) ==> (env_value matches Some(v) && p@ == v@),
        r matches Err(e) ==> e is Authentication,
{
    match env_value {
        Some(v) => Ok(v),
        None => Err(
            AppError::Authentication {
                camera_name: name.to_owned(),
                details: "password environment variable not set".to_owned(),
            },
        ),
    }
}

} // verus!
