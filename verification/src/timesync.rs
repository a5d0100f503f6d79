//! Time-synchronization analysis.
//!
//! The driver samples the host clock once, queries every target device in
//! parallel, and hands the bundle of results here.  Each successful device
//! time is compared to the host clock against the configured tolerance;
//! when at least two device times are known, every unordered pair is
//! compared as well.  The verifier only reports; it never fails a batch.

use vstd::prelude::*;
use crate::errors::AppError;

verus! {

/// How one device's clock relates to the reference.
#[derive(Debug, Clone, Copy, PartialEq, Eq, Structural)]
pub enum SyncStatus {
    InSync,
    OutOfSync,
    Unknown,
}

/// One device's answer to the time query: its name and either its clock
/// in seconds since the Unix epoch or the error that prevented reading it.
#[derive(Debug)]
pub struct DeviceTimeSample {
    pub name: String,
    pub time: Result<i64, AppError>,
}

/// A synchronization snapshot: the host clock, sampled exactly once per
/// verification, and the per-device answers.
#[derive(Debug)]
pub struct TimestampBundle {
    pub host_utc: i64,
    pub samples: Vec<DeviceTimeSample>,
}

/// Per-device verdict against the host clock.
#[derive(Debug, Clone)]
pub struct DeviceSyncReport {
    pub name: String,
    pub status: SyncStatus,
    pub drift_seconds: Option<u64>,
}

/// Verdict for one unordered pair of devices with known clocks.  The
/// indices refer to the sample list.
#[derive(Debug, Clone)]
pub struct PairwiseReport {
    pub first: usize,
    pub second: usize,
    pub drift_seconds: u64,
    pub in_sync: bool,
}

/// The verifier's full report.
#[derive(Debug, Clone)]
pub struct SyncReport {
    pub per_device: Vec<DeviceSyncReport>,
    pub pairwise: Vec<PairwiseReport>,
}

pub open spec fn abs_diff(a: int, b: int) -> int {
    if a >= b {
        a - b
    } else {
        b - a
    }
}

/// The verdict for one device: in sync when its clock is known and within
/// tolerance of the host clock, out of sync when known and beyond it,
/// unknown when the query failed.
pub open spec fn status_spec(time: Result<i64, AppError>, host: int, tol: int) -> SyncStatus {
    match time {
        Ok(t) => if abs_diff(t as int, host) <= tol {
            SyncStatus::InSync
        } else {
            SyncStatus::OutOfSync
        },
        Err(_) => SyncStatus::Unknown,
    }
}

/// Whether the pair list holds a verdict for samples `a` and `b`.
pub open spec fn pair_listed(pairs: Seq<PairwiseReport>, a: int, b: int) -> bool {
    exists|k: int|
        0 <= k < pairs.len() && (#[trigger] pairs[k]).first == a && pairs[k].second == b
}

/// Computes the absolute difference of two clocks in seconds.
fn abs_diff_exec(a: i64, b: i64) -> (r: u64)
    ensures
        r == abs_diff(a as int, b as int),
{
    if a >= b {
        let d = (a as i128) - (b as i128);
        d as u64
    } else {
        let d = (b as i128) - (a as i128);
        d as u64
    }
}

/// Analyses a synchronization snapshot against the tolerance.
///
/// The report carries one verdict per sample, in order, each computed by
/// `status_spec`; and one verdict per unordered pair of successfully read
/// clocks — exactly those pairs, each flagged in sync exactly when the
/// pair's drift is within tolerance.  With fewer than two successful
/// samples the pairwise list is empty.
pub fn verify_times(bundle: &TimestampBundle, tolerance_seconds: u32) -> (r: SyncReport)
    ensures
        r.per_device@.len() == bundle.samples@.len(),
        forall|i: int|
            0 <= i < bundle.samples@.len() ==> {
                &&& (#[trigger] r.per_device@[i]).name@ == bundle.samples@[i].name@
                &&& r.per_device@[i].status == status_spec(
                    bundle.samples@[i].time,
                    bundle.host_utc as int,
                    tolerance_seconds as int,
                )
                &&& (bundle.samples@[i].time matches Ok(t) ==> r.per_device@[i].drift_seconds
                    == Some(abs_diff(t as int, bundle.host_utc as int) as u64))
                &&& (bundle.samples@[i].time is Err ==> r.per_device@[i].drift_seconds is None)
            },
        forall|k: int|
            0 <= k < r.pairwise@.len() ==> {
                let p = #[trigger] r.pairwise@[k];
                &&& 0 <= p.first < p.second < bundle.samples@.len()
                &&& bundle.samples@[p.first as int].time is Ok
                &&& bundle.samples@[p.second as int].time is Ok
                &&& (bundle.samples@[p.first as int].time matches Ok(t1)
                    && bundle.samples@[p.second as int].time matches Ok(t2) ==> {
                    &&& p.drift_seconds == abs_diff(t1 as int, t2 as int)
                    &&& p.in_sync == (abs_diff(t1 as int, t2 as int) <= tolerance_seconds as int)
                })
            },
        forall|a: int, b: int|
            0 <= a < b < bundle.samples@.len() && (#[trigger] bundle.samples@[a]).time is Ok && (
            #[trigger] bundle.samples@[b]).time is Ok ==> pair_listed(r.pairwise@, a, b),
{
    let n = bundle.samples.len();
    let mut per_device: Vec<DeviceSyncReport> = Vec::new();
    let mut i: usize = 0;
    while i < n
        invariant
            n == bundle.samples@.len(),
            0 <= i <= n,
            per_device@.len() == i,
            forall|a: int|
                0 <= a < i ==> {
                    &&& (#[trigger] per_device@[a]).name@ == bundle.samples@[a].name@
                    &&& per_device@[a].status == status_spec(
                        bundle.samples@[a].time,
                        bundle.host_utc as int,
                        tolerance_seconds as int,
                    )
                    &&& (bundle.samples@[a].time matches Ok(t) ==> per_device@[a].drift_seconds
                        == Some(abs_diff(t as int, bundle.host_utc as int) as u64))
                    &&& (bundle.samples@[a].time is Err ==> per_device@[a].drift_seconds is None)
                },
        decreases n - i,
    {
        let sample = &bundle.samples[i];
        let report = match &sample.time {
            Ok(t) => {
                let drift = abs_diff_exec(*t, bundle.host_utc);
                let status = if drift <= tolerance_seconds as u64 {
                    SyncStatus::InSync
                } else {
                    SyncStatus::OutOfSync
                };
                DeviceSyncReport { name: sample.name.clone(), status, drift_seconds: Some(drift) }
            },
            Err(_) => DeviceSyncReport {
                name: sample.name.clone(),
                status: SyncStatus::Unknown,
                drift_seconds: None,
            },
        };
        per_device.push(report);
        i = i + 1;
    }
    let mut pairwise: Vec<PairwiseReport> = Vec::new();
    let mut a: usize = 0;
    while a < n
        invariant
            n == bundle.samples@.len(),
            0 <= a <= n,
            forall|k: int|
                0 <= k < pairwise@.len() ==> {
                    let p = #[trigger] pairwise@[k];
                    &&& 0 <= p.first < p.second < bundle.samples@.len()
                    &&& bundle.samples@[p.first as int].time is Ok
                    &&& bundle.samples@[p.second as int].time is Ok
                    &&& (bundle.samples@[p.first as int].time matches Ok(t1)
                        && bundle.samples@[p.second as int].time matches Ok(t2) ==> {
                        &&& p.drift_seconds == abs_diff(t1 as int, t2 as int)
                        &&& p.in_sync == (abs_diff(t1 as int, t2 as int)
                            <= tolerance_seconds as int)
                    })
                },
            forall|x: int, y: int|
                0 <= x < y < n && x < a && (#[trigger] bundle.samples@[x]).time is Ok && (
                #[trigger] bundle.samples@[y]).time is Ok ==> pair_listed(pairwise@, x, y),
        decreases n - a,
    {
        let a_ok = match &bundle.samples[a].time {
            Ok(_) => true,
            Err(_) => false,
        };
        if a_ok {
            let mut b: usize = a + 1;
            while b < n
                invariant
                    n == bundle.samples@.len(),
                    a < b <= n,
                    a < n,
                    bundle.samples@[a as int].time is Ok,
                    forall|k: int|
                        0 <= k < pairwise@.len() ==> {
                            let p = #[trigger] pairwise@[k];
                            &&& 0 <= p.first < p.second < bundle.samples@.len()
                            &&& bundle.samples@[p.first as int].time is Ok
                            &&& bundle.samples@[p.second as int].time is Ok
                            &&& (bundle.samples@[p.first as int].time matches Ok(t1)
                                && bundle.samples@[p.second as int].time matches Ok(t2) ==> {
                                &&& p.drift_seconds == abs_diff(t1 as int, t2 as int)
                                &&& p.in_sync == (abs_diff(t1 as int, t2 as int)
                                    <= tolerance_seconds as int)
                            })
                        },
                    forall|x: int, y: int|
                        0 <= x < y < n && x < a && (#[trigger] bundle.samples@[x]).time is Ok && (
                        #[trigger] bundle.samples@[y]).time is Ok ==> pair_listed(pairwise@, x, y),
                    forall|y: int|
                        a < y < b && (#[trigger] bundle.samples@[y]).time is Ok ==> pair_listed(
                            pairwise@,
                            a as int,
                            y,
                        ),
                decreases n - b,
            {
                let ghost old_pairs = pairwise@;
                let t1 = match &bundle.samples[a].time {
                    Ok(t) => *t,
                    Err(_) => 0,
                };
                match &bundle.samples[b].time {
                    Ok(t2) => {
                        let drift = abs_diff_exec(t1, *t2);
                        let in_sync = drift <= tolerance_seconds as u64;
                        pairwise.push(
                            PairwiseReport { first: a, second: b, drift_seconds: drift, in_sync },
                        );
                        proof {
                            assert(pairwise@[pairwise@.len() - 1].first == a);
                            assert forall|x: int, y: int|
                                0 <= x < y < n && x < a && (#[trigger] bundle.samples@[x]).time
                                    is Ok && (#[trigger] bundle.samples@[y]).time
                                    is Ok implies pair_listed(pairwise@, x, y) by {
                                let k = choose|k: int|
                                    0 <= k < old_pairs.len() && (#[trigger] old_pairs[k]).first == x
                                        && old_pairs[k].second == y;
                                assert(pairwise@[k].first == x && pairwise@[k].second == y);
                            }
                            assert forall|y: int|
                                a < y < b + 1 && (#[trigger] bundle.samples@[y]).time
                                    is Ok implies pair_listed(pairwise@, a as int, y) by {
                                if y < b {
                                    let k = choose|k: int|
                                        0 <= k < old_pairs.len() && (#[trigger] old_pairs[k]).first
                                            == a && old_pairs[k].second == y;
                                    assert(pairwise@[k].first == a && pairwise@[k].second == y);
                                } else {
                                    assert(pairwise@[pairwise@.len() - 1].second == y);
                                }
                            }
                        }
                    },
                    Err(_) => {},
                }
                b = b + 1;
            }
        }
        a = a + 1;
    }
    SyncReport { per_device, pairwise }
}

/// With a single successful sample only the absolute-drift check applies:
/// the pairwise list of any report meeting the pairwise contract is empty
/// whenever fewer than two samples were read successfully.
pub proof fn lemma_single_sample_no_pairwise(bundle: TimestampBundle, r: SyncReport)
    requires
        forall|k: int|
            0 <= k < r.pairwise@.len() ==> {
                let p = #[trigger] r.pairwise@[k];
                &&& 0 <= p.first < p.second < bundle.samples@.len()
                &&& bundle.samples@[p.first as int].time is Ok
                &&& bundle.samples@[p.second as int].time is Ok
            },
        forall|x: int, y: int|
            0 <= x < y < bundle.samples@.len() && (#[trigger] bundle.samples@[x]).time is Ok && (
            #[trigger] bundle.samples@[y]).time is Ok ==> x == y,
    ensures
        r.pairwise@.len() == 0,
{
    if r.pairwise@.len() > 0 {
        let p = r.pairwise@[0];
        assert(bundle.samples@[p.first as int].time is Ok);
        assert(bundle.samples@[p.second as int].time is Ok);
        assert(p.first < p.second);
    }
}

} // verus!
