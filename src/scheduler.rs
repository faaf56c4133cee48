//! Admission control over the host tasks of a run, the deadline, and the
//! aggregate of the hosts' statistics.

use crate::address::IpAddress;
use crate::host::ReplyRecord;
use crate::params::{clamped_concurrency, MAX_CONCURRENCY};
use crate::stats::{PingStatistics, StatsModel};
use vstd::prelude::*;

verus! {

/// A resolved target, probed by one host task.
#[derive(Debug, Clone)]
pub struct HostJob {
    pub name: String,
    pub address: IpAddress,
    pub is_ipv6: bool,
}

/// What a finished host task hands back.
#[derive(Debug, Clone)]
pub struct HostReport {
    pub job: HostJob,
    pub stats: PingStatistics,
    pub replies: Vec<ReplyRecord>,
}

/// Queued jobs, tasks in flight, and the reports of those that finished.
pub struct Scheduler {
    /// Jobs not started yet, in order.
    pub queue: Vec<HostJob>,
    /// Host tasks started and not yet finished.
    pub in_flight: usize,
    /// Most host tasks in flight at once.
    pub limit: usize,
    /// Reports of the tasks that finished, in order of finishing.
    pub reports: Vec<HostReport>,
    /// Tasks that ended without a report.
    pub failed: usize,
    /// The deadline passed: nothing more starts, tasks in flight are abandoned.
    pub cancelled: bool,
}

impl Scheduler {
    pub open spec fn wf(&self) -> bool {
        &&& 1 <= self.limit <= MAX_CONCURRENCY
        &&& self.in_flight <= self.limit
        &&& self.cancelled ==> self.in_flight == 0
    }

    /// A run over `jobs` with at most `concurrency` tasks in flight, brought into `1..=256`.
    pub fn new(jobs: Vec<HostJob>, concurrency: usize) -> (r: Scheduler)
        ensures
            r.wf(),
            r.queue@ == jobs@,
            r.limit == clamped_concurrency(concurrency),
            r.in_flight == 0,
            r.reports@.len() == 0,
            r.failed == 0,
            !r.cancelled,
    {
        let limit = if concurrency < 1 {
            1
        } else if concurrency > MAX_CONCURRENCY {
            MAX_CONCURRENCY
        } else {
            concurrency
        };
        Scheduler { queue: jobs, in_flight: 0, limit, reports: Vec::new(), failed: 0, cancelled: false }
    }

    /// The next queued job, when a task may start: not cancelled, fewer than
    /// `limit` in flight, and a job waiting. The job counts as in flight.
    pub fn start_next(&mut self) -> (r: Option<HostJob>)
        requires
            old(self).wf(),
        ensures
            final(self).wf(),
            final(self).limit == old(self).limit,
            final(self).cancelled == old(self).cancelled,
            final(self).reports@ == old(self).reports@,
            final(self).failed == old(self).failed,
            (!old(self).cancelled && old(self).in_flight < old(self).limit
                && old(self).queue@.len() > 0) ==> {
                &&& r == Some(old(self).queue@[0])
                &&& final(self).queue@ == old(self).queue@.drop_first()
                &&& final(self).in_flight == old(self).in_flight + 1
            },
            !(!old(self).cancelled && old(self).in_flight < old(self).limit
                && old(self).queue@.len() > 0) ==> {
                &&& r is None
                &&& final(self).queue@ == old(self).queue@
                &&& final(self).in_flight == old(self).in_flight
            },
    {
        if self.cancelled || self.in_flight >= self.limit || self.queue.len() == 0 {
            return None;
        }
        let job = self.queue.remove(0);
        assert(old(self).queue@.remove(0) =~= old(self).queue@.drop_first());
        self.in_flight = self.in_flight + 1;
        Some(job)
    }

    /// A task in flight finished with `report`.
    pub fn complete(&mut self, report: HostReport)
        requires
            old(self).wf(),
            old(self).in_flight > 0,
        ensures
            final(self).wf(),
            final(self).in_flight == old(self).in_flight - 1,
            final(self).reports@ == old(self).reports@.push(report),
            final(self).queue@ == old(self).queue@,
            final(self).limit == old(self).limit,
            final(self).failed == old(self).failed,
            final(self).cancelled == old(self).cancelled,
    {
        self.in_flight = self.in_flight - 1;
        self.reports.push(report);
    }

    /// A task in flight ended without a report.
    pub fn task_failed(&mut self)
        requires
            old(self).wf(),
            old(self).in_flight > 0,
        ensures
            final(self).wf(),
            final(self).in_flight == old(self).in_flight - 1,
            final(self).failed == old(self).failed + 1 || old(self).failed == usize::MAX,
            final(self).reports@ == old(self).reports@,
            final(self).queue@ == old(self).queue@,
            final(self).limit == old(self).limit,
            final(self).cancelled == old(self).cancelled,
    {
        self.in_flight = self.in_flight - 1;
        if self.failed < usize::MAX {
            self.failed = self.failed + 1;
        }
    }

    /// The deadline passed: no task starts any more and those in flight are
    /// abandoned; the reports of tasks that already finished are kept.
    pub fn cancel(&mut self)
        requires
            old(self).wf(),
        ensures
            final(self).wf(),
            final(self).cancelled,
            final(self).in_flight == 0,
            final(self).reports@ == old(self).reports@,
            final(self).queue@ == old(self).queue@,
            final(self).limit == old(self).limit,
            final(self).failed == old(self).failed,
    {
        self.cancelled = true;
        self.in_flight = 0;
    }

    /// Nothing is in flight and nothing more will start.
    pub fn is_done(&self) -> (r: bool)
        ensures
            r == (self.in_flight == 0 && (self.cancelled || self.queue@.len() == 0)),
    {
        self.in_flight == 0 && (self.cancelled || self.queue.len() == 0)
    }

    /// The reports of every task that finished, in order of finishing.
    pub fn into_reports(self) -> (r: Vec<HostReport>)
        ensures
            r@ == self.reports@,
    {
        self.reports
    }
}

/// The first `n` reports' statistics merged in order into an empty accumulator.
pub open spec fn merged_reports(reports: Seq<HostReport>, n: nat) -> StatsModel
    decreases n,
{
    if n == 0 {
        StatsModel::empty()
    } else {
        merged_reports(reports, (n - 1) as nat).merged(reports[n - 1].stats@)
    }
}

/// A counter of the merged statistics goes past `u32::MAX`.
pub open spec fn counters_overflow(m: StatsModel) -> bool {
    m.sent > u32::MAX || m.received > u32::MAX || m.lost > u32::MAX
}

proof fn lemma_merged_monotonic(reports: Seq<HostReport>, k: nat, n: nat)
    requires
        k <= n,
    ensures
        merged_reports(reports, k).sent <= merged_reports(reports, n).sent,
        merged_reports(reports, k).received <= merged_reports(reports, n).received,
        merged_reports(reports, k).lost <= merged_reports(reports, n).lost,
    decreases n - k,
{
    if k < n {
        lemma_merged_monotonic(reports, k, (n - 1) as nat);
    }
}

/// The aggregate over all hosts: their statistics merged in order, so that
/// percentiles, jitter and deviation range over every sample; `None` when a
/// total counter would not fit in 32 bits.
pub fn aggregate(reports: &Vec<HostReport>) -> (r: Option<PingStatistics>)
    requires
        forall|i: int| 0 <= i < reports@.len() ==> (#[trigger] reports@[i]).stats.wf(),
    ensures
        r matches Some(t) ==> t.wf() && t@ == merged_reports(reports@, reports@.len()),
        r is None <==> counters_overflow(merged_reports(reports@, reports@.len())),
{
    let mut total = PingStatistics::new();
    let n = reports.len();
    let mut i: usize = 0;
    assert(total@ == StatsModel::empty());
    while i < n
        invariant
            n == reports@.len(),
            i <= n,
            forall|k: int| 0 <= k < reports@.len() ==> (#[trigger] reports@[k]).stats.wf(),
            total.wf(),
            total@ == merged_reports(reports@, i as nat),
        decreases n - i,
    {
        let s = &reports[i].stats;
        if total.packets_sent as u64 + s.packets_sent as u64 > u32::MAX as u64
            || total.packets_received as u64 + s.packets_received as u64 > u32::MAX as u64
            || total.packets_lost as u64 + s.packets_lost as u64 > u32::MAX as u64 {
            proof {
                lemma_merged_monotonic(reports@, (i + 1) as nat, n as nat);
            }
            return None;
        }
        total.merge_from(s);
        i = i + 1;
    }
    Some(total)
}

} // verus!
