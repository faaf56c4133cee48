use ruping::address::IpAddress;
use ruping::host::{HostAction, HostTask, ProbeOutcome};
use ruping::scheduler::{aggregate, HostJob, HostReport, Scheduler};

fn job(i: u32) -> HostJob {
    HostJob { name: format!("host{}", i), address: IpAddress::V4(0x0A00_0000 + i), is_ipv6: false }
}

fn run_host(job: HostJob, rtts: &[Option<u32>]) -> HostReport {
    let mut task = HostTask::with_identifier(9, rtts.len() as u32, false, true);
    for r in rtts {
        assert!(matches!(task.next_action(false), HostAction::Send(_)));
        match r {
            Some(t) => task.record_outcome(ProbeOutcome::Reply(*t)),
            None => task.record_outcome(ProbeOutcome::Timeout),
        };
    }
    assert_eq!(task.next_action(false), HostAction::Finish);
    HostReport { job, stats: task.stats, replies: task.replies }
}

#[test]
fn concurrency_limit_two_with_five_hosts() {
    let jobs: Vec<HostJob> = (0..5).map(job).collect();
    let mut sched = Scheduler::new(jobs, 2);
    let mut running: Vec<HostJob> = Vec::new();
    let mut peak = 0;
    let mut started = Vec::new();
    loop {
        while let Some(j) = sched.start_next() {
            started.push(j.name.clone());
            running.push(j);
            assert!(sched.in_flight <= 2);
            assert_eq!(sched.in_flight, running.len());
        }
        peak = peak.max(sched.in_flight);
        if running.is_empty() {
            break;
        }
        let j = running.remove(0);
        sched.complete(run_host(j, &[Some(1000)]));
        assert!(sched.in_flight <= 2);
    }
    assert_eq!(peak, 2);
    assert!(sched.is_done());
    assert_eq!(started, vec!["host0", "host1", "host2", "host3", "host4"]);
    assert_eq!(sched.into_reports().len(), 5);
}

#[test]
fn deadline_keeps_finished_hosts() {
    let jobs: Vec<HostJob> = (0..4).map(job).collect();
    let mut sched = Scheduler::new(jobs, 2);
    let a = sched.start_next().unwrap();
    let _b = sched.start_next().unwrap();
    assert!(sched.start_next().is_none());
    sched.complete(run_host(a, &[Some(2000), None]));
    let _c = sched.start_next().unwrap();
    sched.cancel();
    assert!(sched.start_next().is_none());
    assert!(sched.is_done());
    let reports = sched.into_reports();
    assert_eq!(reports.len(), 1);
    assert_eq!(reports[0].job.name, "host0");
    assert_eq!(reports[0].stats.packets_sent, 2);
    assert_eq!(reports[0].stats.packets_received, 1);
    assert_eq!(reports[0].replies.len(), 2);
}

#[test]
fn concurrency_is_clamped() {
    assert_eq!(Scheduler::new(Vec::new(), 0).limit, 1);
    assert_eq!(Scheduler::new(Vec::new(), 1000).limit, 256);
    assert_eq!(Scheduler::new(Vec::new(), 64).limit, 64);
    let mut s = Scheduler::new(Vec::new(), 3);
    assert!(s.start_next().is_none());
    assert!(s.is_done());
}

#[test]
fn failed_task_frees_its_slot() {
    let jobs: Vec<HostJob> = (0..2).map(job).collect();
    let mut sched = Scheduler::new(jobs, 1);
    let _a = sched.start_next().unwrap();
    assert!(sched.start_next().is_none());
    sched.task_failed();
    assert_eq!(sched.failed, 1);
    assert_eq!(sched.start_next().unwrap().name, "host1");
}

#[test]
fn aggregate_covers_all_samples() {
    let reports = vec![
        run_host(job(0), &[Some(10), Some(30), None]),
        run_host(job(1), &[Some(20)]),
        run_host(job(2), &[None, None]),
    ];
    let total = aggregate(&reports).unwrap();
    assert_eq!(total.packets_sent, 6);
    assert_eq!(total.packets_received, 3);
    assert_eq!(total.packets_lost, 3);
    assert_eq!(total.min_time, 10);
    assert_eq!(total.max_time, 30);
    assert_eq!(total.average_time(), 20);
    assert_eq!(total.p50(), 20);
    assert_eq!(total.loss_percentage(), 50_000_000);
    assert!(aggregate(&Vec::new()).unwrap().packets_sent == 0);
}

#[test]
fn aggregate_reports_counter_overflow() {
    let mut a = run_host(job(0), &[None]);
    a.stats.packets_sent = u32::MAX;
    a.stats.packets_lost = u32::MAX;
    let b = run_host(job(1), &[None]);
    assert!(aggregate(&vec![a, b]).is_none());
}
