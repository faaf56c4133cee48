use ruping::host::{generate_identifier, HostAction, HostPhase, HostTask, ProbeOutcome, ReplyTag};

#[test]
fn test_identifier_generation() {
    let id1 = generate_identifier();
    let id2 = generate_identifier();
    // Very unlikely to be the same
    assert_ne!(id1, id2);
}

#[test]
fn fresh_task_has_nonzero_identifier() {
    for _ in 0..200 {
        let task = HostTask::new(4, false, false);
        assert!(task.identifier >= 1);
        assert_eq!(task.sequence, 1);
        assert_eq!(task.phase, HostPhase::Idle);
    }
}

#[test]
fn probe_loop_accounts_every_probe() {
    let mut task = HostTask::with_identifier(7, 3, false, true);
    assert_eq!(task.next_action(false), HostAction::Send(1));
    assert_eq!(task.phase, HostPhase::AwaitingReply);
    assert_eq!(task.stats.packets_sent, 1);
    assert!(task.record_outcome(ProbeOutcome::Reply(1500)));
    assert_eq!(task.next_action(false), HostAction::Send(2));
    assert!(task.record_outcome(ProbeOutcome::Timeout));
    assert_eq!(task.next_action(false), HostAction::Send(3));
    assert!(!task.record_outcome(ProbeOutcome::SendError));
    assert_eq!(task.next_action(false), HostAction::Finish);
    assert_eq!(task.phase, HostPhase::Finished);

    let s = &task.stats;
    assert_eq!(s.packets_sent, 3);
    assert_eq!(s.packets_received, 1);
    assert_eq!(s.packets_lost, 2);
    assert_eq!(s.packets_sent, s.packets_received + s.packets_lost);
    assert_eq!(task.replies.len(), 3);
    assert_eq!(task.replies[0].sequence, 1);
    assert_eq!(task.replies[0].time_us, Some(1500));
    assert_eq!(task.replies[0].tag, ReplyTag::Replied);
    assert_eq!(task.replies[1].tag, ReplyTag::TimedOut);
    assert_eq!(task.replies[1].time_us, None);
    assert_eq!(task.replies[2].tag, ReplyTag::Failed);
    assert_eq!(task.replies[2].sequence, 3);
}

#[test]
fn cancelled_task_stops_at_loop_boundary() {
    let mut task = HostTask::with_identifier(1, 10, false, false);
    assert_eq!(task.next_action(false), HostAction::Send(1));
    assert!(task.record_outcome(ProbeOutcome::Reply(10)));
    assert_eq!(task.next_action(true), HostAction::Finish);
    assert_eq!(task.stats.packets_sent, 1);
    assert_eq!(task.stats.packets_received, 1);
    assert!(task.replies.is_empty());
}

#[test]
fn continuous_task_pauses_after_every_probe() {
    let mut task = HostTask::with_identifier(1, 1, true, false);
    assert_eq!(task.next_action(false), HostAction::Send(1));
    assert!(task.record_outcome(ProbeOutcome::Timeout));
    assert_eq!(task.next_action(false), HostAction::Finish);
}

#[test]
fn zero_probe_task_finishes_at_once() {
    let mut task = HostTask::with_identifier(1, 0, false, true);
    assert_eq!(task.next_action(false), HostAction::Finish);
    assert_eq!(task.stats.packets_sent, 0);
}

#[test]
fn sequence_numbers_wrap() {
    let mut task = HostTask::with_identifier(1, 65537, false, false);
    for _ in 0..65535 {
        let _ = task.next_action(false);
        task.record_outcome(ProbeOutcome::Timeout);
    }
    assert_eq!(task.next_action(false), HostAction::Send(0));
    task.record_outcome(ProbeOutcome::Timeout);
    assert_eq!(task.next_action(false), HostAction::Send(1));
}
