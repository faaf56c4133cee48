//! The probe loop of one host as a state machine: the caller performs each
//! action (send and wait, pause, stop) and hands back what happened.

use crate::stats::{PingStatistics, StatsModel};
use rand::Rng;
use vstd::prelude::*;

verus! {

/// Relies on `rand::thread_rng` and `Rng::gen_range`: a value drawn from `1..=65535`.
#[verifier::external_body]
pub fn generate_identifier() -> (r: u16)
    ensures
        r >= 1,
{
    rand::thread_rng().gen_range(1..=65535)
}

/// What became of one probe.
#[derive(Debug, Clone, Copy, PartialEq, Eq, Structural)]
pub enum ProbeOutcome {
    /// The matching reply arrived after this many microseconds.
    Reply(u32),
    /// No matching reply within the timeout.
    Timeout,
    /// The probe could not be sent.
    SendError,
}

/// How a probe ended, for the reply log.
#[derive(Debug, Clone, Copy, PartialEq, Eq, Structural)]
pub enum ReplyTag {
    Replied,
    TimedOut,
    Failed,
}

/// One entry of a host's reply log.
#[derive(Debug, Clone, Copy, PartialEq, Eq, Structural)]
pub struct ReplyRecord {
    pub sequence: u16,
    /// Round trip in microseconds, for an answered probe.
    pub time_us: Option<u32>,
    pub tag: ReplyTag,
}

/// The log entry for a probe's outcome.
pub open spec fn record_of(sequence: u16, outcome: ProbeOutcome) -> ReplyRecord {
    match outcome {
        ProbeOutcome::Reply(t) => ReplyRecord { sequence, time_us: Some(t), tag: ReplyTag::Replied },
        ProbeOutcome::Timeout => ReplyRecord { sequence, time_us: None, tag: ReplyTag::TimedOut },
        ProbeOutcome::SendError => ReplyRecord { sequence, time_us: None, tag: ReplyTag::Failed },
    }
}

/// The accumulator after a probe's outcome is recorded.
pub open spec fn recorded(m: StatsModel, outcome: ProbeOutcome) -> StatsModel {
    match outcome {
        ProbeOutcome::Reply(t) => m.with_sample(t),
        _ => m.with_lost(),
    }
}

/// Where a host task stands.
#[derive(Debug, Clone, Copy, PartialEq, Eq, Structural)]
pub enum HostPhase {
    /// Between probes.
    Idle,
    /// A probe is out; its outcome is awaited.
    AwaitingReply,
    /// No more probes.
    Finished,
}

/// What the caller is to do next for a host.
#[derive(Debug, Clone, Copy, PartialEq, Eq, Structural)]
pub enum HostAction {
    /// Send the probe with this sequence number and wait for its outcome.
    Send(u16),
    /// The host is done.
    Finish,
}

/// One host's sequential probe loop.
pub struct HostTask {
    /// Tag carried by every probe of this host.
    pub identifier: u16,
    /// Sequence number of the next (or outstanding) probe.
    pub sequence: u16,
    /// Probes to send.
    pub count: u32,
    /// Whether the pause also follows the last probe.
    pub continuous: bool,
    /// Probes whose outcome has been recorded.
    pub completed: u32,
    pub phase: HostPhase,
    pub stats: PingStatistics,
    /// Whether a reply log is kept.
    pub keep_replies: bool,
    pub replies: Vec<ReplyRecord>,
}

impl HostTask {
    /// The task's invariant: every probe sent is answered, lost, or the one outstanding.
    pub open spec fn wf(&self) -> bool {
        &&& self.stats.wf()
        &&& self.completed <= self.count
        &&& self.sequence == (1 + self.completed) % 0x10000
        &&& self.keep_replies ==> self.replies@.len() == self.completed
        &&& !self.keep_replies ==> self.replies@.len() == 0
        &&& match self.phase {
            HostPhase::AwaitingReply => {
                &&& self.completed < self.count
                &&& self.stats@.sent == self.completed + 1
                &&& self.stats@.sent == self.stats@.received + self.stats@.lost + 1
            },
            _ => {
                &&& self.stats@.sent == self.completed
                &&& self.stats@.balanced()
            },
        }
    }

    /// A task with the given identifier that has sent nothing yet; its first probe has sequence 1.
    pub fn with_identifier(identifier: u16, count: u32, continuous: bool, keep_replies: bool) -> (r:
        HostTask)
        ensures
            r.wf(),
            r.identifier == identifier,
            r.count == count,
            r.continuous == continuous,
            r.keep_replies == keep_replies,
            r.completed == 0,
            r.sequence == 1,
            r.phase == HostPhase::Idle,
            r.stats@.sent == 0 && r.stats@.received == 0 && r.stats@.lost == 0,
    {
        HostTask {
            identifier,
            sequence: 1,
            count,
            continuous,
            completed: 0,
            phase: HostPhase::Idle,
            stats: PingStatistics::new(),
            keep_replies,
            replies: Vec::new(),
        }
    }

    /// A task with a freshly drawn, non-zero identifier.
    pub fn new(count: u32, continuous: bool, keep_replies: bool) -> (r: HostTask)
        ensures
            r.wf(),
            r.identifier >= 1,
            r.count == count,
            r.continuous == continuous,
            r.keep_replies == keep_replies,
            r.completed == 0,
            r.sequence == 1,
            r.phase == HostPhase::Idle,
            r.stats@.sent == 0 && r.stats@.received == 0 && r.stats@.lost == 0,
    {
        let identifier = generate_identifier();
        Self::with_identifier(identifier, count, continuous, keep_replies)
    }

    /// Decides the next step between probes: stop when cancelled or when all
    /// probes are done, otherwise count the next probe as sent and ask for it.
    pub fn next_action(&mut self, cancelled: bool) -> (r: HostAction)
        requires
            old(self).wf(),
            old(self).phase == HostPhase::Idle,
        ensures
            final(self).wf(),
            (cancelled || old(self).completed == old(self).count) ==> {
                &&& r == HostAction::Finish
                &&& final(self).phase == HostPhase::Finished
                &&& final(self).stats == old(self).stats
            },
            !(cancelled || old(self).completed == old(self).count) ==> {
                &&& r == HostAction::Send(old(self).sequence)
                &&& final(self).phase == HostPhase::AwaitingReply
                &&& final(self).stats@ == old(self).stats@.with_sent()
            },
            final(self).completed == old(self).completed,
            final(self).sequence == old(self).sequence,
            final(self).identifier == old(self).identifier,
            final(self).count == old(self).count,
            final(self).continuous == old(self).continuous,
            final(self).keep_replies == old(self).keep_replies,
            final(self).replies@ == old(self).replies@,
    {
        if cancelled || self.completed == self.count {
            self.phase = HostPhase::Finished;
            return HostAction::Finish;
        }
        self.stats.record_sent();
        self.phase = HostPhase::AwaitingReply;
        HostAction::Send(self.sequence)
    }

    /// Records the outcome of the outstanding probe and moves to the next
    /// sequence number (mod 65536). Returns whether to pause before the next
    /// step: after every probe but the last, and always when continuous.
    pub fn record_outcome(&mut self, outcome: ProbeOutcome) -> (pause: bool)
        requires
            old(self).wf(),
            old(self).phase == HostPhase::AwaitingReply,
        ensures
            final(self).wf(),
            final(self).phase == HostPhase::Idle,
            final(self).stats@ == recorded(old(self).stats@, outcome),
            final(self).completed == old(self).completed + 1,
            final(self).sequence == (old(self).sequence + 1) % 0x10000,
            final(self).replies@ == if old(self).keep_replies {
                old(self).replies@.push(record_of(old(self).sequence, outcome))
            } else {
                old(self).replies@
            },
            final(self).identifier == old(self).identifier,
            final(self).count == old(self).count,
            final(self).continuous == old(self).continuous,
            final(self).keep_replies == old(self).keep_replies,
            pause == (old(self).continuous || final(self).completed < old(self).count),
    {
        let record = match outcome {
            ProbeOutcome::Reply(t) => {
                self.stats.record_received(t);
                ReplyRecord { sequence: self.sequence, time_us: Some(t), tag: ReplyTag::Replied }
            },
            ProbeOutcome::Timeout => {
                self.stats.record_lost();
                ReplyRecord { sequence: self.sequence, time_us: None, tag: ReplyTag::TimedOut }
            },
            ProbeOutcome::SendError => {
                self.stats.record_lost();
                ReplyRecord { sequence: self.sequence, time_us: None, tag: ReplyTag::Failed }
            },
        };
        if self.keep_replies {
            self.replies.push(record);
        }
        self.sequence = self.sequence.wrapping_add(1);
        self.completed = self.completed + 1;
        self.phase = HostPhase::Idle;
        self.continuous || self.completed < self.count
    }
}

/// Whenever a host task is not waiting on a probe, every probe it sent was
/// either answered or counted lost, and it lost no more than it sent.
pub proof fn lemma_loss_accounting(task: HostTask)
    requires
        task.wf(),
        task.phase != HostPhase::AwaitingReply,
    ensures
        task.stats@.sent == task.stats@.received + task.stats@.lost,
        task.stats@.lost <= task.stats@.sent,
{
}

} // verus!
