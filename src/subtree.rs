//! Building the supervised subtree inside a new child.
//!
//! The child makes a watchdog process that blocks on a guard pipe whose only
//! write end it hands to the parent, and, where it did not start as the
//! leader of its own process group, a retainer that holds the original group
//! meanwhile. The steps, what a failure kills, and what the watchdog does
//! when it wakes are decided here; the caller makes the system calls.
use vstd::prelude::*;
use crate::process::{EINTR, SIGKILL, SIGSTOP};

verus! {

/// What the watchdog does after a read on the guard pipe came back.
#[derive(Clone, Copy, Debug, PartialEq, Eq, Structural)]
pub enum WatchdogStep {
    /// Block on the pipe again.
    ReadAgain,
    /// Kill the supervised child, then the watchdog itself.
    KillAll,
}

/// Decides after a read on the guard pipe (`Ok`: the number of bytes read).
/// End of stream means every copy of the write end is closed, so the child
/// is no longer supervised: kill it. An interruption or stray bytes mean
/// nothing: read again. Any other failure leaves the watchdog blind, so it
/// kills rather than let the child outlive its supervision.
pub fn watchdog_step(read: Result<usize, i32>) -> (r: WatchdogStep)
    ensures
        r == WatchdogStep::ReadAgain <==> (read == Err::<usize, i32>(EINTR) || (read is Ok
            && read->Ok_0 > 0)),
{
    match read {
        Ok(n) => {
            if n == 0 {
                WatchdogStep::KillAll
            } else {
                WatchdogStep::ReadAgain
            }
        },
        Err(e) => {
            if e == EINTR {
                WatchdogStep::ReadAgain
            } else {
                WatchdogStep::KillAll
            }
        },
    }
}

/// One step of building the supervised subtree inside the new child.
#[derive(Clone, Copy, Debug, PartialEq, Eq, Structural)]
pub enum Phase {
    /// Give the child-exit signal its default disposition, keeping the old one.
    ResetChildSignal,
    /// Open the pipe on which the group retainer will block.
    OpenRetainerPipe,
    /// Fork the group retainer, which holds the original process group.
    ForkRetainer,
    /// Close the retainer pipe's read end and move into a new process group.
    EnterNewGroup,
    /// Open the guard pipe.
    OpenGuardPipe,
    /// Block every signal that can be blocked.
    BlockSignals,
    /// Fork the watchdog, which blocks on the guard pipe's read end.
    ForkWatchdog,
    /// Restore the signal mask and close the guard pipe's read end.
    RestoreMask,
    /// Send the guard pipe's write end to the parent, then close the channel
    /// and the local copy of that end.
    SendGuard,
    /// Join the retainer's group again, as the retainer reports it, and check
    /// that the retainer still exists.
    RejoinGroup,
    /// Kill and reap the retainer.
    ReleaseRetainer,
    /// Put back the child-exit signal's old disposition.
    RestoreChildSignal,
    /// The subtree stands: continue as the child.
    Finished,
    /// A step failed: kill every helper made so far, then this process.
    Aborted,
}

/// How a step went, as the process that made it saw it.
#[derive(Clone, Copy, Debug, PartialEq, Eq, Structural)]
pub enum Report {
    /// The step succeeded.
    Done,
    /// A fork step succeeded; this is the new helper's pid.
    Forked(i32),
    /// The step failed.
    Failed,
}

/// Whether the step forks a helper.
pub open spec fn is_fork(p: Phase) -> bool {
    p == Phase::ForkRetainer || p == Phase::ForkWatchdog
}

/// Whether the step exists only to keep the original process group.
pub open spec fn is_retainer_step(p: Phase) -> bool {
    ||| p == Phase::OpenRetainerPipe
    ||| p == Phase::ForkRetainer
    ||| p == Phase::EnterNewGroup
    ||| p == Phase::RejoinGroup
    ||| p == Phase::ReleaseRetainer
}

/// The position of a step in the sequence.
pub open spec fn stage(p: Phase) -> int {
    match p {
        Phase::ResetChildSignal => 0,
        Phase::OpenRetainerPipe => 1,
        Phase::ForkRetainer => 2,
        Phase::EnterNewGroup => 3,
        Phase::OpenGuardPipe => 4,
        Phase::BlockSignals => 5,
        Phase::ForkWatchdog => 6,
        Phase::RestoreMask => 7,
        Phase::SendGuard => 8,
        Phase::RejoinGroup => 9,
        Phase::ReleaseRetainer => 10,
        Phase::RestoreChildSignal => 11,
        Phase::Finished => 12,
        Phase::Aborted => 13,
    }
}

/// The step after a successful `p`. The retainer's steps are taken only when
/// the child did not start as the leader of its own process group.
pub open spec fn following(p: Phase, with_retainer: bool) -> Phase {
    match p {
        Phase::ResetChildSignal => if with_retainer {
            Phase::OpenRetainerPipe
        } else {
            Phase::OpenGuardPipe
        },
        Phase::OpenRetainerPipe => Phase::ForkRetainer,
        Phase::ForkRetainer => Phase::EnterNewGroup,
        Phase::EnterNewGroup => Phase::OpenGuardPipe,
        Phase::OpenGuardPipe => Phase::BlockSignals,
        Phase::BlockSignals => Phase::ForkWatchdog,
        Phase::ForkWatchdog => Phase::RestoreMask,
        Phase::RestoreMask => Phase::SendGuard,
        Phase::SendGuard => if with_retainer {
            Phase::RejoinGroup
        } else {
            Phase::RestoreChildSignal
        },
        Phase::RejoinGroup => Phase::ReleaseRetainer,
        Phase::ReleaseRetainer => Phase::RestoreChildSignal,
        Phase::RestoreChildSignal => Phase::Finished,
        Phase::Finished => Phase::Finished,
        Phase::Aborted => Phase::Aborted,
    }
}

/// Whether a report fits the step it answers: a fork step reports the new
/// helper's pid, any other step reports plain success.
pub open spec fn fits(p: Phase, r: Report) -> bool {
    match r {
        Report::Done => !is_fork(p),
        Report::Forked(pid) => is_fork(p) && pid > 0,
        Report::Failed => false,
    }
}

/// The construction of a supervised subtree, as seen from the new child: the
/// step it is at and the helper processes it has made.
#[derive(Debug)]
pub struct Construction {
    phase: Phase,
    own_pid: i32,
    with_retainer: bool,
    retainer: Option<i32>,
    watchdog: Option<i32>,
    guard_sent: bool,
}

impl Construction {
    /// The step to perform next.
    pub closed spec fn phase_spec(&self) -> Phase {
        self.phase
    }

    /// This process's pid.
    pub closed spec fn own_pid_spec(&self) -> i32 {
        self.own_pid
    }

    /// Whether a group retainer is part of the construction.
    pub closed spec fn with_retainer_spec(&self) -> bool {
        self.with_retainer
    }

    /// Whether the guard's write end reached the parent.
    pub closed spec fn guard_sent_spec(&self) -> bool {
        self.guard_sent
    }

    /// The helpers made so far, in the order they were made.
    pub closed spec fn helpers(&self) -> Seq<i32> {
        let r: Seq<i32> = match self.retainer {
            Some(p) => seq![p],
            None => Seq::empty(),
        };
        match self.watchdog {
            Some(p) => r.push(p),
            None => r,
        }
    }

    /// The construction's invariant: the helpers and the sent guard match the
    /// steps already taken.
    pub closed spec fn wf(&self) -> bool {
        &&& !self.with_retainer ==> !is_retainer_step(self.phase)
        &&& self.retainer is Some ==> self.with_retainer
        &&& self.phase != Phase::Aborted ==> {
            &&& (self.retainer is Some <==> self.with_retainer && stage(self.phase) > stage(
                Phase::ForkRetainer,
            ))
            &&& (self.watchdog is Some <==> stage(self.phase) > stage(Phase::ForkWatchdog))
            &&& (self.guard_sent <==> stage(self.phase) > stage(Phase::SendGuard))
        }
    }

    /// Starts the construction in the new child whose pid is `own_pid` and
    /// whose process group is `group`.
    pub fn start(own_pid: i32, group: i32) -> (r: Construction)
        ensures
            r.wf(),
            r.phase_spec() == Phase::ResetChildSignal,
            r.own_pid_spec() == own_pid,
            r.with_retainer_spec() == (group != own_pid),
            r.helpers() == Seq::<i32>::empty(),
            !r.guard_sent_spec(),
    {
        let r = Construction {
            phase: Phase::ResetChildSignal,
            own_pid,
            with_retainer: group != own_pid,
            retainer: None,
            watchdog: None,
            guard_sent: false,
        };
        assert(r.helpers() =~= Seq::<i32>::empty());
        r
    }

    /// The step to perform next.
    pub fn phase(&self) -> (r: Phase)
        ensures
            r == self.phase_spec(),
    {
        self.phase
    }

    /// This process's pid, which the watchdog kills when it wakes.
    pub fn own_pid(&self) -> (r: i32)
        ensures
            r == self.own_pid_spec(),
    {
        self.own_pid
    }

    /// The group retainer's pid, once it exists.
    pub fn retainer(&self) -> (r: Option<i32>)
        requires
            self.wf(),
        ensures
            self.phase_spec() != Phase::Aborted ==> (r is Some <==> self.with_retainer_spec()
                && stage(self.phase_spec()) > stage(Phase::ForkRetainer)),
            r is Some ==> self.with_retainer_spec() && self.helpers().len() > 0 && r->0
                == self.helpers()[0],
    {
        self.retainer
    }

    /// The helpers to kill, in the order they were made.
    pub fn kill_list(&self) -> (r: Vec<i32>)
        ensures
            r@ == self.helpers(),
    {
        let mut v: Vec<i32> = Vec::new();
        match self.retainer {
            Some(p) => v.push(p),
            None => {},
        }
        match self.watchdog {
            Some(p) => v.push(p),
            None => {},
        }
        assert(v@ =~= self.helpers());
        v
    }

    /// Records how the current step went. A failure, or a report that does
    /// not fit the step, aborts the construction with the helpers made so
    /// far; otherwise the construction moves to the following step, keeping
    /// the pid of a helper just forked.
    pub fn advance(&mut self, report: Report)
        requires
            old(self).wf(),
            old(self).phase_spec() != Phase::Finished,
            old(self).phase_spec() != Phase::Aborted,
        ensures
            final(self).wf(),
            final(self).own_pid_spec() == old(self).own_pid_spec(),
            final(self).with_retainer_spec() == old(self).with_retainer_spec(),
            !fits(old(self).phase_spec(), report) ==> final(self).phase_spec() == Phase::Aborted
                && final(self).helpers() == old(self).helpers(),
            fits(old(self).phase_spec(), report) ==> {
                &&& final(self).phase_spec() == following(
                    old(self).phase_spec(),
                    old(self).with_retainer_spec(),
                )
                &&& stage(final(self).phase_spec()) > stage(old(self).phase_spec())
                &&& final(self).helpers() == match report {
                    Report::Forked(pid) => old(self).helpers().push(pid),
                    _ => old(self).helpers(),
                }
            },
    {
        let fit = match report {
            Report::Done => self.phase != Phase::ForkRetainer && self.phase != Phase::ForkWatchdog,
            Report::Forked(pid) => (self.phase == Phase::ForkRetainer || self.phase
                == Phase::ForkWatchdog) && pid > 0,
            Report::Failed => false,
        };
        if !fit {
            self.phase = Phase::Aborted;
            return;
        }
        let wr = self.with_retainer;
        match self.phase {
            Phase::ResetChildSignal => {
                self.phase = if wr {
                    Phase::OpenRetainerPipe
                } else {
                    Phase::OpenGuardPipe
                };
            },
            Phase::OpenRetainerPipe => {
                self.phase = Phase::ForkRetainer;
            },
            Phase::ForkRetainer => {
                if let Report::Forked(pid) = report {
                    self.retainer = Some(pid);
                }
                self.phase = Phase::EnterNewGroup;
            },
            Phase::EnterNewGroup => {
                self.phase = Phase::OpenGuardPipe;
            },
            Phase::OpenGuardPipe => {
                self.phase = Phase::BlockSignals;
            },
            Phase::BlockSignals => {
                self.phase = Phase::ForkWatchdog;
            },
            Phase::ForkWatchdog => {
                if let Report::Forked(pid) = report {
                    self.watchdog = Some(pid);
                }
                self.phase = Phase::RestoreMask;
            },
            Phase::RestoreMask => {
                self.phase = Phase::SendGuard;
            },
            Phase::SendGuard => {
                self.guard_sent = true;
                self.phase = if wr {
                    Phase::RejoinGroup
                } else {
                    Phase::RestoreChildSignal
                };
            },
            Phase::RejoinGroup => {
                self.phase = Phase::ReleaseRetainer;
            },
            Phase::ReleaseRetainer => {
                self.phase = Phase::RestoreChildSignal;
            },
            Phase::RestoreChildSignal => {
                self.phase = Phase::Finished;
            },
            _ => {},
        }
        proof {
            let o = old(self);
            if o.phase == Phase::ForkRetainer {
                assert(self.helpers() =~= o.helpers().push(self.retainer->0));
            } else if o.phase == Phase::ForkWatchdog {
                assert(self.helpers() =~= o.helpers().push(self.watchdog->0));
            } else {
                assert(self.helpers() =~= o.helpers());
            }
        }
    }
}

/// A construction that finished has made its watchdog, and its retainer
/// where one was needed, and has handed the guard's write end to the parent:
/// the child never goes on as supervised without its guard in the parent's
/// hands.
pub proof fn lemma_finished_is_guarded(c: Construction)
    requires
        c.wf(),
        c.phase_spec() == Phase::Finished,
    ensures
        c.guard_sent_spec(),
        c.helpers().len() == if c.with_retainer_spec() {
            2int
        } else {
            1int
        },
{
}

/// Each successful step moves the construction forward, so it ends, finished
/// or aborted, after at most one report per step.
pub proof fn lemma_steps_are_bounded(p: Phase, with_retainer: bool)
    requires
        p != Phase::Finished,
        p != Phase::Aborted,
    ensures
        stage(following(p, with_retainer)) > stage(p),
        stage(following(p, with_retainer)) <= stage(Phase::Finished),
{
}

/// Whether the signal can be set to be ignored: every one but the kill and
/// stop signals.
pub open spec fn ignorable(sig: i32) -> bool {
    sig != SIGKILL && sig != SIGSTOP
}

/// `ignorable`, as a predicate on sequences.
pub open spec fn ignorable_pred() -> spec_fn(i32) -> bool {
    |s: i32| ignorable(s)
}

/// The signals among `all` that a process can ignore, in their order. The
/// watchdog ignores each of them, so that only its protocol ends it.
pub fn ignorable_signals(all: &[i32]) -> (r: Vec<i32>)
    ensures
        r@ == all@.filter(ignorable_pred()),
{
    let mut out: Vec<i32> = Vec::new();
    let mut i: usize = 0;
    assert(all@.take(0).filter(ignorable_pred()) =~= Seq::<i32>::empty()) by {
        reveal(Seq::filter);
    }
    while i < all.len()
        invariant
            0 <= i <= all@.len(),
            out@ == all@.take(i as int).filter(ignorable_pred()),
        decreases all@.len() - i,
    {
        let sig = all[i];
        let ghost next = all@.take(i as int + 1);
        assert(next.drop_last() =~= all@.take(i as int));
        assert(next.last() == sig);
        if sig != SIGKILL && sig != SIGSTOP {
            out.push(sig);
        }
        assert(out@ == next.filter(ignorable_pred())) by {
            reveal(Seq::filter);
        }
        i = i + 1;
    }
    assert(all@.take(all@.len() as int) =~= all@);
    out
}

/// The descriptors below `limit` that the watchdog closes: all of them but
/// `keep`, the guard pipe's read end, in increasing order.
pub fn descriptors_to_close(keep: i32, limit: i32) -> (r: Vec<i32>)
    requires
        limit >= 0,
    ensures
        forall|fd: i32| r@.contains(fd) <==> 0 <= fd < limit && fd != keep,
        forall|i: int, j: int| 0 <= i < j < r@.len() ==> r@[i] < r@[j],
{
    let mut out: Vec<i32> = Vec::new();
    let mut fd: i32 = 0;
    while fd < limit
        invariant
            0 <= fd <= limit,
            forall|x: i32| out@.contains(x) <==> 0 <= x < fd && x != keep,
            forall|i: int, j: int| 0 <= i < j < out@.len() ==> out@[i] < out@[j],
            forall|i: int| 0 <= i < out@.len() ==> out@[i] < fd,
        decreases limit - fd,
    {
        if fd != keep {
            let ghost before = out@;
            out.push(fd);
            assert forall|x: i32| out@.contains(x) <==> 0 <= x < fd + 1 && x != keep by {
                if x == fd {
                    assert(out@[out@.len() - 1] == fd);
                } else if out@.contains(x) {
                    let k = choose|k: int| 0 <= k < out@.len() && out@[k] == x;
                    assert(k < before.len());
                    assert(before.contains(x));
                } else if 0 <= x < fd && x != keep {
                    assert(before.contains(x));
                    let k = choose|k: int| 0 <= k < before.len() && before[k] == x;
                    assert(out@[k] == x);
                }
            }
        }
        fd = fd + 1;
    }
    out
}

} // verus!
