//! The decisions of race-free process supervision.
//!
//! A supervised child is watched through a handle whose life moves through
//! three states: alive, sent an uncatchable kill, and reaped. The functions
//! here say, from that state and from what the operating system reported,
//! which call to make next and what the handle becomes; the calls themselves
//! are made by the caller.
use vstd::prelude::*;

verus! {

/// The uncatchable kill signal.
pub const SIGKILL: i32 = 9;

/// The stop signal, which cannot be caught or ignored either.
pub const SIGSTOP: i32 = 19;

/// Error number: the call was interrupted by a signal.
pub const EINTR: i32 = 4;

/// Error number of a failure that the system did not describe.
pub const UNKNOWN_ERRNO: i32 = 0;

/// The pid reported for a process handed to init, whose real pid the caller
/// cannot learn.
pub const UNKNOWN_PID: i32 = 0x7fff_ffff;

/// How a child ended.
#[derive(Clone, Copy, Debug, PartialEq, Eq, Structural)]
pub enum WaitStatus {
    /// It exited with this code.
    Exited(i32),
    /// It was killed by this signal; the flag says whether it dumped core.
    Signaled(i32, bool),
}

/// Where a supervised child stands, as far as its handle knows.
#[derive(Clone, Copy, Debug, PartialEq, Eq, Structural)]
pub enum LifeState {
    /// Neither killed by the handle nor reaped.
    Alive,
    /// The handle delivered an uncatchable kill; the child is not reaped yet.
    KillSignaled,
    /// The handle reaped the child; its pid may now belong to anyone.
    Reaped,
}

impl LifeState {
    /// The order in which states follow one another.
    pub open spec fn rank(self) -> int {
        match self {
            LifeState::Alive => 0,
            LifeState::KillSignaled => 1,
            LifeState::Reaped => 2,
        }
    }

    /// The byte that stands for the state in a shared atomic cell.
    pub fn encode(self) -> (r: u8)
        ensures
            r as int == self.rank(),
    {
        match self {
            LifeState::Alive => 0,
            LifeState::KillSignaled => 1,
            LifeState::Reaped => 2,
        }
    }

    /// The state a byte stands for; `None` for a byte that stands for none.
    pub fn decode(v: u8) -> (r: Option<LifeState>)
        ensures
            r is Some <==> v < 3,
            r is Some ==> r->0.rank() == v as int,
    {
        if v == 0 {
            Some(LifeState::Alive)
        } else if v == 1 {
            Some(LifeState::KillSignaled)
        } else if v == 2 {
            Some(LifeState::Reaped)
        } else {
            None
        }
    }
}

/// A state is fixed by its rank, so decoding the byte that encodes a state
/// gives that state back.
pub proof fn lemma_rank_identifies_state(s: LifeState)
    ensures
        s.rank() == 0 ==> s == LifeState::Alive,
        s.rank() == 1 ==> s == LifeState::KillSignaled,
        s.rank() == 2 ==> s == LifeState::Reaped,
        0 <= s.rank() < 3,
{
}

/// Whether a signal may be sent to the child in state `s`: only while it is
/// alive. Afterwards the answer is "no such process" with no call made.
pub open spec fn may_signal(s: LifeState) -> bool {
    s == LifeState::Alive
}

/// Whether the child in state `s` may be waited for: until it is reaped.
/// Waiting again could block on an unrelated process that took its pid.
pub open spec fn may_wait(s: LifeState) -> bool {
    s != LifeState::Reaped
}

/// What a signal request does: send it, or answer "no such process" at once.
#[derive(Clone, Copy, Debug, PartialEq, Eq, Structural)]
pub enum SignalGate {
    Send,
    NoSuchProcess,
}

/// Decides a signal request on a handle in state `s`. Where the platform
/// gives kernel process descriptors (`native`), the descriptor cannot name
/// another process and the signal is always sent.
pub fn signal_gate(native: bool, s: LifeState) -> (r: SignalGate)
    ensures
        r == SignalGate::Send <==> native || may_signal(s),
{
    if native || s == LifeState::Alive {
        SignalGate::Send
    } else {
        SignalGate::NoSuchProcess
    }
}

/// A request made of a handle, with what the system answered.
#[derive(Clone, Copy, Debug, PartialEq, Eq, Structural)]
pub enum HandleEvent {
    /// A signal (`None`: a probe) was delivered.
    Signaled(Option<i32>),
    /// A wait came back, successfully or not.
    Waited(bool),
}

/// The state after one event.
pub open spec fn next_state(s: LifeState, e: HandleEvent) -> LifeState {
    match e {
        HandleEvent::Signaled(sig) => if s == LifeState::Alive && sig == Some(SIGKILL) {
            LifeState::KillSignaled
        } else {
            s
        },
        HandleEvent::Waited(ok) => if ok {
            LifeState::Reaped
        } else {
            s
        },
    }
}

/// Decides a wait request on a handle in state `s`: refused once the child
/// is reaped.
pub fn wait_gate(s: LifeState) -> (r: bool)
    ensures
        r == may_wait(s),
{
    s != LifeState::Reaped
}

/// The state after `sig` (`None`: a probe) was delivered to a child in state
/// `s`: a delivered uncatchable kill moves an alive child on; nothing else
/// changes the state.
pub fn after_signal(s: LifeState, sig: Option<i32>) -> (r: LifeState)
    ensures
        r.rank() >= s.rank(),
        r == next_state(s, HandleEvent::Signaled(sig)),
        r == (if s == LifeState::Alive && sig == Some(SIGKILL) {
            LifeState::KillSignaled
        } else {
            s
        }),
{
    match (s, sig) {
        (LifeState::Alive, Some(n)) => {
            if n == SIGKILL {
                LifeState::KillSignaled
            } else {
                s
            }
        },
        _ => s,
    }
}

/// The state after a wait on the child in state `s` came back: reaped when
/// the wait succeeded, unchanged otherwise.
pub fn after_wait(s: LifeState, succeeded: bool) -> (r: LifeState)
    ensures
        r.rank() >= s.rank(),
        r == next_state(s, HandleEvent::Waited(succeeded)),
        r == (if succeeded {
            LifeState::Reaped
        } else {
            s
        }),
{
    if succeeded {
        LifeState::Reaped
    } else {
        s
    }
}

/// The state after a run of events, in order.
pub open spec fn run_state(s: LifeState, es: Seq<HandleEvent>) -> LifeState
    decreases es.len(),
{
    if es.len() == 0 {
        s
    } else {
        next_state(run_state(s, es.drop_last()), es.last())
    }
}

/// A handle's state only moves forward, whatever happens to it: alive, then
/// kill-signalled, then reaped, possibly skipping the middle.
pub proof fn lemma_state_only_advances(s: LifeState, es: Seq<HandleEvent>)
    ensures
        run_state(s, es).rank() >= s.rank(),
    decreases es.len(),
{
    if es.len() > 0 {
        lemma_state_only_advances(s, es.drop_last());
    }
}

/// Once a handle has reaped its child, it stays reaped, and neither a signal
/// nor a wait reaches the system again, so a process that reuses the pid is
/// never touched.
pub proof fn lemma_reaped_is_final(es: Seq<HandleEvent>)
    ensures
        run_state(LifeState::Reaped, es) == LifeState::Reaped,
        !may_signal(run_state(LifeState::Reaped, es)),
        !may_wait(run_state(LifeState::Reaped, es)),
    decreases es.len(),
{
    if es.len() > 0 {
        lemma_reaped_is_final(es.drop_last());
    }
}

/// What one `waitpid` on the child reported.
#[derive(Clone, Copy, Debug, PartialEq, Eq, Structural)]
pub enum RawWait {
    /// The process with this pid exited with this code.
    Exited(i32, i32),
    /// The process with this pid was killed by this signal, dumping core or
    /// not.
    Signaled(i32, i32, bool),
    /// The process stopped or continued, or has not changed yet.
    Unfinished,
    /// The call failed with this error number.
    Failed(i32),
}

/// What to do after one `waitpid`.
#[derive(Clone, Copy, Debug, PartialEq, Eq, Structural)]
pub enum WaitStep {
    /// Call it again.
    Retry,
    /// The child ended this way.
    Ended(WaitStatus),
    /// The wait failed with this error number.
    Error(i32),
}

/// The pid that a report names, where it names one.
pub open spec fn reported_pid(raw: RawWait) -> Option<i32> {
    match raw {
        RawWait::Exited(p, _) => Some(p),
        RawWait::Signaled(p, _, _) => Some(p),
        _ => None,
    }
}

/// Decides after one `waitpid(pid)`: an end of the child finishes the wait
/// with its status; a stop, a continue or an interruption is waited through;
/// any other failure finishes the wait with that error.
pub fn wait_step(pid: i32, raw: RawWait) -> (r: WaitStep)
    requires
        reported_pid(raw) is Some ==> reported_pid(raw) == Some(pid),
    ensures
        r == match raw {
            RawWait::Exited(_, code) => WaitStep::Ended(WaitStatus::Exited(code)),
            RawWait::Signaled(_, sig, core) => WaitStep::Ended(WaitStatus::Signaled(sig, core)),
            RawWait::Unfinished => WaitStep::Retry,
            RawWait::Failed(e) => if e == EINTR {
                WaitStep::Retry
            } else {
                WaitStep::Error(e)
            },
        },
{
    match raw {
        RawWait::Exited(_, code) => WaitStep::Ended(WaitStatus::Exited(code)),
        RawWait::Signaled(_, sig, core) => WaitStep::Ended(WaitStatus::Signaled(sig, core)),
        RawWait::Unfinished => WaitStep::Retry,
        RawWait::Failed(e) => {
            if e == EINTR {
                WaitStep::Retry
            } else {
                WaitStep::Error(e)
            }
        },
    }
}

/// The calls that releasing a handle makes, in this order.
#[derive(Clone, Copy, Debug, PartialEq, Eq, Structural)]
pub struct ReleasePlan {
    /// Send the uncatchable kill to the child.
    pub kill_child: bool,
    /// Wait for the child; a failure here aborts the process.
    pub wait_child: bool,
    /// Send the uncatchable kill to the child's whole process group.
    pub kill_group: bool,
    /// Close the guard descriptor.
    pub close_guard: bool,
}

/// The calls that release a handle in state `s`: a child still alive is
/// killed; a child not yet reaped is waited for; in every case the group is
/// killed and the guard closed.
pub fn release_plan(s: LifeState) -> (r: ReleasePlan)
    ensures
        r.kill_child <==> s == LifeState::Alive,
        r.wait_child <==> may_wait(s),
        r.kill_group,
        r.close_guard,
{
    ReleasePlan {
        kill_child: s == LifeState::Alive,
        wait_child: s != LifeState::Reaped,
        kill_group: true,
        close_guard: true,
    }
}

/// What arrived over the descriptor-passing channel.
#[derive(Debug)]
pub struct Received {
    /// The descriptors attached to the message.
    pub fds: Vec<i32>,
    /// The length of the message's payload.
    pub payload_len: usize,
}

/// The guard descriptor that a handshake delivered: the one descriptor of a
/// message with an empty payload. Any other outcome is a broken handshake,
/// and `None`.
pub fn accept_handshake(received: &Result<Received, i32>) -> (r: Option<i32>)
    ensures
        r is Some <==> (received is Ok && received->Ok_0.fds@.len() == 1
            && received->Ok_0.payload_len == 0),
        r is Some ==> r->0 == received->Ok_0.fds@[0],
{
    match received {
        Ok(m) => {
            if m.fds.len() == 1 && m.payload_len == 0 {
                Some(m.fds[0])
            } else {
                None
            }
        },
        Err(_) => None,
    }
}

/// The result of handing a process to init, from how the intermediate
/// process ended: success, with no usable pid, exactly when it exited
/// cleanly with code zero.
pub fn orphan_outcome(intermediate: Result<WaitStatus, i32>) -> (r: Result<i32, i32>)
    ensures
        r is Ok <==> intermediate == Ok::<WaitStatus, i32>(WaitStatus::Exited(0)),
        r is Ok ==> r->Ok_0 == UNKNOWN_PID,
        intermediate is Err ==> r == Err::<i32, i32>(intermediate->Err_0),
        intermediate is Ok && r is Err ==> r->Err_0 == UNKNOWN_ERRNO,
{
    match intermediate {
        Ok(WaitStatus::Exited(code)) => {
            if code == 0 {
                Ok(UNKNOWN_PID)
            } else {
                Err(UNKNOWN_ERRNO)
            }
        },
        Ok(_) => Err(UNKNOWN_ERRNO),
        Err(e) => Err(e),
    }
}

/// How a fork request is carried out.
#[derive(Clone, Copy, Debug, PartialEq, Eq, Structural)]
pub enum ForkMode {
    /// Fork twice so that init adopts the new process.
    Orphan,
    /// One fork that yields a kernel process descriptor, which already
    /// watches the child.
    Descriptor,
    /// One fork, then the watchdog subtree built around the child.
    Supervised,
}

/// Chooses how to fork: an orphan request always detaches; otherwise a
/// platform with kernel process descriptors (`native`) needs nothing more
/// than the fork, and any other needs the supervised subtree.
pub fn fork_mode(orphan: bool, native: bool) -> (r: ForkMode)
    ensures
        r == (if orphan {
            ForkMode::Orphan
        } else if native {
            ForkMode::Descriptor
        } else {
            ForkMode::Supervised
        }),
{
    if orphan {
        ForkMode::Orphan
    } else if native {
        ForkMode::Descriptor
    } else {
        ForkMode::Supervised
    }
}

/// The number of entries in the text a process lister printed: the lines
/// after the header that are not empty.
pub open spec fn listed_entries(out: Seq<u8>) -> int {
    let lines = crate::env::split_on(out, NEWLINE);
    lines.subrange(1, lines.len() as int).filter(nonempty_pred()).len() as int
}

/// Whether a line holds anything.
pub open spec fn nonempty_pred() -> spec_fn(Seq<u8>) -> bool {
    |l: Seq<u8>| l.len() > 0
}

/// The byte `\n`.
pub const NEWLINE: u8 = 10;

/// Counts the entries in what a process lister such as `ps` printed: its
/// lines after the header that are not empty.
pub fn count_listed(out: &[u8]) -> (r: usize)
    ensures
        r as int == listed_entries(out@),
{
    let lines = crate::env::split_bytes(out, out.len(), NEWLINE);
    assert(out@.take(out@.len() as int) =~= out@);
    let ghost ls = crate::env::views(lines@);
    let mut n: usize = 0;
    let mut i: usize = 1;
    assert(ls.len() >= 1);
    assert(ls.subrange(1, 1) =~= Seq::<Seq<u8>>::empty());
    assert(ls.subrange(1, 1).filter(nonempty_pred()).len() == 0) by {
        reveal(Seq::filter);
    }
    while i < lines.len()
        invariant
            ls == crate::env::views(lines@),
            1 <= i <= lines@.len(),
            n as int == ls.subrange(1, i as int).filter(nonempty_pred()).len(),
            n <= i,
        decreases lines@.len() - i,
    {
        assert(ls.subrange(1, i as int + 1).drop_last() =~= ls.subrange(1, i as int));
        assert(ls.subrange(1, i as int + 1).last() == lines@[i as int]@);
        let ghost next = ls.subrange(1, i as int + 1);
        if lines[i].len() > 0 {
            n = n + 1;
        }
        assert(n as int == next.filter(nonempty_pred()).len()) by {
            reveal(Seq::filter);
        }
        i = i + 1;
    }
    n
}

} // verus!
