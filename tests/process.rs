use palaver::process::{
    accept_handshake, after_signal, after_wait, count_listed, fork_mode, orphan_outcome,
    release_plan, signal_gate, wait_gate, wait_step, ForkMode, LifeState, RawWait, Received,
    ReleasePlan, SignalGate, WaitStatus, WaitStep, EINTR, SIGKILL, SIGSTOP, UNKNOWN_ERRNO,
    UNKNOWN_PID,
};
use palaver::subtree::{
    descriptors_to_close, ignorable_signals, watchdog_step, Construction, Phase, Report,
    WatchdogStep,
};

const SIGTERM: i32 = 15;

#[test]
fn count() {
    let processes = b"USER PID COMMAND\nroot 1 init\nroot 2 kthreadd\nuser 77 sh\n";
    let threads = b"PID LWP CMD\n1 1 init\n2 2 kthreadd\n77 77 sh\n77 78 sh\n";
    let count = count_listed(processes);
    assert_ne!(count, 0);
    let count_threads = count_listed(threads);
    assert_ne!(count_threads, 0);
    assert!(
        count_threads >= count,
        "{} threads < {} processes",
        count_threads,
        count
    );
    assert_eq!(count, 3);
    assert_eq!(count_threads, 4);
}

#[test]
fn count_listed_skips_header_and_blank_lines() {
    assert_eq!(count_listed(b""), 0);
    assert_eq!(count_listed(b"HEADER"), 0);
    assert_eq!(count_listed(b"HEADER\n"), 0);
    assert_eq!(count_listed(b"HEADER\na\n\nb"), 2);
}

#[test]
fn kill_then_wait_reports_the_kill() {
    let pid = 4242;
    let s = LifeState::Alive;
    assert_eq!(signal_gate(false, s), SignalGate::Send);
    let s = after_signal(s, Some(SIGKILL));
    assert_eq!(s, LifeState::KillSignaled);
    assert!(wait_gate(s));
    let step = wait_step(pid, RawWait::Signaled(pid, SIGKILL, false));
    assert_eq!(step, WaitStep::Ended(WaitStatus::Signaled(SIGKILL, false)));
    let s = after_wait(s, true);
    assert_eq!(s, LifeState::Reaped);
    assert_eq!(signal_gate(false, s), SignalGate::NoSuchProcess);
    assert!(!wait_gate(s));
}

#[test]
fn clean_exit_reports_code_zero() {
    let pid = 17;
    assert_eq!(
        wait_step(pid, RawWait::Exited(pid, 0)),
        WaitStep::Ended(WaitStatus::Exited(0))
    );
    assert_eq!(
        wait_step(pid, RawWait::Exited(pid, 3)),
        WaitStep::Ended(WaitStatus::Exited(3))
    );
}

#[test]
fn wait_retries_through_interruptions_and_stops() {
    assert_eq!(wait_step(5, RawWait::Failed(EINTR)), WaitStep::Retry);
    assert_eq!(wait_step(5, RawWait::Unfinished), WaitStep::Retry);
    assert_eq!(wait_step(5, RawWait::Failed(10)), WaitStep::Error(10));
    assert_eq!(
        wait_step(5, RawWait::Signaled(5, SIGTERM, true)),
        WaitStep::Ended(WaitStatus::Signaled(SIGTERM, true))
    );
}

#[test]
fn other_signals_leave_the_state() {
    assert_eq!(after_signal(LifeState::Alive, Some(SIGTERM)), LifeState::Alive);
    assert_eq!(after_signal(LifeState::Alive, None), LifeState::Alive);
    assert_eq!(after_signal(LifeState::Reaped, Some(SIGKILL)), LifeState::Reaped);
    assert_eq!(after_wait(LifeState::KillSignaled, false), LifeState::KillSignaled);
    assert_eq!(signal_gate(false, LifeState::KillSignaled), SignalGate::NoSuchProcess);
    assert_eq!(signal_gate(true, LifeState::Reaped), SignalGate::Send);
}

#[test]
fn state_bytes_round_trip() {
    for s in [LifeState::Alive, LifeState::KillSignaled, LifeState::Reaped] {
        assert_eq!(LifeState::decode(s.encode()), Some(s));
    }
    assert_eq!(LifeState::Alive.encode(), 0);
    assert_eq!(LifeState::Reaped.encode(), 2);
    assert_eq!(LifeState::decode(3), None);
}

#[test]
fn release_without_wait_kills_and_reaps() {
    assert_eq!(
        release_plan(LifeState::Alive),
        ReleasePlan { kill_child: true, wait_child: true, kill_group: true, close_guard: true }
    );
    assert_eq!(
        release_plan(LifeState::KillSignaled),
        ReleasePlan { kill_child: false, wait_child: true, kill_group: true, close_guard: true }
    );
    assert_eq!(
        release_plan(LifeState::Reaped),
        ReleasePlan { kill_child: false, wait_child: false, kill_group: true, close_guard: true }
    );
}

#[test]
fn handshake_needs_exactly_one_descriptor() {
    let one = Ok(Received { fds: vec![7], payload_len: 0 });
    assert_eq!(accept_handshake(&one), Some(7));
    let none = Ok(Received { fds: vec![], payload_len: 0 });
    assert_eq!(accept_handshake(&none), None);
    let two = Ok(Received { fds: vec![7, 8], payload_len: 0 });
    assert_eq!(accept_handshake(&two), None);
    let payload = Ok(Received { fds: vec![7], payload_len: 1 });
    assert_eq!(accept_handshake(&payload), None);
    assert_eq!(accept_handshake(&Err(104)), None);
}

#[test]
fn orphan_succeeds_only_on_clean_exit() {
    assert_eq!(orphan_outcome(Ok(WaitStatus::Exited(0))), Ok(UNKNOWN_PID));
    assert_eq!(orphan_outcome(Ok(WaitStatus::Exited(1))), Err(UNKNOWN_ERRNO));
    assert_eq!(orphan_outcome(Ok(WaitStatus::Signaled(SIGKILL, false))), Err(UNKNOWN_ERRNO));
    assert_eq!(orphan_outcome(Err(10)), Err(10));
}

fn run(c: &mut Construction, pids: &mut Vec<i32>) -> Vec<Phase> {
    let mut seen = Vec::new();
    while c.phase() != Phase::Finished && c.phase() != Phase::Aborted {
        let p = c.phase();
        seen.push(p);
        let report = if p == Phase::ForkRetainer || p == Phase::ForkWatchdog {
            Report::Forked(pids.remove(0))
        } else {
            Report::Done
        };
        c.advance(report);
    }
    seen
}

#[test]
fn construction_with_retainer() {
    let mut c = Construction::start(100, 50);
    let seen = run(&mut c, &mut vec![101, 102]);
    assert_eq!(
        seen,
        vec![
            Phase::ResetChildSignal,
            Phase::OpenRetainerPipe,
            Phase::ForkRetainer,
            Phase::EnterNewGroup,
            Phase::OpenGuardPipe,
            Phase::BlockSignals,
            Phase::ForkWatchdog,
            Phase::RestoreMask,
            Phase::SendGuard,
            Phase::RejoinGroup,
            Phase::ReleaseRetainer,
            Phase::RestoreChildSignal,
        ]
    );
    assert_eq!(c.phase(), Phase::Finished);
    assert_eq!(c.kill_list(), vec![101, 102]);
    assert_eq!(c.retainer(), Some(101));
    assert_eq!(c.own_pid(), 100);
}

#[test]
fn construction_as_group_leader() {
    let mut c = Construction::start(100, 100);
    let seen = run(&mut c, &mut vec![102]);
    assert_eq!(
        seen,
        vec![
            Phase::ResetChildSignal,
            Phase::OpenGuardPipe,
            Phase::BlockSignals,
            Phase::ForkWatchdog,
            Phase::RestoreMask,
            Phase::SendGuard,
            Phase::RestoreChildSignal,
        ]
    );
    assert_eq!(c.phase(), Phase::Finished);
    assert_eq!(c.kill_list(), vec![102]);
    assert_eq!(c.retainer(), None);
}

#[test]
fn construction_failure_kills_helpers_made_so_far() {
    let mut c = Construction::start(100, 50);
    c.advance(Report::Done);
    c.advance(Report::Done);
    c.advance(Report::Forked(101));
    c.advance(Report::Done);
    c.advance(Report::Done);
    c.advance(Report::Done);
    assert_eq!(c.phase(), Phase::ForkWatchdog);
    c.advance(Report::Failed);
    assert_eq!(c.phase(), Phase::Aborted);
    assert_eq!(c.kill_list(), vec![101]);

    let mut c = Construction::start(100, 100);
    c.advance(Report::Done);
    c.advance(Report::Done);
    c.advance(Report::Done);
    c.advance(Report::Forked(102));
    c.advance(Report::Done);
    assert_eq!(c.phase(), Phase::SendGuard);
    c.advance(Report::Failed);
    assert_eq!(c.phase(), Phase::Aborted);
    assert_eq!(c.kill_list(), vec![102]);
}

#[test]
fn construction_rejects_reports_that_do_not_fit() {
    let mut c = Construction::start(100, 100);
    c.advance(Report::Forked(5));
    assert_eq!(c.phase(), Phase::Aborted);
    assert_eq!(c.kill_list(), Vec::<i32>::new());

    let mut c = Construction::start(100, 100);
    c.advance(Report::Done);
    c.advance(Report::Done);
    c.advance(Report::Done);
    assert_eq!(c.phase(), Phase::ForkWatchdog);
    c.advance(Report::Done);
    assert_eq!(c.phase(), Phase::Aborted);
}

#[test]
fn watchdog_ignores_all_but_kill_and_stop() {
    let all: Vec<i32> = (1..=31).collect();
    let r = ignorable_signals(&all);
    assert_eq!(r.len(), 29);
    assert!(!r.contains(&SIGKILL));
    assert!(!r.contains(&SIGSTOP));
    assert_eq!(r[0], 1);
    assert_eq!(ignorable_signals(&[9, 19]), Vec::<i32>::new());
}

#[test]
fn watchdog_closes_all_but_guard() {
    assert_eq!(descriptors_to_close(3, 6), vec![0, 1, 2, 4, 5]);
    assert_eq!(descriptors_to_close(10, 3), vec![0, 1, 2]);
    assert_eq!(descriptors_to_close(0, 0), Vec::<i32>::new());
    assert_eq!(descriptors_to_close(1023, 1024).len(), 1023);
}

#[test]
fn fork_mode_follows_request_and_platform() {
    assert_eq!(fork_mode(true, false), ForkMode::Orphan);
    assert_eq!(fork_mode(true, true), ForkMode::Orphan);
    assert_eq!(fork_mode(false, true), ForkMode::Descriptor);
    assert_eq!(fork_mode(false, false), ForkMode::Supervised);
}

#[test]
fn watchdog_kills_on_end_of_stream() {
    assert_eq!(watchdog_step(Ok(0)), WatchdogStep::KillAll);
    assert_eq!(watchdog_step(Ok(1)), WatchdogStep::ReadAgain);
    assert_eq!(watchdog_step(Err(EINTR)), WatchdogStep::ReadAgain);
    assert_eq!(watchdog_step(Err(9)), WatchdogStep::KillAll);
}
