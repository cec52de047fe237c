//! The lifecycle of one sing-box process: starting it, stopping it, noticing
//! that it crashed, and keeping a bounded buffer of what it logged.
use vstd::prelude::*;

use std::collections::VecDeque;
use std::sync::mpsc::Receiver;
use std::time::{Duration, Instant};

use crate::clock::{
    checked_after, from_secs, instant_after, instant_now, left_until, saturating_since, seconds,
};

use crate::text::{
    contains, find_exec, ends_with, ends_with_exec, parse_unsigned, parse_unsigned_exec, push_str, starts_with,
    starts_with_exec, to_chars, trim, trim_exec,
};

verus! {

broadcast use vstd::slice::group_slice_axioms;

/// The most log lines kept; older ones are dropped first.
pub const MAX_BUFFERED_LOG_LINES: usize = 500;

/// How long `ChildHandle::kill` waits, in seconds, for the process to be
/// gone before giving up.
pub const KILL_CONFIRMATION_SECS: u64 = 4;

#[derive(Debug)]
pub enum ProcessError {
    AlreadyRunning,
    NotRunning,
    SpawnFailed(String),
    KillFailed(String),
    SidecarNotFound(String),
}

#[derive(Debug, Clone, PartialEq)]
pub enum ProcessEvent {
    Log(String),
    Exited { code: Option<i32> },
}

#[verifier::external_type_specification]
#[verifier::external_body]
#[verifier::reject_recursive_types(T)]
pub struct ExReceiver<T>(Receiver<T>);

/// `Receiver::try_recv`: the next event already waiting, if any. What is
/// waiting depends on the process, so nothing is claimed about it.
#[verifier::external_body]
fn try_next(events: &Receiver<ProcessEvent>) -> Option<ProcessEvent> {
    events.try_recv().ok()
}

/// `Receiver::recv_timeout`: the next event to arrive within `wait`, if any.
#[verifier::external_body]
fn next_within(events: &Receiver<ProcessEvent>, wait: Duration) -> Option<ProcessEvent> {
    events.recv_timeout(wait).ok()
}

/// The action a launcher supplies to ask its process to stop.
pub trait StopRequest: Send {
    fn request(&mut self) -> Result<(), ProcessError>;
}

/// A stop request made of the launcher's own closure.
pub struct StopFn<F>(pub F);

/// Calls the closure a launcher handed over to stop its process. What it
/// does is the launcher's business, and nothing is claimed of it.
#[verifier::external_body]
fn call_stop<F: FnMut() -> Result<(), ProcessError>>(f: &mut F) -> Result<(), ProcessError> {
    f()
}

impl<F: FnMut() -> Result<(), ProcessError> + Send> StopRequest for StopFn<F> {
    fn request(&mut self) -> Result<(), ProcessError> {
        call_stop(&mut self.0)
    }
}

/// What `ChildHandle::kill` reports when the process is still there after
/// the confirmation timeout.
pub open spec fn kill_timeout_message() -> Seq<char> {
    "sing-box did not exit in time"@
}

/// One wait of a kill: the instant it started, the time it was given, and
/// what arrived (`None` when nothing did in time or the stream ended).
pub type WaitRecord = (Instant, Duration, Option<ProcessEvent>);

/// When a kill that asked at `asked` stops waiting: the confirmation
/// timeout later, or `asked` itself past the clock's range.
pub open spec fn kill_deadline(asked: Instant) -> Instant {
    match checked_after(asked, from_secs(KILL_CONFIRMATION_SECS)) {
        Some(d) => d,
        None => asked,
    }
}

/// How a kill ends, given what its stop request returned (`request`), the
/// deadline of its waits and the waits it made (`waits`). When asking
/// failed, that error is returned at once, without waiting. Otherwise each
/// wait is given the time left until the deadline; every wait but the last
/// brought a log line; the kill succeeds exactly when the last wait
/// brought the exit, and otherwise fails with the timeout message, which
/// happens when a wait brought nothing, or after as many waits as a `u64`
/// counts.
pub open spec fn is_kill_outcome(
    r: Result<(), ProcessError>,
    request: Result<(), ProcessError>,
    deadline: Option<Instant>,
    waits: Seq<WaitRecord>,
) -> bool {
    match request {
        Err(e) => r == Err::<(), ProcessError>(e) && waits.len() == 0,
        Ok(_) => {
            &&& deadline is Some
            &&& exists|asked: Instant| deadline->0 == #[trigger] kill_deadline(asked)
            &&& forall|i: int|
                0 <= i < waits.len() ==> (#[trigger] waits[i]).1 == saturating_since(
                    deadline->0,
                    waits[i].0,
                )
            &&& forall|i: int|
                0 <= i < waits.len() - 1 ==> ((#[trigger] waits[i]).2 matches Some(
                    ProcessEvent::Log(_),
                ))
            &&& waits.len() <= u64::MAX
            &&& (r is Ok <==> (waits.len() > 0 && waits.last().2 matches Some(
                ProcessEvent::Exited { .. },
            )))
            &&& r is Err ==> (r matches Err(ProcessError::KillFailed(m)) && m@
                == kill_timeout_message())
            &&& r is Err ==> ((waits.len() > 0 && waits.last().2 is None) || waits.len()
                == u64::MAX)
        },
    }
}

/// What one wait for the process to be gone calls for.
pub enum WaitStep {
    /// The process exited: the kill succeeded.
    Done,
    /// A log line arrived: drain it and wait on.
    KeepWaiting,
    /// Nothing arrived in time, or the stream ended: give up.
    GiveUp,
}

/// The decision after one wait on the events of a process that was asked
/// to stop.
pub fn wait_step(event: &Option<ProcessEvent>) -> (step: WaitStep)
    ensures
        (step is Done) <==> (event matches Some(ProcessEvent::Exited { .. })),
        (step is KeepWaiting) <==> (event matches Some(ProcessEvent::Log(_))),
        (step is GiveUp) <==> event is None,
{
    match event {
        Some(ProcessEvent::Exited { .. }) => WaitStep::Done,
        Some(ProcessEvent::Log(_)) => WaitStep::KeepWaiting,
        None => WaitStep::GiveUp,
    }
}

/// A spawned sing-box process: its stream of log and exit events, and a way
/// to ask it to stop.
pub struct ChildHandle {
    pub events: Receiver<ProcessEvent>,
    kill: Box<dyn StopRequest>,
    /// What each stop request made so far returned, oldest first.
    stop_requests: Ghost<Seq<Result<(), ProcessError>>>,
    /// The deadline of the latest kill's waits, once one has waited.
    deadline: Ghost<Option<Instant>>,
    /// The waits the latest kill made, in order.
    waits: Ghost<Seq<WaitRecord>>,
}

impl ChildHandle {
    /// The stream of events the process sends.
    pub closed spec fn spec_events(&self) -> Receiver<ProcessEvent> {
        self.events
    }

    /// What each stop request made of this process returned, oldest first.
    pub closed spec fn spec_stop_requests(&self) -> Seq<Result<(), ProcessError>> {
        self.stop_requests@
    }

    /// The deadline the latest kill waited against.
    pub closed spec fn spec_deadline(&self) -> Option<Instant> {
        self.deadline@
    }

    /// The waits the latest kill made, in order.
    pub closed spec fn spec_waits(&self) -> Seq<WaitRecord> {
        self.waits@
    }

    pub fn new(
        events: Receiver<ProcessEvent>,
        kill: impl FnMut() -> Result<(), ProcessError> + Send + 'static,
    ) -> (h: Self)
        ensures
            h.spec_events() == events,
            h.spec_stop_requests() == Seq::<Result<(), ProcessError>>::empty(),
            h.spec_waits() == Seq::<WaitRecord>::empty(),
    {
        ChildHandle {
            events,
            kill: Box::new(StopFn(kill)),
            stop_requests: Ghost(Seq::empty()),
            deadline: Ghost(None),
            waits: Ghost(Seq::empty()),
        }
    }

    /// Asks the process to stop, once, and waits until it is gone: `Ok` once
    /// an exit arrives within the confirmation timeout, `KillFailed` when
    /// none does, and the stop request's own error, at once, when asking
    /// failed. Log lines that arrive meanwhile are drained.
    pub fn kill(&mut self) -> (r: Result<(), ProcessError>)
        ensures
            final(self).spec_events() == old(self).spec_events(),
            final(self).spec_stop_requests().len() == old(self).spec_stop_requests().len() + 1,
            final(self).spec_stop_requests().drop_last() == old(self).spec_stop_requests(),
            is_kill_outcome(
                r,
                final(self).spec_stop_requests().last(),
                final(self).spec_deadline(),
                final(self).spec_waits(),
            ),
    {
        let requested = self.kill.request();
        proof {
            self.stop_requests@ = self.stop_requests@.push(requested);
            assert(self.stop_requests@.drop_last() =~= old(self).stop_requests@);
            self.waits@ = Seq::empty();
        }
        match requested {
            Ok(()) => {},
            Err(e) => {
                return Err(e);
            },
        }
        let asked = instant_now();
        let deadline = match instant_after(asked, seconds(KILL_CONFIRMATION_SECS)) {
            Some(d) => d,
            None => asked,
        };
        proof {
            self.deadline@ = Some(deadline);
            assert(deadline == kill_deadline(asked));
        }
        let mut drained: u64 = 0;
        while drained < u64::MAX
            invariant_except_break
                self.waits@.len() == drained,
                forall|i: int|
                    0 <= i < self.waits@.len() ==> ((#[trigger] self.waits@[i]).2 matches Some(
                        ProcessEvent::Log(_),
                    )),
            invariant
                self.events == old(self).events,
                self.stop_requests@.drop_last() == old(self).stop_requests@,
                self.stop_requests@.len() == old(self).stop_requests@.len() + 1,
                self.stop_requests@.last() is Ok,
                self.deadline@ == Some(deadline),
                deadline == kill_deadline(asked),
                self.waits@.len() <= u64::MAX,
                forall|i: int|
                    0 <= i < self.waits@.len() ==> (#[trigger] self.waits@[i]).1 == saturating_since(
                        deadline,
                        self.waits@[i].0,
                    ),
                forall|i: int|
                    0 <= i < self.waits@.len() - 1 ==> ((#[trigger] self.waits@[i]).2 matches Some(
                        ProcessEvent::Log(_),
                    )),
            ensures
                (self.waits@.len() > 0 && self.waits@.last().2 is None) || self.waits@.len()
                    == u64::MAX,
                self.waits@.len() > 0 ==> !(self.waits@.last().2 matches Some(
                    ProcessEvent::Exited { .. },
                )),
            decreases u64::MAX - drained,
        {
            let now = instant_now();
            let wait = left_until(deadline, now);
            let event = next_within(&self.events, wait);
            proof {
                self.waits@ = self.waits@.push((now, wait, event));
            }
            match wait_step(&event) {
                WaitStep::Done => {
                    return Ok(());
                },
                WaitStep::KeepWaiting => {},
                WaitStep::GiveUp => {
                    break ;
                },
            }
            drained = drained + 1;
        }
        let mut msg = String::new();
        push_str(&mut msg, "sing-box did not exit in time");
        Err(ProcessError::KillFailed(msg))
    }
}

/// Something that can start a sing-box process for a config file; `tun`
/// says the process must be able to create a TUN device.
pub trait Launcher {
    fn launch(&self, config_path: &str, tun: bool) -> Result<ChildHandle, ProcessError>;
}

#[derive(Debug, Clone, PartialEq)]
pub enum Status {
    Stopped,
    Running,
    Crashed { exit_code: Option<i32> },
}

/// The last `n` items of `s` (all of them when there are fewer).
pub open spec fn keep_last<T>(s: Seq<T>, n: nat) -> Seq<T> {
    if s.len() > n {
        s.subrange(s.len() - n, s.len() as int)
    } else {
        s
    }
}

/// The log lines among `events`, in the order they came.
pub open spec fn log_lines(events: Seq<ProcessEvent>) -> Seq<String>
    decreases events.len(),
{
    if events.len() == 0 {
        Seq::empty()
    } else {
        let before = log_lines(events.drop_last());
        match events.last() {
            ProcessEvent::Log(line) => before.push(line),
            ProcessEvent::Exited { .. } => before,
        }
    }
}

/// Events as one poll reads them: log lines, then at most one exit, which
/// ends the poll.
pub open spec fn is_poll_batch(events: Seq<ProcessEvent>) -> bool {
    forall|i: int| 0 <= i < events.len() - 1 ==> (#[trigger] events[i]) is Log
}

/// One launch as a supervisor made it: the config path, the TUN flag, and
/// what the launcher returned (its error, or `Ok` for a child).
pub type LaunchRecord = (Seq<char>, bool, Result<(), ProcessError>);

/// How stopping one child went: what its stop request returned, the
/// deadline its waits had, and the waits it made.
pub type StopRecord = (Result<(), ProcessError>, Option<Instant>, Seq<WaitRecord>);

/// Owns the lifecycle of one sing-box process. Callers share one instance
/// behind a lock, so every transition is serialized.
pub struct Supervisor<L: Launcher> {
    launcher: L,
    child: Option<ChildHandle>,
    status: Status,
    logs: VecDeque<String>,
    /// How many lines the process has produced in total, past what the
    /// capped buffer still holds.
    produced: usize,
    /// Every launch made, oldest first.
    launches: Ghost<Seq<LaunchRecord>>,
    /// How stopping each child went, oldest first.
    stops: Ghost<Seq<StopRecord>>,
    /// What each read of the latest poll found, in order.
    last_poll: Ghost<Seq<Option<ProcessEvent>>>,
}

impl<L: Launcher> Supervisor<L> {
    /// The buffer holds at most the cap, never more than was produced, and a
    /// live child exactly while the status is `Running`.
    pub closed spec fn wf(&self) -> bool {
        &&& self.logs@.len() <= MAX_BUFFERED_LOG_LINES
        &&& self.logs@.len() <= self.produced
        &&& (self.child is Some <==> self.status == Status::Running)
    }

    pub closed spec fn spec_status(&self) -> Status {
        self.status
    }

    pub closed spec fn spec_logs(&self) -> Seq<String> {
        self.logs@
    }

    pub closed spec fn spec_produced(&self) -> nat {
        self.produced as nat
    }

    pub closed spec fn spec_has_child(&self) -> bool {
        self.child is Some
    }

    pub closed spec fn spec_launcher(&self) -> L {
        self.launcher
    }

    /// Every call of the launcher, oldest first.
    pub closed spec fn spec_launches(&self) -> Seq<LaunchRecord> {
        self.launches@
    }

    /// What each read of the latest poll found, in order.
    pub closed spec fn spec_last_poll(&self) -> Seq<Option<ProcessEvent>> {
        self.last_poll@
    }

    /// How stopping each child went, oldest first.
    pub closed spec fn spec_stops(&self) -> Seq<StopRecord> {
        self.stops@
    }

    pub proof fn lemma_wf(&self)
        requires
            self.wf(),
        ensures
            self.spec_logs().len() <= MAX_BUFFERED_LOG_LINES,
            self.spec_logs().len() <= self.spec_produced(),
            self.spec_has_child() <==> self.spec_status() == Status::Running,
    {
    }

    pub fn new(launcher: L) -> (s: Self)
        ensures
            s.wf(),
            s.spec_status() == Status::Stopped,
            s.spec_logs() == Seq::<String>::empty(),
            s.spec_produced() == 0,
            !s.spec_has_child(),
            s.spec_launcher() == launcher,
            s.spec_launches() == Seq::<LaunchRecord>::empty(),
            s.spec_stops() == Seq::<StopRecord>::empty(),
    {
        Supervisor {
            launcher,
            child: None,
            status: Status::Stopped,
            logs: VecDeque::new(),
            produced: 0,
            launches: Ghost(Seq::empty()),
            stops: Ghost(Seq::empty()),
            last_poll: Ghost(Seq::empty()),
        }
    }

    pub fn status(&self) -> (s: &Status)
        ensures
            *s == self.spec_status(),
    {
        &self.status
    }

    /// The lines produced since the caller had seen `forwarded` of them, and
    /// the count to pass back next time. Lines that fell out of the buffer
    /// meanwhile are gone, and the count moves past them.
    pub fn logs_since(&self, forwarded: usize) -> (r: (Vec<String>, usize))
        requires
            self.wf(),
        ensures
            r.0@ == self.spec_logs().subrange(
                logs_skip(self.spec_logs().len(), self.spec_produced(), forwarded as nat) as int,
                self.spec_logs().len() as int,
            ),
            r.1 == self.spec_produced(),
    {
        let oldest_held = self.produced - self.logs.len();
        let skip = if forwarded > oldest_held {
            forwarded - oldest_held
        } else {
            0
        };
        let mut out: Vec<String> = Vec::new();
        let n = self.logs.len();
        let mut i: usize = if skip < n {
            skip
        } else {
            n
        };
        let ghost start = i;
        while i < n
            invariant
                n == self.logs@.len(),
                start <= i <= n,
                out@ == self.logs@.subrange(start as int, i as int),
            decreases n - i,
        {
            out.push(self.logs[i].clone());
            i = i + 1;
        }
        (out, self.produced)
    }

    /// Starts a process for `config_path` unless one is running. The
    /// launcher is asked exactly once, with the path and flag as given, and
    /// its error is passed on unchanged; a running child is left alone.
    pub fn start(&mut self, config_path: &str, tun: bool) -> (r: Result<(), ProcessError>)
        requires
            old(self).wf(),
        ensures
            final(self).wf(),
            final(self).spec_logs() == old(self).spec_logs(),
            final(self).spec_produced() == old(self).spec_produced(),
            final(self).spec_launcher() == old(self).spec_launcher(),
            final(self).spec_stops() == old(self).spec_stops(),
            old(self).spec_status() == Status::Running ==> {
                &&& r matches Err(ProcessError::AlreadyRunning)
                &&& final(self).spec_launches() == old(self).spec_launches()
                &&& final(self).spec_status() == Status::Running
                &&& final(self).spec_has_child()
            },
            old(self).spec_status() != Status::Running ==> {
                &&& final(self).spec_launches().len() == old(self).spec_launches().len() + 1
                &&& final(self).spec_launches().drop_last() == old(self).spec_launches()
                &&& final(self).spec_launches().last().0 == config_path@
                &&& final(self).spec_launches().last().1 == tun
                &&& r == final(self).spec_launches().last().2
            },
            r is Ok ==> final(self).spec_status() == Status::Running,
            r is Err ==> final(self).spec_status() == old(self).spec_status()
                && final(self).spec_has_child() == old(self).spec_has_child(),
    {
        if let Status::Running = self.status {
            return Err(ProcessError::AlreadyRunning);
        }
        let launched = self.launcher.launch(config_path, tun);
        match launched {
            Ok(child) => {
                proof {
                    self.launches@ = self.launches@.push((config_path@, tun, Ok(())));
                    assert(self.launches@.drop_last() =~= old(self).launches@);
                }
                self.child = Some(child);
                self.status = Status::Running;
                Ok(())
            },
            Err(e) => {
                proof {
                    self.launches@ = self.launches@.push((config_path@, tun, Err(e)));
                    assert(self.launches@.drop_last() =~= old(self).launches@);
                }
                Err(e)
            },
        }
    }

    /// Stops the running child: its `kill` is asked once and its result is
    /// passed on. The child is let go and the status is `Stopped` whatever
    /// that result, so a process that will not die cannot wedge the
    /// supervisor.
    pub fn stop(&mut self) -> (r: Result<(), ProcessError>)
        requires
            old(self).wf(),
        ensures
            final(self).wf(),
            final(self).spec_logs() == old(self).spec_logs(),
            final(self).spec_produced() == old(self).spec_produced(),
            final(self).spec_launcher() == old(self).spec_launcher(),
            final(self).spec_launches() == old(self).spec_launches(),
            !final(self).spec_has_child(),
            !old(self).spec_has_child() ==> (r matches Err(ProcessError::NotRunning))
                && final(self).spec_status() == old(self).spec_status()
                && final(self).spec_stops() == old(self).spec_stops(),
            old(self).spec_has_child() ==> {
                &&& final(self).spec_status() == Status::Stopped
                &&& final(self).spec_stops().len() == old(self).spec_stops().len() + 1
                &&& final(self).spec_stops().drop_last() == old(self).spec_stops()
                &&& is_kill_outcome(
                    r,
                    final(self).spec_stops().last().0,
                    final(self).spec_stops().last().1,
                    final(self).spec_stops().last().2,
                )
            },
    {
        match self.child.take() {
            None => Err(ProcessError::NotRunning),
            Some(mut child) => {
                let result = child.kill();
                proof {
                    self.stops@ = self.stops@.push(
                        (child.spec_stop_requests().last(), child.spec_deadline(), child.spec_waits()),
                    );
                    assert(self.stops@.drop_last() =~= old(self).stops@);
                }
                self.status = Status::Stopped;
                result
            },
        }
    }

    /// `after` is what a poll of `self` that read `events` leaves: their log
    /// lines join the buffer and the count, and an exit, which can only
    /// come last, marks the process crashed with its exit code and lets the
    /// child go. Without a child nothing is read.
    pub open spec fn polled_into(&self, after: &Self, events: Seq<ProcessEvent>) -> bool {
        &&& is_poll_batch(events)
        &&& !self.spec_has_child() ==> events.len() == 0
        &&& after.spec_logs() == keep_last(
            self.spec_logs() + log_lines(events),
            MAX_BUFFERED_LOG_LINES as nat,
        )
        &&& after.spec_produced() == self.spec_produced() + log_lines(events).len()
        &&& (events.len() > 0 && events.last() is Exited) ==> {
            &&& after.spec_status() == Status::Crashed { exit_code: events.last()->Exited_code }
            &&& !after.spec_has_child()
        }
        &&& !(events.len() > 0 && events.last() is Exited) ==> {
            &&& after.spec_status() == self.spec_status()
            &&& after.spec_has_child() == self.spec_has_child()
        }
    }

    /// Takes one event of the running child: a log line joins the buffer
    /// (the oldest line leaves once the cap is passed) and counts as
    /// produced; an exit marks the process crashed with its exit code and
    /// lets the child go. Returns whether to keep reading.
    pub fn apply_event(&mut self, event: ProcessEvent) -> (keep_reading: bool)
        requires
            old(self).wf(),
            old(self).spec_produced() < usize::MAX,
        ensures
            final(self).wf(),
            final(self).spec_launcher() == old(self).spec_launcher(),
            final(self).spec_launches() == old(self).spec_launches(),
            final(self).spec_stops() == old(self).spec_stops(),
            event matches ProcessEvent::Log(line) ==> {
                &&& keep_reading
                &&& final(self).spec_logs() == keep_last(
                    old(self).spec_logs().push(line),
                    MAX_BUFFERED_LOG_LINES as nat,
                )
                &&& final(self).spec_produced() == old(self).spec_produced() + 1
                &&& final(self).spec_status() == old(self).spec_status()
                &&& final(self).spec_has_child() == old(self).spec_has_child()
            },
            event matches ProcessEvent::Exited { code } ==> {
                &&& !keep_reading
                &&& final(self).spec_logs() == old(self).spec_logs()
                &&& final(self).spec_produced() == old(self).spec_produced()
                &&& final(self).spec_status() == Status::Crashed { exit_code: code }
                &&& !final(self).spec_has_child()
            },
    {
        match event {
            ProcessEvent::Log(line) => {
                let ghost before = self.logs@;
                self.logs.push_back(line);
                self.produced = self.produced + 1;
                if self.logs.len() > MAX_BUFFERED_LOG_LINES {
                    self.logs.pop_front();
                    assert(self.logs@ =~= keep_last(before.push(line), MAX_BUFFERED_LOG_LINES as nat));
                } else {
                    assert(self.logs@ =~= keep_last(before.push(line), MAX_BUFFERED_LOG_LINES as nat));
                }
                true
            },
            ProcessEvent::Exited { code } => {
                self.status = Status::Crashed { exit_code: code };
                self.child = None;
                false
            },
        }
    }

    /// Drains the events the running child has already sent, without
    /// blocking: the log lines before the first exit join the buffer in
    /// order, and an exit marks the process crashed with its exit code and
    /// lets the child go; what follows it stays unread. Reading stops at
    /// the first read that finds nothing waiting. Without a child nothing is
    /// read and nothing changes.
    pub fn poll_events(&mut self)
        requires
            old(self).wf(),
        ensures
            final(self).wf(),
            final(self).spec_launcher() == old(self).spec_launcher(),
            final(self).spec_launches() == old(self).spec_launches(),
            final(self).spec_stops() == old(self).spec_stops(),
            old(self).polled_into(final(self), answered_events(final(self).spec_last_poll())),
            is_poll_read(
                old(self).spec_has_child(),
                final(self).spec_last_poll(),
                final(self).spec_produced(),
            ),
    {
        let ghost old_logs = self.logs@;
        let ghost mut events: Seq<ProcessEvent> = Seq::empty();
        let ghost mut answers: Seq<Option<ProcessEvent>> = Seq::empty();
        assert(old_logs + log_lines(events) =~= old_logs);
        assert(keep_last(old_logs, MAX_BUFFERED_LOG_LINES as nat) == old_logs);
        assert(answered_events(answers) =~= events);
        if self.child.is_none() {
            proof {
                self.last_poll@ = answers;
            }
            assert(old(self).polled_into(self, events));
            return ;
        }
        let mut polled: u64 = 0;
        while polled < u64::MAX && self.produced < usize::MAX
            invariant_except_break
                self.child is Some,
                self.status == old(self).status,
                forall|i: int| 0 <= i < events.len() ==> (#[trigger] events[i]) is Log,
                answers.len() == polled,
                forall|i: int|
                    0 <= i < answers.len() ==> ((#[trigger] answers[i]) matches Some(
                        ProcessEvent::Log(_),
                    )),
            invariant
                self.wf(),
                self.launcher == old(self).launcher,
                self.launches == old(self).launches,
                self.stops == old(self).stops,
                old_logs == old(self).logs@,
                old_logs.len() <= MAX_BUFFERED_LOG_LINES,
                is_poll_batch(events),
                self.logs@ == keep_last(old_logs + log_lines(events), MAX_BUFFERED_LOG_LINES as nat),
                self.produced == old(self).produced + log_lines(events).len(),
                events == answered_events(answers),
                forall|i: int|
                    0 <= i < answers.len() - 1 ==> ((#[trigger] answers[i]) matches Some(
                        ProcessEvent::Log(_),
                    )),
            ensures
                self.wf(),
                self.launcher == old(self).launcher,
                self.launches == old(self).launches,
                self.stops == old(self).stops,
                is_poll_batch(events),
                self.logs@ == keep_last(old_logs + log_lines(events), MAX_BUFFERED_LOG_LINES as nat),
                self.produced == old(self).produced + log_lines(events).len(),
                (events.len() > 0 && events.last() is Exited) ==> {
                    &&& self.status == Status::Crashed { exit_code: events.last()->Exited_code }
                    &&& self.child is None
                },
                !(events.len() > 0 && events.last() is Exited) ==> {
                    &&& self.status == old(self).status
                    &&& self.child is Some
                },
                events == answered_events(answers),
                forall|i: int|
                    0 <= i < answers.len() - 1 ==> ((#[trigger] answers[i]) matches Some(
                        ProcessEvent::Log(_),
                    )),
                (answers.len() > 0 && (answers.last() is None || answers.last() matches Some(
                    ProcessEvent::Exited { .. },
                ))) || answers.len() == u64::MAX || self.produced == usize::MAX,
            decreases u64::MAX - polled,
        {
            let event = match &self.child {
                Some(child) => try_next(&child.events),
                None => None,
            };
            let ghost answers_before = answers;
            proof {
                answers = answers.push(event);
                assert(answers.drop_last() =~= answers_before);
            }
            match event {
                Some(e) => {
                    let ghost before = events;
                    proof {
                        events = events.push(e);
                        assert(events.drop_last() =~= before);
                        assert(events.last() == e);
                        assert(answered_events(answers) =~= events);
                        if e is Log {
                            let line = e->Log_0;
                            lemma_keep_last_of_kept(old_logs + log_lines(before), line, MAX_BUFFERED_LOG_LINES as nat);
                            assert(old_logs + log_lines(events) =~= (old_logs + log_lines(before)).push(line));
                        } else {
                            assert(log_lines(events) == log_lines(before));
                        }
                    }
                    let keep_reading = self.apply_event(e);
                    if !keep_reading {
                        break ;
                    }
                },
                None => {
                    assert(answered_events(answers) =~= events);
                    break ;
                },
            }
            polled = polled + 1;
        }
        proof {
            self.last_poll@ = answers;
        }
        assert(old(self).polled_into(self, events));
    }
}

/// The events a poll read: its answers, less a final empty read.
pub open spec fn answered_events(answers: Seq<Option<ProcessEvent>>) -> Seq<ProcessEvent> {
    let read = if answers.len() > 0 && answers.last() is None {
        answers.drop_last()
    } else {
        answers
    };
    read.map_values(|a: Option<ProcessEvent>| a->0)
}

/// How a poll reads: nothing without a child; otherwise log lines until a
/// read finds nothing waiting or brings an exit, or until a `u64` count of
/// reads or a `usize` count of lines runs out (`produced` is the count
/// after the poll).
pub open spec fn is_poll_read(had_child: bool, answers: Seq<Option<ProcessEvent>>, produced: nat) -> bool {
    &&& !had_child ==> answers.len() == 0
    &&& forall|i: int|
        0 <= i < answers.len() - 1 ==> ((#[trigger] answers[i]) matches Some(ProcessEvent::Log(_)))
    &&& had_child ==> ((answers.len() > 0 && (answers.last() is None || answers.last() matches Some(
        ProcessEvent::Exited { .. },
    ))) || answers.len() == u64::MAX || produced == usize::MAX)
}

/// Where to resume reading the buffer for a reader that has seen
/// `forwarded` of the `produced` lines, of which the buffer holds the last
/// `held`.
pub open spec fn logs_skip(held: nat, produced: nat, forwarded: nat) -> nat {
    let oldest = produced - held;
    let skip: nat = if forwarded > oldest {
        (forwarded - oldest) as nat
    } else {
        0
    };
    if skip < held {
        skip
    } else {
        held
    }
}

/// Keeping the last `n` of what was kept, with one more item, keeps the
/// same as keeping the last `n` of everything with that item.
pub proof fn lemma_keep_last_of_kept<T>(s: Seq<T>, x: T, n: nat)
    ensures
        keep_last(keep_last(s, n).push(x), n) == keep_last(s.push(x), n),
{
    assert(keep_last(keep_last(s, n).push(x), n) =~= keep_last(s.push(x), n));
}

/// A reader that passes back the count it was last given receives exactly
/// the lines produced since, as long as no more than the buffer holds were
/// produced meanwhile: nothing is repeated and nothing is skipped.
pub proof fn lemma_reader_resumes_where_it_left_off(held: nat, produced: nat, forwarded: nat)
    requires
        held <= produced,
        forwarded <= produced,
        produced - forwarded <= held,
    ensures
        logs_skip(held, produced, forwarded) == held - (produced - forwarded),
{
}

/// A reader that is already up to date is given nothing.
pub proof fn lemma_up_to_date_reader_gets_nothing(held: nat, produced: nat)
    requires
        held <= produced,
    ensures
        logs_skip(held, produced, produced) == held,
{
}

/// Where a bundled sidecar sits: next to the executable, under its
/// platform's name.
pub open spec fn join_path(dir: Seq<char>, name: Seq<char>) -> Seq<char> {
    if name.len() > 0 && name[0] == '/' {
        name
    } else if dir.len() == 0 {
        name
    } else if dir.last() == '/' {
        dir + name
    } else {
        dir + seq!['/'] + name
    }
}

pub open spec fn sidecar_path_in(exe_dir: Seq<char>, name: Seq<char>, windows: bool) -> Seq<char> {
    if windows {
        join_path(exe_dir, name) + ".exe"@
    } else {
        join_path(exe_dir, name)
    }
}

/// `exe_dir` joined with `name` (an absolute `name` replaces the
/// directory), with `.exe` appended on Windows rather than set as an
/// extension, so a dot already in the name survives.
pub fn sidecar_in(exe_dir: &str, name: &str, windows: bool) -> (p: String)
    ensures
        p@ == sidecar_path_in(exe_dir@, name@, windows),
{
    let d = to_chars(exe_dir);
    let n = to_chars(name);
    let mut p = String::new();
    if n.len() > 0 && n[0] == '/' {
        push_str(&mut p, name);
    } else if d.len() == 0 {
        push_str(&mut p, name);
    } else if d[d.len() - 1] == '/' {
        push_str(&mut p, exe_dir);
        push_str(&mut p, name);
    } else {
        push_str(&mut p, exe_dir);
        p.push('/');
        push_str(&mut p, name);
    }
    if windows {
        push_str(&mut p, ".exe");
    }
    p
}

/// What launches the bundled sing-box binary.
#[derive(Debug, Clone, PartialEq)]
pub struct SidecarLauncher {
    pub binary_path: String,
    /// Where the run-file sentinels of launches are kept.
    pub run_dir: String,
    /// The mixed inbound port this core listens on.
    pub system_proxy_port: u16,
}

/// A run file's name marks a live sing-box: `singbox-` and `.run` around
/// a per-launch id.
pub open spec fn is_run_file(name: Seq<char>) -> bool {
    starts_with(name, "singbox-"@) && ends_with(name, ".run"@)
}

pub fn is_run_file_name(name: &str) -> (b: bool)
    ensures
        b == is_run_file(name@),
{
    let n = to_chars(name);
    let prefix = to_chars("singbox-");
    let suffix = to_chars(".run");
    starts_with_exec(n.as_slice(), prefix.as_slice()) && ends_with_exec(n.as_slice(), suffix.as_slice())
}

/// Whether a process listing (`ps -o comm=` or `tasklist` output for one
/// PID) shows a sing-box: the text holds `sing-box`. A leftover PID is
/// killed only then, as PIDs get recycled.
pub fn names_sing_box(listing: &str) -> (b: bool)
    ensures
        b == contains(listing@, "sing-box"@),
{
    let l = to_chars(listing);
    let p = to_chars("sing-box");
    find_exec(l.as_slice(), p.as_slice()).is_some()
}

/// The name of the run file for the launch with id `id`.
pub fn run_file_name(id: &str) -> (s: String)
    ensures
        s@ == "singbox-"@ + id@ + ".run"@,
{
    let mut s = String::new();
    push_str(&mut s, "singbox-");
    push_str(&mut s, id);
    push_str(&mut s, ".run");
    s
}

/// The process id an unprivileged launch recorded in its run file: the
/// trimmed body read as a `u32`. An elevated launch leaves the file empty.
pub fn recorded_pid(body: &str) -> (pid: Option<u32>)
    ensures
        pid matches Some(p) ==> parse_unsigned(trim(body@), 10, u32::MAX as nat) == Some(p as nat),
        pid is None ==> parse_unsigned(trim(body@), 10, u32::MAX as nat) is None,
{
    let chars = to_chars(body);
    let t = trim_exec(chars.as_slice());
    match parse_unsigned_exec(t.as_slice(), 10, 0xffff_ffff) {
        Some(p) => Some(p as u32),
        None => None,
    }
}

} // verus!
