//! Acquiring the trusted service's identity, as a state machine. The caller
//! performs each action that a step returns against the operating system and
//! feeds the result back as the next event; the machine makes every decision.
use vstd::prelude::*;

verus! {

/// How long to wait after asking a stopped service to start, in milliseconds.
pub const START_WAIT_MS: u32 = 500;

/// The number of status answers that may find the service not yet running.
pub const DEFAULT_MAX_POLLS: u32 = 120;

/// The lifecycle state that the service control manager reports.
#[derive(PartialEq, Eq, Structural, Clone, Copy, Debug)]
pub enum ServiceState {
    Stopped,
    StartPending,
    Running,
    StopPending,
    Other,
}

/// One answer to a status query of the service.
#[derive(PartialEq, Eq, Structural, Clone, Copy, Debug)]
pub struct ServiceStatus {
    pub state: ServiceState,
    pub process_id: u32,
    pub wait_hint_ms: u32,
}

/// A thread that is live on the system, and the process that owns it.
#[derive(PartialEq, Eq, Structural, Clone, Copy, Debug)]
pub struct ThreadDescriptor {
    pub thread_id: u32,
    pub owner_process_id: u32,
}

/// Why the identity could not be acquired.
#[derive(PartialEq, Eq, Structural, Clone, Copy, Debug)]
pub enum AcquireError {
    /// The service could not be opened, or was not seen running within the bound.
    ServiceUnavailable,
    /// No thread of the service could be impersonated, or its token not opened.
    IdentityAcquisitionFailed,
}

/// What one status answer decides while waiting for the service to run.
#[derive(PartialEq, Eq, Structural, Clone, Copy, Debug)]
pub enum PollDecision {
    /// Ask the service to start, sleep this long, and query again.
    Start { sleep_ms: u32 },
    /// Sleep this long and query again.
    Sleep { ms: u32 },
    /// The service runs in this process.
    Ready { process_id: u32 },
    /// Give up.
    Unavailable,
}

/// The decision on `st` after `polls` earlier answers that did not end the wait,
/// with at most `max_polls` such answers allowed.
pub open spec fn poll_spec(polls: nat, max_polls: nat, st: ServiceStatus) -> PollDecision {
    if st.state == ServiceState::Running {
        if st.process_id > 0 {
            PollDecision::Ready { process_id: st.process_id }
        } else {
            PollDecision::Unavailable
        }
    } else if polls >= max_polls {
        PollDecision::Unavailable
    } else if st.state == ServiceState::Stopped {
        PollDecision::Start { sleep_ms: START_WAIT_MS }
    } else {
        PollDecision::Sleep { ms: st.wait_hint_ms }
    }
}

/// The decision on one status answer.
pub fn poll_decision(polls: u32, max_polls: u32, st: ServiceStatus) -> (r: PollDecision)
    ensures
        r == poll_spec(polls as nat, max_polls as nat, st),
{
    if st.state == ServiceState::Running {
        if st.process_id > 0 {
            PollDecision::Ready { process_id: st.process_id }
        } else {
            PollDecision::Unavailable
        }
    } else if polls >= max_polls {
        PollDecision::Unavailable
    } else if st.state == ServiceState::Stopped {
        PollDecision::Start { sleep_ms: START_WAIT_MS }
    } else {
        PollDecision::Sleep { ms: st.wait_hint_ms }
    }
}

} // verus!

verus! {

/// The threads of `ts` that process `pid` owns, in the order listed.
pub open spec fn candidates_spec(ts: Seq<ThreadDescriptor>, pid: u32) -> Seq<u32>
    decreases ts.len(),
{
    if ts.len() == 0 {
        Seq::empty()
    } else {
        let r = candidates_spec(ts.drop_last(), pid);
        if ts.last().owner_process_id == pid {
            r.push(ts.last().thread_id)
        } else {
            r
        }
    }
}

/// The threads of `threads` that process `pid` owns, in the order listed.
pub fn thread_candidates(threads: &Vec<ThreadDescriptor>, pid: u32) -> (r: Vec<u32>)
    ensures
        r@ == candidates_spec(threads@, pid),
{
    let mut r: Vec<u32> = Vec::new();
    let mut i: usize = 0;
    while i < threads.len()
        invariant
            i <= threads.len(),
            r@ == candidates_spec(threads@.subrange(0, i as int), pid),
        decreases threads.len() - i,
    {
        let t = threads[i];
        if t.owner_process_id == pid {
            r.push(t.thread_id);
        }
        assert(threads@.subrange(0, i + 1).drop_last() =~= threads@.subrange(0, i as int));
        i = i + 1;
    }
    assert(threads@.subrange(0, threads.len() as int) =~= threads@);
    r
}

/// How an acquisition ended.
#[derive(PartialEq, Eq, Structural, Clone, Copy, Debug)]
pub enum Outcome {
    /// The calling thread holds the service's identity, and its token is open.
    Acquired,
    Failed(AcquireError),
}

/// Where an acquisition stands.
#[derive(PartialEq, Eq, Structural, Clone, Copy, Debug)]
pub enum Stage {
    /// Waiting for the service manager and the service to be opened.
    Opening,
    /// Waiting for the service to run.
    Polling,
    /// Waiting for the list of live threads.
    Listing,
    /// Trying the service's threads one by one.
    Impersonating,
    /// Waiting for the impersonated token to be opened.
    Extracting,
    Finished,
}

/// The result of performing an action, handed back to the machine.
pub enum AcquireEvent {
    /// Whether the service manager and the service were opened.
    ServiceOpened(bool),
    /// The service's status; none where the query failed.
    Status(Option<ServiceStatus>),
    /// The threads that are live on the system.
    Threads(Vec<ThreadDescriptor>),
    /// Whether the calling thread now impersonates the thread last named.
    Impersonated(bool),
    /// Whether the calling thread's token was opened.
    TokenOpened(bool),
}

/// What the caller is to do next.
#[derive(PartialEq, Eq, Structural, Clone, Copy, Debug)]
pub enum AcquireAction {
    /// Open the service manager and the service for start and status query.
    OpenService,
    /// Query the service's status.
    QueryStatus,
    /// Ask the service to start, sleep this long, then query its status.
    StartService { sleep_ms: u32 },
    /// Sleep this long, then query the service's status.
    Sleep { ms: u32 },
    /// List the threads that are live on the system.
    ListThreads,
    /// Impersonate this thread on the calling thread.
    Impersonate { thread_id: u32 },
    /// Open the calling thread's token with full access.
    OpenToken,
    /// Stop; the acquisition ended so.
    Done(Outcome),
}

/// The machine's state as the contracts see it.
pub struct AcquisitionView {
    pub stage: Stage,
    pub polls: nat,
    pub max_polls: nat,
    pub process_id: u32,
    pub candidates: Seq<u32>,
    pub next: nat,
    pub outcome: Outcome,
}

/// One acquisition of the trusted service's identity.
pub struct Acquisition {
    pub stage: Stage,
    pub polls: u32,
    pub max_polls: u32,
    pub process_id: u32,
    pub candidates: Vec<u32>,
    pub next: usize,
    pub outcome: Outcome,
}

impl View for Acquisition {
    type V = AcquisitionView;

    open spec fn view(&self) -> AcquisitionView {
        AcquisitionView {
            stage: self.stage,
            polls: self.polls as nat,
            max_polls: self.max_polls as nat,
            process_id: self.process_id,
            candidates: self.candidates@,
            next: self.next as nat,
            outcome: self.outcome,
        }
    }
}

impl AcquisitionView {
    /// The counters stay within their bounds.
    pub open spec fn wf(self) -> bool {
        &&& self.polls <= self.max_polls
        &&& self.next <= self.candidates.len()
        &&& self.stage == Stage::Impersonating ==> self.next >= 1
    }

    /// The action that the current stage waits on.
    pub open spec fn awaited(self) -> AcquireAction {
        match self.stage {
            Stage::Opening => AcquireAction::OpenService,
            Stage::Polling => AcquireAction::QueryStatus,
            Stage::Listing => AcquireAction::ListThreads,
            Stage::Impersonating => AcquireAction::Impersonate { thread_id: self.candidates[self.next - 1] },
            Stage::Extracting => AcquireAction::OpenToken,
            Stage::Finished => AcquireAction::Done(self.outcome),
        }
    }

    /// The machine ended so.
    pub open spec fn fail(self, e: AcquireError) -> (AcquisitionView, AcquireAction) {
        (AcquisitionView { stage: Stage::Finished, outcome: Outcome::Failed(e), ..self }, AcquireAction::Done(Outcome::Failed(e)))
    }

    /// The state and action after `e`. An event that the stage does not wait on
    /// changes nothing, and the awaited action is asked for again.
    pub open spec fn step(self, e: AcquireEvent) -> (AcquisitionView, AcquireAction) {
        match (self.stage, e) {
            (Stage::Opening, AcquireEvent::ServiceOpened(ok)) => if ok {
                (AcquisitionView { stage: Stage::Polling, ..self }, AcquireAction::QueryStatus)
            } else {
                self.fail(AcquireError::ServiceUnavailable)
            },
            (Stage::Polling, AcquireEvent::Status(st)) => match st {
                None => self.fail(AcquireError::ServiceUnavailable),
                Some(st) => match poll_spec(self.polls, self.max_polls, st) {
                    PollDecision::Start { sleep_ms } => (
                        AcquisitionView { polls: self.polls + 1, ..self },
                        AcquireAction::StartService { sleep_ms },
                    ),
                    PollDecision::Sleep { ms } => (
                        AcquisitionView { polls: self.polls + 1, ..self },
                        AcquireAction::Sleep { ms },
                    ),
                    PollDecision::Ready { process_id } => (
                        AcquisitionView { stage: Stage::Listing, process_id, ..self },
                        AcquireAction::ListThreads,
                    ),
                    PollDecision::Unavailable => self.fail(AcquireError::ServiceUnavailable),
                },
            },
            (Stage::Listing, AcquireEvent::Threads(ts)) => {
                let c = candidates_spec(ts@, self.process_id);
                if c.len() == 0 {
                    self.fail(AcquireError::IdentityAcquisitionFailed)
                } else {
                    (
                        AcquisitionView { stage: Stage::Impersonating, candidates: c, next: 1, ..self },
                        AcquireAction::Impersonate { thread_id: c[0] },
                    )
                }
            },
            (Stage::Impersonating, AcquireEvent::Impersonated(ok)) => if ok {
                (AcquisitionView { stage: Stage::Extracting, ..self }, AcquireAction::OpenToken)
            } else if self.next < self.candidates.len() {
                (
                    AcquisitionView { next: self.next + 1, ..self },
                    AcquireAction::Impersonate { thread_id: self.candidates[self.next as int] },
                )
            } else {
                self.fail(AcquireError::IdentityAcquisitionFailed)
            },
            (Stage::Extracting, AcquireEvent::TokenOpened(ok)) => if ok {
                (
                    AcquisitionView { stage: Stage::Finished, outcome: Outcome::Acquired, ..self },
                    AcquireAction::Done(Outcome::Acquired),
                )
            } else {
                self.fail(AcquireError::IdentityAcquisitionFailed)
            },
            _ => (self, self.awaited()),
        }
    }
}

impl Acquisition {
    /// A fresh acquisition that allows `max_polls` status answers before the
    /// service runs.
    pub fn new(max_polls: u32) -> (r: Acquisition)
        ensures
            r@.wf(),
            r@ == initial(max_polls),
    {
        Acquisition {
            stage: Stage::Opening,
            polls: 0,
            max_polls,
            process_id: 0,
            candidates: Vec::new(),
            next: 0,
            outcome: Outcome::Failed(AcquireError::ServiceUnavailable),
        }
    }

    /// The action that the current stage waits on.
    pub fn pending(&self) -> (r: AcquireAction)
        requires
            self@.wf(),
        ensures
            r == self@.awaited(),
    {
        match self.stage {
            Stage::Opening => AcquireAction::OpenService,
            Stage::Polling => AcquireAction::QueryStatus,
            Stage::Listing => AcquireAction::ListThreads,
            Stage::Impersonating => AcquireAction::Impersonate { thread_id: self.candidates[self.next - 1] },
            Stage::Extracting => AcquireAction::OpenToken,
            Stage::Finished => AcquireAction::Done(self.outcome),
        }
    }

    fn finish(&mut self, e: AcquireError) -> (r: AcquireAction)
        ensures
            (final(self)@, r) == old(self)@.fail(e),
    {
        self.stage = Stage::Finished;
        self.outcome = Outcome::Failed(e);
        AcquireAction::Done(Outcome::Failed(e))
    }

    /// Takes the result of the last action and decides the next one.
    pub fn step(&mut self, event: AcquireEvent) -> (r: AcquireAction)
        requires
            old(self)@.wf(),
        ensures
            final(self)@.wf(),
            (final(self)@, r) == old(self)@.step(event),
    {
        match (self.stage, event) {
            (Stage::Opening, AcquireEvent::ServiceOpened(ok)) => if ok {
                self.stage = Stage::Polling;
                AcquireAction::QueryStatus
            } else {
                self.finish(AcquireError::ServiceUnavailable)
            },
            (Stage::Polling, AcquireEvent::Status(st)) => match st {
                None => self.finish(AcquireError::ServiceUnavailable),
                Some(st) => match poll_decision(self.polls, self.max_polls, st) {
                    PollDecision::Start { sleep_ms } => {
                        self.polls = self.polls + 1;
                        AcquireAction::StartService { sleep_ms }
                    },
                    PollDecision::Sleep { ms } => {
                        self.polls = self.polls + 1;
                        AcquireAction::Sleep { ms }
                    },
                    PollDecision::Ready { process_id } => {
                        self.stage = Stage::Listing;
                        self.process_id = process_id;
                        AcquireAction::ListThreads
                    },
                    PollDecision::Unavailable => self.finish(AcquireError::ServiceUnavailable),
                },
            },
            (Stage::Listing, AcquireEvent::Threads(ts)) => {
                let c = thread_candidates(&ts, self.process_id);
                if c.len() == 0 {
                    self.finish(AcquireError::IdentityAcquisitionFailed)
                } else {
                    let first = c[0];
                    self.stage = Stage::Impersonating;
                    self.candidates = c;
                    self.next = 1;
                    AcquireAction::Impersonate { thread_id: first }
                }
            },
            (Stage::Impersonating, AcquireEvent::Impersonated(ok)) => if ok {
                self.stage = Stage::Extracting;
                AcquireAction::OpenToken
            } else if self.next < self.candidates.len() {
                let t = self.candidates[self.next];
                self.next = self.next + 1;
                AcquireAction::Impersonate { thread_id: t }
            } else {
                self.finish(AcquireError::IdentityAcquisitionFailed)
            },
            (Stage::Extracting, AcquireEvent::TokenOpened(ok)) => if ok {
                self.stage = Stage::Finished;
                self.outcome = Outcome::Acquired;
                AcquireAction::Done(Outcome::Acquired)
            } else {
                self.finish(AcquireError::IdentityAcquisitionFailed)
            },
            _ => self.pending(),
        }
    }
}

/// The state of a fresh acquisition that allows `max_polls` answers that the
/// service is not running.
pub open spec fn initial(max_polls: u32) -> AcquisitionView {
    AcquisitionView {
        stage: Stage::Opening,
        polls: 0,
        max_polls: max_polls as nat,
        process_id: 0,
        candidates: Seq::empty(),
        next: 0,
        outcome: Outcome::Failed(AcquireError::ServiceUnavailable),
    }
}

/// The state after the events `es`, in order, from `s`.
pub open spec fn run_events(s: AcquisitionView, es: Seq<AcquireEvent>) -> AcquisitionView
    decreases es.len(),
{
    if es.len() == 0 {
        s
    } else {
        run_events(s, es.drop_last()).step(es.last()).0
    }
}

/// The events that hand the status answers `sts` to the machine, in order.
pub open spec fn status_events(sts: Seq<ServiceStatus>) -> Seq<AcquireEvent> {
    sts.map_values(|st: ServiceStatus| AcquireEvent::Status(Some(st)))
}

proof fn lemma_run_one(s: AcquisitionView, e: AcquireEvent)
    ensures
        run_events(s, seq![e]) == s.step(e).0,
{
    assert(seq![e].drop_last() =~= Seq::<AcquireEvent>::empty());
    assert(run_events(s, Seq::<AcquireEvent>::empty()) == s);
    assert(seq![e].last() == e);
}

/// Waiting through `k` answers that the service is not running, within the
/// bound, leaves the machine waiting with `k` answers counted.
proof fn lemma_waiting(s: AcquisitionView, sts: Seq<ServiceStatus>, k: nat)
    requires
        s.stage == Stage::Polling,
        s.polls == 0,
        k <= sts.len(),
        k <= s.max_polls,
        forall|i: int| 0 <= i < k ==> sts[i].state != ServiceState::Running,
    ensures
        run_events(s, status_events(sts.subrange(0, k as int))) == (AcquisitionView { polls: k, ..s }),
    decreases k,
{
    let es = status_events(sts.subrange(0, k as int));
    if k == 0 {
        assert(es.len() == 0);
        assert((AcquisitionView { polls: 0, ..s }) == s);
    } else {
        lemma_waiting(s, sts, (k - 1) as nat);
        assert(es.drop_last() =~= status_events(sts.subrange(0, k - 1)));
        assert(es.last() == AcquireEvent::Status(Some(sts[k - 1])));
    }
}

/// A service that is seen running, in a process, after `n` answers that it is
/// not, with `n` within the bound, ends the wait with the machine listing the
/// threads of that process; and where one of them can be impersonated first and
/// its token opened, the acquisition ends acquired.
pub proof fn lemma_service_starts_in_time(
    max_polls: u32,
    sts: Seq<ServiceStatus>,
    n: nat,
    threads: Vec<ThreadDescriptor>,
)
    requires
        n <= max_polls,
        sts.len() == n + 1,
        forall|i: int| 0 <= i < n ==> sts[i].state != ServiceState::Running,
        sts[n as int].state == ServiceState::Running,
        sts[n as int].process_id > 0,
        candidates_spec(threads@, sts[n as int].process_id).len() > 0,
    ensures
        ({
            let opened = run_events(initial(max_polls), seq![AcquireEvent::ServiceOpened(true)]);
            let waited = run_events(opened, status_events(sts));
            let done = run_events(
                waited,
                seq![AcquireEvent::Threads(threads), AcquireEvent::Impersonated(true), AcquireEvent::TokenOpened(true)],
            );
            &&& waited.stage == Stage::Listing
            &&& waited.process_id == sts[n as int].process_id
            &&& done.stage == Stage::Finished
            &&& done.outcome == Outcome::Acquired
        }),
{
    let s0 = initial(max_polls);
    lemma_run_one(s0, AcquireEvent::ServiceOpened(true));
    let opened = run_events(s0, seq![AcquireEvent::ServiceOpened(true)]);
    lemma_waiting(opened, sts, n);
    let es = status_events(sts);
    assert(sts.subrange(0, n as int + 1) =~= sts);
    assert(es.drop_last() =~= status_events(sts.subrange(0, n as int)));
    assert(es.last() == AcquireEvent::Status(Some(sts[n as int])));
    let waited = run_events(opened, es);
    let t = AcquireEvent::Threads(threads);
    let imp = AcquireEvent::Impersonated(true);
    let tok = AcquireEvent::TokenOpened(true);
    let tail = seq![t, imp, tok];
    assert(tail.drop_last() =~= seq![t, imp]);
    assert(seq![t, imp].drop_last() =~= seq![t]);
    lemma_run_one(waited, t);
    let s1 = waited.step(t).0;
    assert(s1.stage == Stage::Impersonating);
    let s2 = s1.step(imp).0;
    assert(run_events(waited, seq![t, imp]) == s2);
    assert(s2.stage == Stage::Extracting);
    let s3 = s2.step(tok).0;
    assert(run_events(waited, tail) == s3);
}

/// A service that is not seen running within the bound: after `max_polls`
/// answers that it is not, the machine still waits; the next such answer ends
/// the acquisition unavailable.
pub proof fn lemma_service_never_runs(max_polls: u32, sts: Seq<ServiceStatus>)
    requires
        sts.len() == max_polls + 1,
        forall|i: int| 0 <= i < sts.len() ==> sts[i].state != ServiceState::Running,
    ensures
        ({
            let opened = run_events(initial(max_polls), seq![AcquireEvent::ServiceOpened(true)]);
            let before = run_events(opened, status_events(sts.subrange(0, max_polls as int)));
            let after = run_events(opened, status_events(sts));
            &&& before.stage == Stage::Polling
            &&& after.stage == Stage::Finished
            &&& after.outcome == Outcome::Failed(AcquireError::ServiceUnavailable)
        }),
{
    let s0 = initial(max_polls);
    lemma_run_one(s0, AcquireEvent::ServiceOpened(true));
    let opened = run_events(s0, seq![AcquireEvent::ServiceOpened(true)]);
    lemma_waiting(opened, sts, max_polls as nat);
    let es = status_events(sts);
    assert(es.drop_last() =~= status_events(sts.subrange(0, max_polls as int)));
    assert(es.last() == AcquireEvent::Status(Some(sts[max_polls as int])));
}

/// The preparations for an acquisition, in the order in which each must
/// succeed before the next is tried.
#[derive(PartialEq, Eq, Structural, Clone, Copy, Debug)]
pub enum Preparation {
    /// Enable the rights that the later steps need.
    EnablePrivileges,
    /// Take on the system logon identity on the calling thread.
    ImpersonateSystem,
    /// Acquire the trusted service's identity.
    Acquire,
    /// A preparation failed: no acquisition is attempted.
    GiveUp,
}

/// What comes after preparation `p`, which succeeded where `ok` holds.
pub open spec fn after_preparation(p: Preparation, ok: bool) -> Preparation {
    match p {
        Preparation::EnablePrivileges => if ok { Preparation::ImpersonateSystem } else { Preparation::GiveUp },
        Preparation::ImpersonateSystem => if ok { Preparation::Acquire } else { Preparation::GiveUp },
        _ => p,
    }
}

/// What comes after preparation `p`, which succeeded where `ok` holds.
pub fn next_preparation(p: Preparation, ok: bool) -> (r: Preparation)
    ensures
        r == after_preparation(p, ok),
{
    match p {
        Preparation::EnablePrivileges => if ok { Preparation::ImpersonateSystem } else { Preparation::GiveUp },
        Preparation::ImpersonateSystem => if ok { Preparation::Acquire } else { Preparation::GiveUp },
        _ => p,
    }
}

/// An acquisition is reached only through both preparations succeeding, in order.
pub proof fn lemma_acquire_only_after_preparations(ok1: bool, ok2: bool)
    ensures
        after_preparation(after_preparation(Preparation::EnablePrivileges, ok1), ok2) == Preparation::Acquire
            <==> ok1 && ok2,
{
}

} // verus!
