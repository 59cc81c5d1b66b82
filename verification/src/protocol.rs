//! The suspend/resume protocol between the three processes of one
//! isolation cycle: the caller, the init process that owns the fresh
//! namespaces, and the worker that runs the task. The processes share no
//! memory, so every decision is a pure step function from an observed event
//! to the next state and the action to perform; the embedding program runs
//! the loop, performs the actions, and feeds the events back. The central
//! guarantee is proved over every possible trace: a worker is told to
//! proceed only after its id mapping and bind mounts are complete, and a
//! worker exit is cleaned up exactly once.
use vstd::prelude::*;

verus! {

/// The life of a worker process, as the engine observes it.
#[derive(Clone, Copy, Debug, PartialEq, Eq, Structural)]
pub enum WorkerPhase {
    /// Just spawned; has not yet reached its suspension point.
    Created,
    /// Stopped at its startup suspension point, waiting for the continue
    /// signal.
    Suspended,
    /// Told to proceed: entered the private root and running the task.
    Running,
    /// The task finished and the process exited.
    Exited,
}

/// What the init process can observe.
#[derive(Clone, Copy, Debug, PartialEq, Eq, Structural)]
pub enum InitEvent {
    /// The worker clone returned a pid.
    WorkerCloned(i32),
    /// The worker clone failed with an errno.
    WorkerCloneFailed(i32),
    /// `mount_all` returned: every configured bind mount has been tried.
    MountsFinished,
    /// The caller's continue signal arrived.
    ContinueRequested,
    /// The child-exit signal arrived.
    ChildExited,
}

/// What the init process must do next.
#[derive(Clone, Copy, Debug, PartialEq, Eq, Structural)]
pub enum InitAction {
    /// Run the configured bind mounts in the shared mount namespace.
    RunMounts,
    /// Block waiting for the next signal.
    AwaitSignal,
    /// Forward the continue signal to the worker with this pid.
    ForwardContinue(i32),
    /// Remove the request's runtime directory and exit.
    CleanupAndExit,
    /// Exit, reporting the spawn failure.
    ExitFailure(i32),
    /// Nothing: the event does not concern the current state.
    Idle,
}

/// The init process's state.
#[derive(Clone, Copy, Debug, PartialEq, Eq, Structural)]
pub enum InitState {
    /// Entered its namespaces, continue signal blocked, worker not yet
    /// spawned.
    Start,
    /// The worker with this pid is suspended; mounts are under way.
    Mounting(i32),
    /// Mounts complete: relaying signals for the worker with this pid.
    Relaying(i32),
    /// The worker exited and cleanup ran.
    Done,
    /// The worker could not be spawned.
    Failed,
}

/// The init step function: what each event means in each state. Mounting
/// begins only once the worker is suspended; the continue signal is
/// forwarded only while relaying, which is entered only when the mounts
/// have finished; a child exit is cleaned up from the relaying state alone,
/// and `Done` absorbs every further event.
pub open spec fn spec_init_step(s: InitState, e: InitEvent) -> (InitState, InitAction) {
    match (s, e) {
        (InitState::Start, InitEvent::WorkerCloned(pid)) => (
            InitState::Mounting(pid),
            InitAction::RunMounts,
        ),
        (InitState::Start, InitEvent::WorkerCloneFailed(errno)) => (
            InitState::Failed,
            InitAction::ExitFailure(errno),
        ),
        (InitState::Mounting(pid), InitEvent::MountsFinished) => (
            InitState::Relaying(pid),
            InitAction::AwaitSignal,
        ),
        (InitState::Relaying(pid), InitEvent::ContinueRequested) => (
            InitState::Relaying(pid),
            InitAction::ForwardContinue(pid),
        ),
        (InitState::Relaying(_), InitEvent::ChildExited) => (
            InitState::Done,
            InitAction::CleanupAndExit,
        ),
        (s, _) => (s, InitAction::Idle),
    }
}

/// Take one init step.
pub fn init_step(s: InitState, e: InitEvent) -> (r: (InitState, InitAction))
    ensures
        r == spec_init_step(s, e),
{
    match (s, e) {
        (InitState::Start, InitEvent::WorkerCloned(pid)) => (
            InitState::Mounting(pid),
            InitAction::RunMounts,
        ),
        (InitState::Start, InitEvent::WorkerCloneFailed(errno)) => (
            InitState::Failed,
            InitAction::ExitFailure(errno),
        ),
        (InitState::Mounting(pid), InitEvent::MountsFinished) => (
            InitState::Relaying(pid),
            InitAction::AwaitSignal,
        ),
        (InitState::Relaying(pid), InitEvent::ContinueRequested) => (
            InitState::Relaying(pid),
            InitAction::ForwardContinue(pid),
        ),
        (InitState::Relaying(_), InitEvent::ChildExited) => (
            InitState::Done,
            InitAction::CleanupAndExit,
        ),
        (other, _) => (other, InitAction::Idle),
    }
}

/// The init state after a whole trace of events, from `Start`.
pub open spec fn init_state_after(events: Seq<InitEvent>) -> InitState
    decreases events.len(),
{
    if events.len() == 0 {
        InitState::Start
    } else {
        spec_init_step(init_state_after(events.drop_last()), events.last()).0
    }
}

/// The actions a whole trace of events makes init perform, in order.
pub open spec fn init_actions(events: Seq<InitEvent>) -> Seq<InitAction>
    decreases events.len(),
{
    if events.len() == 0 {
        Seq::empty()
    } else {
        init_actions(events.drop_last()).push(
            spec_init_step(init_state_after(events.drop_last()), events.last()).1,
        )
    }
}

/// Init relays (or has finished) only when it has seen the mounts finish.
proof fn lemma_relaying_needs_mounts(events: Seq<InitEvent>)
    ensures
        (init_state_after(events) is Relaying || init_state_after(events) is Done) ==> exists|
            j: int,
        | 0 <= j < events.len() && events[j] == InitEvent::MountsFinished,
    decreases events.len(),
{
    if events.len() > 0 {
        lemma_relaying_needs_mounts(events.drop_last());
        let prev = init_state_after(events.drop_last());
        let cur = init_state_after(events);
        if cur is Relaying || cur is Done {
            if prev is Relaying || prev is Done {
                let j = choose|j: int|
                    0 <= j < events.len() - 1 && events.drop_last()[j]
                        == InitEvent::MountsFinished;
                assert(events[j] == InitEvent::MountsFinished);
            } else {
                assert(events.last() == InitEvent::MountsFinished);
                assert(events[events.len() - 1] == InitEvent::MountsFinished);
            }
        }
    }
}

/// The worker is told to continue only after its mounts are in place: in
/// every trace, an action that forwards the continue signal comes strictly
/// after the event that reported the bind mounts finished. This is the
/// ordering the suspend/resume protocol exists to enforce: the worker's
/// chroot target is fully populated by the time the worker may proceed.
pub proof fn lemma_continue_only_after_mounts(events: Seq<InitEvent>, k: int)
    requires
        0 <= k < events.len(),
        init_actions(events)[k] is ForwardContinue,
    ensures
        exists|j: int| 0 <= j < k && events[j] == InitEvent::MountsFinished,
    decreases events.len(),
{
    lemma_init_actions_indexed(events, k);
    let before = events.take(k);
    lemma_relaying_needs_mounts(before);
    assert(init_state_after(before) is Relaying);
    let j = choose|j: int| 0 <= j < before.len() && before[j] == InitEvent::MountsFinished;
    assert(events[j] == InitEvent::MountsFinished);
}

/// The action at position `k` is the step out of the state reached by the
/// first `k` events.
proof fn lemma_init_actions_indexed(events: Seq<InitEvent>, k: int)
    requires
        0 <= k < events.len(),
    ensures
        init_actions(events).len() == events.len(),
        init_actions(events)[k] == spec_init_step(init_state_after(events.take(k)), events[k]).1,
    decreases events.len(),
{
    lemma_init_actions_len(events);
    if events.len() > 0 {
        if k == events.len() - 1 {
            assert(events.take(k) =~= events.drop_last());
        } else {
            lemma_init_actions_indexed(events.drop_last(), k);
            assert(events.drop_last().take(k) =~= events.take(k));
            assert(events.drop_last()[k] == events[k]);
            lemma_init_actions_len(events.drop_last());
        }
    }
}

/// One action per event.
proof fn lemma_init_actions_len(events: Seq<InitEvent>)
    ensures
        init_actions(events).len() == events.len(),
    decreases events.len(),
{
    if events.len() > 0 {
        lemma_init_actions_len(events.drop_last());
    }
}

/// How many cleanups a trace performs.
pub open spec fn count_cleanups(actions: Seq<InitAction>) -> int
    decreases actions.len(),
{
    if actions.len() == 0 {
        0
    } else {
        count_cleanups(actions.drop_last()) + if actions.last() == InitAction::CleanupAndExit {
            1int
        } else {
            0int
        }
    }
}

/// A worker exit is cleaned up exactly once: over every trace, init removes
/// the request's runtime directory once if it has observed the child exit
/// while relaying, and never a second time — `Done` absorbs any further
/// signal without acting, so no directory is double-removed and no exit is
/// double-handled.
pub proof fn lemma_cleanup_exactly_once(events: Seq<InitEvent>)
    ensures
        count_cleanups(init_actions(events)) == if init_state_after(events) is Done {
            1int
        } else {
            0int
        },
    decreases events.len(),
{
    if events.len() > 0 {
        lemma_cleanup_exactly_once(events.drop_last());
        assert(init_actions(events).drop_last() =~= init_actions(events.drop_last()));
    }
}

/// What the worker can observe.
#[derive(Clone, Copy, Debug, PartialEq, Eq, Structural)]
pub enum WorkerEvent {
    /// The worker reached its startup suspension point.
    SuspensionReached,
    /// The continue signal arrived.
    ContinueReceived,
    /// The task ran and its response was written.
    TaskCompleted,
}

/// What the worker must do next.
#[derive(Clone, Copy, Debug, PartialEq, Eq, Structural)]
pub enum WorkerAction {
    /// Block until an unblocked signal arrives.
    AwaitContinue,
    /// Chroot into the private root, change to it, and run the task.
    EnterRootAndRun,
    /// Exit with the task's status.
    Exit,
    /// Nothing: the event does not concern the current phase.
    Idle,
}

/// The worker step function: suspend first, enter the private root and run
/// only once the continue signal arrives, then exit.
pub open spec fn spec_worker_step(p: WorkerPhase, e: WorkerEvent) -> (WorkerPhase, WorkerAction) {
    match (p, e) {
        (WorkerPhase::Created, WorkerEvent::SuspensionReached) => (
            WorkerPhase::Suspended,
            WorkerAction::AwaitContinue,
        ),
        (WorkerPhase::Suspended, WorkerEvent::ContinueReceived) => (
            WorkerPhase::Running,
            WorkerAction::EnterRootAndRun,
        ),
        (WorkerPhase::Running, WorkerEvent::TaskCompleted) => (
            WorkerPhase::Exited,
            WorkerAction::Exit,
        ),
        (p, _) => (p, WorkerAction::Idle),
    }
}

/// Take one worker step.
pub fn worker_step(p: WorkerPhase, e: WorkerEvent) -> (r: (WorkerPhase, WorkerAction))
    ensures
        r == spec_worker_step(p, e),
{
    match (p, e) {
        (WorkerPhase::Created, WorkerEvent::SuspensionReached) => (
            WorkerPhase::Suspended,
            WorkerAction::AwaitContinue,
        ),
        (WorkerPhase::Suspended, WorkerEvent::ContinueReceived) => (
            WorkerPhase::Running,
            WorkerAction::EnterRootAndRun,
        ),
        (WorkerPhase::Running, WorkerEvent::TaskCompleted) => (
            WorkerPhase::Exited,
            WorkerAction::Exit,
        ),
        (other, _) => (other, WorkerAction::Idle),
    }
}

/// What the caller does that the ordering depends on.
#[derive(Clone, Copy, Debug, PartialEq, Eq, Structural)]
pub enum CallerEvent {
    /// The caller wrote the worker's uid map.
    IdMapWritten,
    /// The caller sent init the continue request, its setup being done.
    ContinueSent,
}

/// The whole three-process system, as far as the ordering guarantee needs
/// it: the init state, the worker phase, and which of the shared milestones
/// have been passed — id map written, continue requested by the caller,
/// mounts finished, continue forwarded to the worker.
pub struct SystemState {
    pub init: InitState,
    pub worker: WorkerPhase,
    pub idmap_done: bool,
    pub continue_requested: bool,
    pub mounts_done: bool,
    pub continue_sent: bool,
}

/// One observable step of the system.
#[derive(Clone, Copy, Debug, PartialEq, Eq, Structural)]
pub enum SystemEvent {
    /// The caller performs one of its setup steps.
    AtCaller(CallerEvent),
    /// Init observes one of its events.
    AtInit(InitEvent),
    /// The worker observes one of its events.
    AtWorker(WorkerEvent),
}

/// The state before any event.
pub open spec fn system_init() -> SystemState {
    SystemState {
        init: InitState::Start,
        worker: WorkerPhase::Created,
        idmap_done: false,
        continue_requested: false,
        mounts_done: false,
        continue_sent: false,
    }
}

/// When an event can really happen. The facts that tie the processes
/// together: the caller requests the continue only after its privileged
/// setup (the id-map write) is done; `MountsFinished` is the return of
/// `mount_all`, which init runs only while mounting; init can observe a
/// continue request only after the caller made one; and the worker's
/// continue signal can only be the one init forwarded, because the worker
/// suspends with the signal blocked before init ever sends it.
pub open spec fn system_event_enabled(s: SystemState, e: SystemEvent) -> bool {
    match e {
        SystemEvent::AtCaller(CallerEvent::ContinueSent) => s.idmap_done,
        SystemEvent::AtInit(InitEvent::MountsFinished) => s.init is Mounting,
        SystemEvent::AtInit(InitEvent::ContinueRequested) => s.continue_requested,
        SystemEvent::AtWorker(WorkerEvent::ContinueReceived) => s.continue_sent && s.worker
            is Suspended,
        SystemEvent::AtWorker(WorkerEvent::TaskCompleted) => s.worker is Running,
        _ => true,
    }
}

/// One system step: the concerned process steps, and the shared milestones
/// are recorded.
pub open spec fn system_step(s: SystemState, e: SystemEvent) -> SystemState {
    match e {
        SystemEvent::AtCaller(ce) => SystemState {
            idmap_done: s.idmap_done || ce == CallerEvent::IdMapWritten,
            continue_requested: s.continue_requested || ce == CallerEvent::ContinueSent,
            ..s
        },
        SystemEvent::AtInit(ie) => SystemState {
            init: spec_init_step(s.init, ie).0,
            mounts_done: s.mounts_done || ie == InitEvent::MountsFinished,
            continue_sent: s.continue_sent || spec_init_step(s.init, ie).1 is ForwardContinue,
            ..s
        },
        SystemEvent::AtWorker(we) => SystemState { worker: spec_worker_step(s.worker, we).0, ..s },
    }
}

/// What always holds of the system: the caller requests the continue only
/// after the id map is written; init relays only after the mounts are done;
/// the continue signal is forwarded only after both; and the worker runs
/// only after the forwarded signal — so a running (chrooted) worker implies
/// its id mapping and every bind mount are in place.
pub open spec fn system_inv(s: SystemState) -> bool {
    &&& (s.init is Relaying || s.init is Done) ==> s.mounts_done
    &&& s.continue_requested ==> s.idmap_done
    &&& s.continue_sent ==> s.mounts_done && s.idmap_done
    &&& (s.worker is Running || s.worker is Exited) ==> s.continue_sent
}

/// The invariant holds initially.
pub proof fn lemma_system_inv_init()
    ensures
        system_inv(system_init()),
{
}

/// Every enabled step preserves the invariant.
pub proof fn lemma_system_inv_step(s: SystemState, e: SystemEvent)
    requires
        system_inv(s),
        system_event_enabled(s, e),
    ensures
        system_inv(system_step(s, e)),
{
}

/// The state after a trace of enabled events.
pub open spec fn system_run(events: Seq<SystemEvent>) -> SystemState
    decreases events.len(),
{
    if events.len() == 0 {
        system_init()
    } else {
        system_step(system_run(events.drop_last()), events.last())
    }
}

/// A trace whose every event was enabled when it happened.
pub open spec fn system_trace_enabled(events: Seq<SystemEvent>) -> bool
    decreases events.len(),
{
    if events.len() == 0 {
        true
    } else {
        system_trace_enabled(events.drop_last()) && system_event_enabled(
            system_run(events.drop_last()),
            events.last(),
        )
    }
}

/// The suspend/resume guarantee, over every possible run of the system: at
/// any moment the worker is past its suspension point — in particular at
/// the instant it chroots into its private root — every configured bind
/// mount and the uid-map write have already been completed. No interleaving
/// of signals, setup steps and mount completions can make a worker proceed
/// early.
pub proof fn lemma_worker_runs_only_after_mounts(events: Seq<SystemEvent>)
    requires
        system_trace_enabled(events),
    ensures
        system_inv(system_run(events)),
        system_run(events).worker is Running ==> system_run(events).mounts_done && system_run(
            events,
        ).idmap_done,
    decreases events.len(),
{
    if events.len() == 0 {
        lemma_system_inv_init();
    } else {
        lemma_worker_runs_only_after_mounts(events.drop_last());
        lemma_system_inv_step(system_run(events.drop_last()), events.last());
    }
}

/// What the caller does with the outcome of spawning the init process.
#[derive(Clone, Copy, Debug, PartialEq, Eq, Structural)]
pub enum IsolateNext {
    /// Init is up: send it the continue signal and release the caller's
    /// copy of the connection; the worker now owns it.
    Proceed(i32),
    /// Init could not be spawned: the connection goes back to the caller
    /// with the errno for error reporting.
    ReturnToCaller(i32),
}

/// Decide the caller's next move from the init spawn result: on success,
/// signal the init process and hand the connection over; on failure,
/// return the connection for error reporting.
pub fn isolate_decision(spawn_result: Result<i32, i32>) -> (r: IsolateNext)
    ensures
        spawn_result matches Ok(pid) ==> r == IsolateNext::Proceed(pid),
        spawn_result matches Err(e) ==> r == IsolateNext::ReturnToCaller(e),
{
    match spawn_result {
        Ok(pid) => IsolateNext::Proceed(pid),
        Err(e) => IsolateNext::ReturnToCaller(e),
    }
}

} // verus!
