//! The two-stage boot: hypervisor first, then the boot manager.
use vstd::prelude::*;

verus! {

/// The fixed stall before handing off to the boot manager.
pub const HANDOFF_DELAY_US: u64 = 3_000_000;

#[derive(Clone, Copy, Debug, PartialEq, Eq, Structural)]
pub enum Stage {
    Hypervisor,
    BootManager,
}

/// Why the boot was given up.
#[derive(Clone, Copy, Debug, PartialEq, Eq, Structural)]
pub enum AbortReason {
    /// No device holds the stage's image.
    NotFound(Stage),
    /// The stage's image could not be loaded; it was never started.
    LoadFailed(Stage),
    /// The stage's image was loaded but could not be started.
    StartFailed(Stage),
    /// The user pressed Escape at the boot-manager prompt.
    UserAbort,
    /// The platform layer reported something that does not fit the state.
    UnexpectedEvent,
}

#[derive(Clone, Copy, Debug, PartialEq, Eq, Structural)]
pub enum BootState {
    Init,
    /// Discovery of the hypervisor image is under way.
    FindHypervisor,
    /// The first hypervisor candidate is being loaded.
    LoadHypervisor,
    /// The hypervisor runs; it is expected to return control.
    AwaitHypervisorReturn,
    FindBootManager,
    /// The prompt chooses among this many boot-manager candidates.
    SelectBootManager(usize),
    /// The stall before handoff; the chosen candidate's index.
    PreHandoffDelay(usize),
    /// The chosen boot manager is being loaded.
    LoadBootManager(usize),
    /// The boot manager runs; it is not expected to return.
    StartBootManager,
    /// The boot manager returned control after all.
    Success,
    Aborted(AbortReason),
}

/// What the platform layer reports back after performing an action.
#[derive(Clone, Copy, Debug, PartialEq, Eq, Structural)]
pub enum BootEvent {
    Begin,
    /// Discovery found this many targets.
    Found(usize),
    Loaded,
    LoadFailed,
    /// The started image returned control.
    ControlReturned,
    StartFailed,
    /// The prompt chose the candidate at this zero-based index.
    Chosen(usize),
    SelectionAborted,
    Stalled,
}

#[derive(Clone, Copy, Debug, PartialEq, Eq, Structural)]
pub enum BootStatus {
    Success,
    Aborted,
}

/// What the platform layer is to do next.
#[derive(Clone, Copy, Debug, PartialEq, Eq, Structural)]
pub enum BootAction {
    /// Discover the devices that hold the stage's image.
    Discover(Stage),
    /// Load the stage's candidate at this zero-based index.
    Load(Stage, usize),
    /// Start the image that was just loaded.
    Start(Stage),
    /// Choose among this many candidates.
    Select(usize),
    /// Stall for this many microseconds.
    Stall(u64),
    /// End the process with this status.
    Exit(BootStatus),
}

pub open spec fn abort(reason: AbortReason) -> (BootState, BootAction) {
    (BootState::Aborted(reason), BootAction::Exit(BootStatus::Aborted))
}

/// One transition of the boot sequence. Every failure aborts at once, and the
/// terminal states stay put.
pub open spec fn next_spec(s: BootState, e: BootEvent) -> (BootState, BootAction) {
    match (s, e) {
        (BootState::Init, BootEvent::Begin) => (
            BootState::FindHypervisor,
            BootAction::Discover(Stage::Hypervisor),
        ),
        (BootState::FindHypervisor, BootEvent::Found(n)) => if n == 0 {
            abort(AbortReason::NotFound(Stage::Hypervisor))
        } else {
            (BootState::LoadHypervisor, BootAction::Load(Stage::Hypervisor, 0))
        },
        (BootState::LoadHypervisor, BootEvent::Loaded) => (
            BootState::AwaitHypervisorReturn,
            BootAction::Start(Stage::Hypervisor),
        ),
        (BootState::LoadHypervisor, BootEvent::LoadFailed) => abort(
            AbortReason::LoadFailed(Stage::Hypervisor),
        ),
        (BootState::AwaitHypervisorReturn, BootEvent::ControlReturned) => (
            BootState::FindBootManager,
            BootAction::Discover(Stage::BootManager),
        ),
        (BootState::AwaitHypervisorReturn, BootEvent::StartFailed) => abort(
            AbortReason::StartFailed(Stage::Hypervisor),
        ),
        (BootState::FindBootManager, BootEvent::Found(n)) => if n == 0 {
            abort(AbortReason::NotFound(Stage::BootManager))
        } else {
            (BootState::SelectBootManager(n), BootAction::Select(n))
        },
        (BootState::SelectBootManager(n), BootEvent::Chosen(i)) => if i < n {
            (BootState::PreHandoffDelay(i), BootAction::Stall(HANDOFF_DELAY_US))
        } else {
            abort(AbortReason::UnexpectedEvent)
        },
        (BootState::SelectBootManager(_), BootEvent::SelectionAborted) => abort(
            AbortReason::UserAbort,
        ),
        (BootState::PreHandoffDelay(i), BootEvent::Stalled) => (
            BootState::LoadBootManager(i),
            BootAction::Load(Stage::BootManager, i),
        ),
        (BootState::LoadBootManager(_), BootEvent::Loaded) => (
            BootState::StartBootManager,
            BootAction::Start(Stage::BootManager),
        ),
        (BootState::LoadBootManager(_), BootEvent::LoadFailed) => abort(
            AbortReason::LoadFailed(Stage::BootManager),
        ),
        (BootState::StartBootManager, BootEvent::ControlReturned) => (
            BootState::Success,
            BootAction::Exit(BootStatus::Success),
        ),
        (BootState::StartBootManager, BootEvent::StartFailed) => abort(
            AbortReason::StartFailed(Stage::BootManager),
        ),
        (BootState::Success, _) => (BootState::Success, BootAction::Exit(BootStatus::Success)),
        (BootState::Aborted(r), _) => abort(r),
        _ => abort(AbortReason::UnexpectedEvent),
    }
}

/// Runs the sequence over `events`: the final state and every action taken.
pub open spec fn run_boot(s: BootState, events: Seq<BootEvent>) -> (BootState, Seq<BootAction>)
    decreases events.len(),
{
    if events.len() == 0 {
        (s, Seq::empty())
    } else {
        let (s2, a) = next_spec(s, events[0]);
        let (s3, rest) = run_boot(s2, events.drop_first());
        (s3, seq![a] + rest)
    }
}

pub struct BootSequencer {
    pub state: BootState,
}

impl BootSequencer {
    pub fn new() -> (r: BootSequencer)
        ensures
            r.state == BootState::Init,
    {
        BootSequencer { state: BootState::Init }
    }

    /// Takes the platform layer's report and says what to do next.
    pub fn step(&mut self, event: BootEvent) -> (a: BootAction)
        ensures
            (final(self).state, a) == next_spec(old(self).state, event),
    {
        let (s, a) = match (self.state, event) {
            (BootState::Init, BootEvent::Begin) => (
                BootState::FindHypervisor,
                BootAction::Discover(Stage::Hypervisor),
            ),
            (BootState::FindHypervisor, BootEvent::Found(n)) => if n == 0 {
                aborted(AbortReason::NotFound(Stage::Hypervisor))
            } else {
                (BootState::LoadHypervisor, BootAction::Load(Stage::Hypervisor, 0))
            },
            (BootState::LoadHypervisor, BootEvent::Loaded) => (
                BootState::AwaitHypervisorReturn,
                BootAction::Start(Stage::Hypervisor),
            ),
            (BootState::LoadHypervisor, BootEvent::LoadFailed) => aborted(
                AbortReason::LoadFailed(Stage::Hypervisor),
            ),
            (BootState::AwaitHypervisorReturn, BootEvent::ControlReturned) => (
                BootState::FindBootManager,
                BootAction::Discover(Stage::BootManager),
            ),
            (BootState::AwaitHypervisorReturn, BootEvent::StartFailed) => aborted(
                AbortReason::StartFailed(Stage::Hypervisor),
            ),
            (BootState::FindBootManager, BootEvent::Found(n)) => if n == 0 {
                aborted(AbortReason::NotFound(Stage::BootManager))
            } else {
                (BootState::SelectBootManager(n), BootAction::Select(n))
            },
            (BootState::SelectBootManager(n), BootEvent::Chosen(i)) => if i < n {
                (BootState::PreHandoffDelay(i), BootAction::Stall(HANDOFF_DELAY_US))
            } else {
                aborted(AbortReason::UnexpectedEvent)
            },
            (BootState::SelectBootManager(_), BootEvent::SelectionAborted) => aborted(
                AbortReason::UserAbort,
            ),
            (BootState::PreHandoffDelay(i), BootEvent::Stalled) => (
                BootState::LoadBootManager(i),
                BootAction::Load(Stage::BootManager, i),
            ),
            (BootState::LoadBootManager(_), BootEvent::Loaded) => (
                BootState::StartBootManager,
                BootAction::Start(Stage::BootManager),
            ),
            (BootState::LoadBootManager(_), BootEvent::LoadFailed) => aborted(
                AbortReason::LoadFailed(Stage::BootManager),
            ),
            (BootState::StartBootManager, BootEvent::ControlReturned) => (
                BootState::Success,
                BootAction::Exit(BootStatus::Success),
            ),
            (BootState::StartBootManager, BootEvent::StartFailed) => aborted(
                AbortReason::StartFailed(Stage::BootManager),
            ),
            (BootState::Success, _) => (BootState::Success, BootAction::Exit(BootStatus::Success)),
            (BootState::Aborted(r), _) => aborted(r),
            _ => aborted(AbortReason::UnexpectedEvent),
        };
        self.state = s;
        a
    }
}

fn aborted(reason: AbortReason) -> (r: (BootState, BootAction))
    ensures
        r == abort(reason),
{
    (BootState::Aborted(reason), BootAction::Exit(BootStatus::Aborted))
}

/// Runs the sequence from `Init` over a recorded stream of reports: the
/// final state and every action taken.
pub fn run(events: &Vec<BootEvent>) -> (r: (BootState, Vec<BootAction>))
    ensures
        (r.0, r.1@) == run_boot(BootState::Init, events@),
{
    let mut seqr = BootSequencer::new();
    let mut actions: Vec<BootAction> = Vec::new();
    let ghost ev = events@;
    let mut i: usize = 0;
    assert(ev.skip(0) =~= ev);
    while i < events.len()
        invariant
            ev == events@,
            i <= ev.len(),
            run_boot(BootState::Init, ev) == (
                run_boot(seqr.state, ev.skip(i as int)).0,
                actions@ + run_boot(seqr.state, ev.skip(i as int)).1,
            ),
        decreases ev.len() - i,
    {
        let ghost s0 = seqr.state;
        let ghost acts0 = actions@;
        assert(ev.skip(i as int)[0] == ev[i as int]);
        assert(ev.skip(i as int).drop_first() =~= ev.skip(i + 1));
        let a = seqr.step(events[i]);
        actions.push(a);
        assert(acts0 + run_boot(s0, ev.skip(i as int)).1 =~= actions@ + run_boot(
            seqr.state,
            ev.skip(i + 1),
        ).1);
        i += 1;
    }
    assert(ev.skip(i as int) =~= Seq::<BootEvent>::empty());
    assert(actions@ + Seq::<BootAction>::empty() =~= actions@);
    (seqr.state, actions)
}

/// Once aborted, the sequence stays aborted and only ever exits with the
/// aborted status: nothing is discovered, loaded or started again.
pub proof fn lemma_abort_is_final(reason: AbortReason, events: Seq<BootEvent>)
    ensures
        run_boot(BootState::Aborted(reason), events).0 == BootState::Aborted(reason),
        run_boot(BootState::Aborted(reason), events).1.len() == events.len(),
        forall|j: int| 0 <= j < events.len() ==> #[trigger] run_boot(BootState::Aborted(reason), events).1[j]
            == BootAction::Exit(BootStatus::Aborted),
    decreases events.len(),
{
    if events.len() > 0 {
        lemma_abort_is_final(reason, events.drop_first());
        let rest = run_boot(BootState::Aborted(reason), events.drop_first()).1;
        assert forall|j: int| 0 <= j < events.len() implies #[trigger] run_boot(BootState::Aborted(reason), events).1[j]
            == BootAction::Exit(BootStatus::Aborted) by {
            if j > 0 {
                assert((seq![BootAction::Exit(BootStatus::Aborted)] + rest)[j] == rest[j - 1]);
            }
        }
    }
}

/// A stage whose image fails to load is reported as a load failure of that
/// stage, and no image is started or loaded afterwards, whatever follows.
pub proof fn lemma_load_failure_never_starts(stage: Stage, i: usize, events: Seq<BootEvent>)
    ensures
        ({
            let s = match stage {
                Stage::Hypervisor => BootState::LoadHypervisor,
                Stage::BootManager => BootState::LoadBootManager(i),
            };
            let (f, acts) = run_boot(s, seq![BootEvent::LoadFailed] + events);
            &&& f == BootState::Aborted(AbortReason::LoadFailed(stage))
            &&& forall|j: int| 0 <= j < acts.len() ==> #[trigger] acts[j] == BootAction::Exit(BootStatus::Aborted)
        }),
{
    let all = seq![BootEvent::LoadFailed] + events;
    assert(all[0] == BootEvent::LoadFailed);
    assert(all.drop_first() =~= events);
    lemma_abort_is_final(AbortReason::LoadFailed(stage), events);
    let rest = run_boot(BootState::Aborted(AbortReason::LoadFailed(stage)), events).1;
    assert forall|j: int| 0 <= j < 1 + rest.len() implies #[trigger] (seq![BootAction::Exit(BootStatus::Aborted)] + rest)[j]
        == BootAction::Exit(BootStatus::Aborted) by {
        if j > 0 {
            assert((seq![BootAction::Exit(BootStatus::Aborted)] + rest)[j] == rest[j - 1]);
        }
    }
}

/// Escape at the boot-manager prompt aborts, and no image is loaded or
/// started afterwards, whatever follows.
pub proof fn lemma_user_abort_never_loads(n: usize, events: Seq<BootEvent>)
    ensures
        ({
            let (f, acts) = run_boot(BootState::SelectBootManager(n), seq![BootEvent::SelectionAborted] + events);
            &&& f == BootState::Aborted(AbortReason::UserAbort)
            &&& forall|j: int| 0 <= j < acts.len() ==> #[trigger] acts[j] == BootAction::Exit(BootStatus::Aborted)
        }),
{
    let all = seq![BootEvent::SelectionAborted] + events;
    assert(all[0] == BootEvent::SelectionAborted);
    assert(all.drop_first() =~= events);
    lemma_abort_is_final(AbortReason::UserAbort, events);
    let rest = run_boot(BootState::Aborted(AbortReason::UserAbort), events).1;
    assert forall|j: int| 0 <= j < 1 + rest.len() implies #[trigger] (seq![BootAction::Exit(BootStatus::Aborted)] + rest)[j]
        == BootAction::Exit(BootStatus::Aborted) by {
        if j > 0 {
            assert((seq![BootAction::Exit(BootStatus::Aborted)] + rest)[j] == rest[j - 1]);
        }
    }
}

} // verus!
