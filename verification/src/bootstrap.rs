//! Fail-fast service bootstrap sequencing.
//!
//! A [`Sequencer`] brings a configured service from "configured" to
//! "serving" through a fixed, ordered list of irreversible startup steps:
//! datastore connection, schema migration, crash-hook installation, an
//! optional broker subscription, listener bind, serve. The sequencer only
//! decides; the entrypoint performs each side effect and reports its
//! outcome back. A failing step moves the machine to a terminal failed
//! state, after which no further step is ever offered: a step never runs
//! if an earlier step failed, and no step is ever retried.

use vstd::prelude::*;
use crate::config::Env;

verus! {

/// What the running service variant depends on; the step list is built
/// from this capability set.
#[derive(Clone, Copy, Debug, PartialEq, Eq, Structural)]
pub enum Capability {
    /// Datastore only: no broker subscription step.
    DatastoreOnly,
    /// Datastore and message broker.
    DatastoreAndBroker,
}

/// The single fatal failure mode of each bootstrap step.
#[derive(Clone, Copy, Debug, PartialEq, Eq, Structural)]
pub enum BootstrapError {
    /// The datastore connection could not be established.
    DatastoreUnavailable,
    /// Applying the pending schema migrations failed.
    MigrationFailed,
    /// The process-wide crash-reporting hook could not be installed.
    CrashHookFailed,
    /// The broker consumer could not be constructed.
    BrokerUnavailable,
    /// The broker consumer could not subscribe to its topic.
    SubscriptionFailed,
    /// The TCP listener could not bind the resolved server address.
    ListenerBindFailed,
}

/// One ordered, irreversible startup action.
#[derive(Clone, Copy, Debug, PartialEq, Eq, Structural)]
pub enum BootstrapStep {
    /// Establish the connection pool to the relational datastore.
    ConnectDatastore,
    /// Apply the pending schema migrations over that connection.
    RunMigrations,
    /// Install the process-wide crash-reporting hook.
    InstallCrashHook,
    /// Construct the broker consumer and subscribe it to its fixed topic.
    SubscribeBroker,
    /// Bind the TCP listener to the resolved server address.
    BindListener,
    /// Hand the listener to the router and begin serving.
    Serve,
}

/// Where the bootstrap stands. Every transition is one-directional;
/// `Failed` is terminal and ends the process.
#[derive(Clone, Copy, Debug, PartialEq, Eq, Structural)]
pub enum BootstrapState {
    /// No resolved configuration yet.
    Unconfigured,
    /// Configuration resolved; nothing started.
    Configured,
    /// The datastore connection pool is up.
    DatastoreConnected,
    /// The schema migrations are applied.
    Migrated,
    /// The crash-reporting hook is installed.
    HookInstalled,
    /// The broker consumer is subscribed.
    BrokerSubscribed,
    /// The listener is bound.
    Listening,
    /// The service is serving; it runs until externally terminated.
    Serving,
    /// A step failed; the sequence is over and the process exits non-zero.
    Failed(BootstrapError),
}

/// The step to perform next in a given state, or nothing when the state is
/// terminal (serving or failed) or configuration is still pending.
pub open spec fn spec_next_step(state: BootstrapState, caps: Capability) -> Option<BootstrapStep> {
    match state {
        BootstrapState::Unconfigured => None,
        BootstrapState::Configured => Some(BootstrapStep::ConnectDatastore),
        BootstrapState::DatastoreConnected => Some(BootstrapStep::RunMigrations),
        BootstrapState::Migrated => Some(BootstrapStep::InstallCrashHook),
        BootstrapState::HookInstalled => match caps {
            Capability::DatastoreAndBroker => Some(BootstrapStep::SubscribeBroker),
            Capability::DatastoreOnly => Some(BootstrapStep::BindListener),
        },
        BootstrapState::BrokerSubscribed => Some(BootstrapStep::BindListener),
        BootstrapState::Listening => Some(BootstrapStep::Serve),
        BootstrapState::Serving => None,
        BootstrapState::Failed(_) => None,
    }
}

/// The state a step's success establishes.
pub open spec fn spec_success_state(step: BootstrapStep) -> BootstrapState {
    match step {
        BootstrapStep::ConnectDatastore => BootstrapState::DatastoreConnected,
        BootstrapStep::RunMigrations => BootstrapState::Migrated,
        BootstrapStep::InstallCrashHook => BootstrapState::HookInstalled,
        BootstrapStep::SubscribeBroker => BootstrapState::BrokerSubscribed,
        BootstrapStep::BindListener => BootstrapState::Listening,
        BootstrapStep::Serve => BootstrapState::Serving,
    }
}

/// Which error a step may report. Serving itself has no failure event in
/// the sequence: once it starts it is the terminal state, and the process
/// runs until externally terminated.
pub open spec fn spec_may_fail_with(step: BootstrapStep, e: BootstrapError) -> bool {
    match step {
        BootstrapStep::ConnectDatastore => e is DatastoreUnavailable,
        BootstrapStep::RunMigrations => e is MigrationFailed,
        BootstrapStep::InstallCrashHook => e is CrashHookFailed,
        BootstrapStep::SubscribeBroker => e is BrokerUnavailable || e is SubscriptionFailed,
        BootstrapStep::BindListener => e is ListenerBindFailed,
        BootstrapStep::Serve => false,
    }
}

/// The state one reported outcome of a step establishes: its success
/// state, or the terminal failed state carrying the reported error
/// unchanged.
pub open spec fn spec_apply(step: BootstrapStep, outcome: Option<BootstrapError>) -> BootstrapState {
    match outcome {
        None => spec_success_state(step),
        Some(e) => BootstrapState::Failed(e),
    }
}

/// The position of a state on the one-directional bootstrap path.
pub open spec fn spec_stage(state: BootstrapState) -> int {
    match state {
        BootstrapState::Unconfigured => 0,
        BootstrapState::Configured => 1,
        BootstrapState::DatastoreConnected => 2,
        BootstrapState::Migrated => 3,
        BootstrapState::HookInstalled => 4,
        BootstrapState::BrokerSubscribed => 5,
        BootstrapState::Listening => 6,
        BootstrapState::Serving => 7,
        BootstrapState::Failed(_) => 7,
    }
}

/// The state the machine reaches from `state` after the given sequence of
/// step outcomes, each outcome answering the step pending at that point;
/// once no step is pending, the remaining outcomes are never consulted.
pub open spec fn spec_run(
    state: BootstrapState,
    caps: Capability,
    outcomes: Seq<Option<BootstrapError>>,
) -> BootstrapState
    decreases outcomes.len(),
{
    if outcomes.len() == 0 {
        state
    } else {
        match spec_next_step(state, caps) {
            None => state,
            Some(step) => spec_run(spec_apply(step, outcomes.first()), caps, outcomes.drop_first()),
        }
    }
}

/// How many steps remain on the success path from a state.
pub open spec fn spec_remaining(state: BootstrapState, caps: Capability) -> nat
    decreases 9 - spec_stage(state),
{
    match spec_next_step(state, caps) {
        None => 0,
        Some(step) => 1 + spec_remaining(spec_success_state(step), caps),
    }
}

/// How many steps the whole sequence has for a capability set.
pub open spec fn spec_step_count(caps: Capability) -> nat {
    match caps {
        Capability::DatastoreOnly => 5,
        Capability::DatastoreAndBroker => 6,
    }
}

/// Failure and serving are terminal: neither state offers a further step,
/// so a step never runs after an earlier step failed, and nothing follows
/// serving.
pub proof fn lemma_terminal_states_offer_no_step(e: BootstrapError, caps: Capability)
    ensures
        spec_next_step(BootstrapState::Failed(e), caps) is None,
        spec_next_step(BootstrapState::Serving, caps) is None,
{
}

/// Progress is one-directional: a successful step moves the machine
/// strictly forward on the bootstrap path, so no state is ever revisited
/// and no step retried.
pub proof fn lemma_success_strictly_advances(state: BootstrapState, caps: Capability)
    requires
        spec_next_step(state, caps) is Some,
    ensures
        spec_stage(spec_success_state(spec_next_step(state, caps).unwrap())) > spec_stage(state),
{
}

/// A failed machine stays failed whatever outcomes follow: the error is
/// propagated unchanged to the end of the run.
pub proof fn lemma_failed_stays_failed(
    e: BootstrapError,
    caps: Capability,
    outcomes: Seq<Option<BootstrapError>>,
)
    ensures
        spec_run(BootstrapState::Failed(e), caps, outcomes) == BootstrapState::Failed(e),
{
}

/// Fail-fast: when the pending step fails, the whole run ends in the
/// terminal failed state carrying that very error, and the later outcomes
/// are never consulted.
pub proof fn lemma_first_failure_decides(
    state: BootstrapState,
    caps: Capability,
    outcomes: Seq<Option<BootstrapError>>,
    e: BootstrapError,
)
    requires
        spec_next_step(state, caps) is Some,
        outcomes.len() > 0,
        outcomes.first() == Some(e),
    ensures
        spec_run(state, caps, outcomes) == BootstrapState::Failed(e),
{
    lemma_failed_stays_failed(e, caps, outcomes.drop_first());
}

/// With every remaining step succeeding, a machine that is past
/// configuration and has not failed runs to the terminal serving state.
pub proof fn lemma_all_success_reaches_serving(
    state: BootstrapState,
    caps: Capability,
    outcomes: Seq<Option<BootstrapError>>,
)
    requires
        outcomes.len() == spec_remaining(state, caps),
        forall|i: int| 0 <= i < outcomes.len() ==> outcomes[i] is None,
        !(state is Unconfigured),
        !(state is Failed),
    ensures
        spec_run(state, caps, outcomes) == BootstrapState::Serving,
    decreases outcomes.len(),
{
    if outcomes.len() == 0 {
        assert(state is Serving);
    } else {
        let step = spec_next_step(state, caps).unwrap();
        let next = spec_success_state(step);
        assert(outcomes.first() is None);
        assert(forall|i: int|
            0 <= i < outcomes.drop_first().len() ==> #[trigger] outcomes.drop_first()[i]
                == outcomes[i + 1]);
        lemma_all_success_reaches_serving(next, caps, outcomes.drop_first());
    }
}

/// The full sequence from the configured state has exactly the canonical
/// number of steps for its capability set and, with every step
/// succeeding, ends serving.
pub proof fn lemma_canonical_run(caps: Capability, outcomes: Seq<Option<BootstrapError>>)
    requires
        outcomes.len() == spec_step_count(caps),
        forall|i: int| 0 <= i < outcomes.len() ==> outcomes[i] is None,
    ensures
        spec_remaining(BootstrapState::Configured, caps) == spec_step_count(caps),
        spec_run(BootstrapState::Configured, caps, outcomes) == BootstrapState::Serving,
{
    reveal_with_fuel(spec_remaining, 8);
    assert(spec_remaining(BootstrapState::Configured, caps) == spec_step_count(caps));
    lemma_all_success_reaches_serving(BootstrapState::Configured, caps, outcomes);
}

/// The bootstrap sequencer: holds where the bootstrap stands and which
/// capability set the running variant declared, decides the next step, and
/// records each reported outcome. It performs no side effect itself.
pub struct Sequencer {
    caps: Capability,
    state: BootstrapState,
}

impl Sequencer {
    /// The capability set this sequencer was declared with.
    pub closed spec fn spec_caps(&self) -> Capability {
        self.caps
    }

    /// Where the bootstrap stands.
    pub closed spec fn spec_state(&self) -> BootstrapState {
        self.state
    }

    /// A sequencer for a variant with the given capability set, with no
    /// configuration resolved yet.
    pub fn new(caps: Capability) -> (s: Sequencer)
        ensures
            s.spec_caps() == caps,
            s.spec_state() == BootstrapState::Unconfigured,
    {
        Sequencer { caps, state: BootstrapState::Unconfigured }
    }

    /// Record that configuration resolution succeeded. The resolved
    /// settings are the witness: an `Env` exists only when every required
    /// key has a value.
    pub fn configure(&mut self, config: &Env)
        requires
            old(self).spec_state() == BootstrapState::Unconfigured,
        ensures
            final(self).spec_caps() == old(self).spec_caps(),
            final(self).spec_state() == BootstrapState::Configured,
    {
        let _ = config;
        self.state = BootstrapState::Configured;
    }

    /// The step to perform next, or nothing when the machine is terminal
    /// or still unconfigured.
    pub fn next_step(&self) -> (r: Option<BootstrapStep>)
        ensures
            r == spec_next_step(self.spec_state(), self.spec_caps()),
    {
        match self.state {
            BootstrapState::Unconfigured => None,
            BootstrapState::Configured => Some(BootstrapStep::ConnectDatastore),
            BootstrapState::DatastoreConnected => Some(BootstrapStep::RunMigrations),
            BootstrapState::Migrated => Some(BootstrapStep::InstallCrashHook),
            BootstrapState::HookInstalled => match self.caps {
                Capability::DatastoreAndBroker => Some(BootstrapStep::SubscribeBroker),
                Capability::DatastoreOnly => Some(BootstrapStep::BindListener),
            },
            BootstrapState::BrokerSubscribed => Some(BootstrapStep::BindListener),
            BootstrapState::Listening => Some(BootstrapStep::Serve),
            BootstrapState::Serving => None,
            BootstrapState::Failed(_) => None,
        }
    }

    /// Record the outcome of the pending step: success establishes the
    /// step's state, failure moves to the terminal failed state carrying
    /// the step's error unchanged.
    pub fn apply(&mut self, step: BootstrapStep, outcome: Option<BootstrapError>)
        requires
            spec_next_step(old(self).spec_state(), old(self).spec_caps()) == Some(step),
            match outcome {
                Some(e) => spec_may_fail_with(step, e),
                None => true,
            },
        ensures
            final(self).spec_caps() == old(self).spec_caps(),
            final(self).spec_state() == spec_apply(step, outcome),
    {
        self.state = match outcome {
            None => match step {
                BootstrapStep::ConnectDatastore => BootstrapState::DatastoreConnected,
                BootstrapStep::RunMigrations => BootstrapState::Migrated,
                BootstrapStep::InstallCrashHook => BootstrapState::HookInstalled,
                BootstrapStep::SubscribeBroker => BootstrapState::BrokerSubscribed,
                BootstrapStep::BindListener => BootstrapState::Listening,
                BootstrapStep::Serve => BootstrapState::Serving,
            },
            Some(e) => BootstrapState::Failed(e),
        };
    }

    /// Where the bootstrap stands, for the entrypoint's loop and its exit
    /// status.
    pub fn state(&self) -> (s: BootstrapState)
        ensures
            s == self.spec_state(),
    {
        self.state
    }
}

} // verus!
