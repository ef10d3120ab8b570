//! The decisions of the heartbeat loop.
//!
//! The loop waits for one interval, sends one beat, and acts on the answer:
//! an acknowledged beat clears the failure count and may carry new policy; a
//! control plane that no longer knows the node is answered by registering
//! again; any other failure is counted. The caller does the waiting and the
//! calls, and hands each outcome to `HeartbeatState::step`, which says what
//! to do next. No two beats overlap: a beat is sent only when a wait ends.

use vstd::prelude::*;
use crate::dynamic_config::{
    applied,
    apply_outcome,
    ApplyOutcome,
    DynamicConfig,
    DynamicConfigView,
    RemoteConfig,
    RemoteConfigView,
};

verus! {

/// What the loop is busy with.
#[derive(Clone, Copy, Debug, PartialEq, Eq, Structural)]
pub enum Phase {
    /// Between two beats.
    Waiting,
    /// A beat is on its way.
    Beating,
    /// The node is registering again.
    Registering,
    /// The loop has ended.
    Stopped,
}

/// The state of the loop.
pub struct HeartbeatState {
    phase: Phase,
    node_id: String,
    consecutive_failures: u32,
}

/// The state as plain mathematical values.
pub struct HeartbeatStateView {
    pub phase: Phase,
    pub node_id: Seq<char>,
    pub consecutive_failures: u32,
}

/// What happened since the last action was handed out.
pub enum HeartbeatEvent {
    /// The wait between two beats is over.
    WaitOver,
    /// Shutdown was signalled.
    Shutdown,
    /// The control plane acknowledged the beat; it may have pushed policy.
    Acknowledged { config_version: u64, remote_config: Option<RemoteConfig> },
    /// The control plane does not know the node.
    NodeNotFound,
    /// The beat failed in any other way.
    BeatFailed,
    /// The control plane registered the node under a new identifier. An
    /// empty identifier counts as a failed registration.
    Registered { node_id: String },
    /// Registering failed.
    RegisterFailed,
}

/// An event as plain mathematical values.
pub enum HeartbeatEventView {
    WaitOver,
    Shutdown,
    Acknowledged { config_version: u64, remote_config: Option<RemoteConfigView> },
    NodeNotFound,
    BeatFailed,
    Registered { node_id: Seq<char> },
    RegisterFailed,
}

/// What the caller does next.
pub enum HeartbeatAction {
    /// Wait for so many seconds, or until shutdown is signalled.
    Wait { seconds: u32 },
    /// Send a beat for this node identifier.
    Beat { node_id: String },
    /// Register the node again.
    Register,
    /// Nothing new: the event did not belong to what the loop is busy with.
    Proceed,
    /// End the loop.
    Stop,
}

/// An action as plain mathematical values.
pub enum HeartbeatActionView {
    Wait { seconds: u32 },
    Beat { node_id: Seq<char> },
    Register,
    Proceed,
    Stop,
}

/// What one step gives back.
pub struct Transition {
    /// What to do next.
    pub action: HeartbeatAction,
    /// What became of pushed policy, if the event carried any.
    pub pushed: Option<ApplyOutcome>,
    /// The node has a new identifier: readers must see it from now on.
    pub node_id_changed: bool,
}

/// One step as plain mathematical values: the state and the policy after
/// it, and what the caller is told.
pub struct StepView {
    pub state: HeartbeatStateView,
    pub config: DynamicConfigView,
    pub action: HeartbeatActionView,
    pub pushed: Option<ApplyOutcome>,
    pub node_id_changed: bool,
}

impl View for HeartbeatState {
    type V = HeartbeatStateView;

    closed spec fn view(&self) -> HeartbeatStateView {
        HeartbeatStateView {
            phase: self.phase,
            node_id: self.node_id@,
            consecutive_failures: self.consecutive_failures,
        }
    }
}

impl View for HeartbeatEvent {
    type V = HeartbeatEventView;

    open spec fn view(&self) -> HeartbeatEventView {
        match self {
            HeartbeatEvent::WaitOver => HeartbeatEventView::WaitOver,
            HeartbeatEvent::Shutdown => HeartbeatEventView::Shutdown,
            HeartbeatEvent::Acknowledged { config_version, remote_config } => {
                HeartbeatEventView::Acknowledged {
                    config_version: *config_version,
                    remote_config: match remote_config {
                        Some(r) => Some(r@),
                        None => None,
                    },
                }
            },
            HeartbeatEvent::NodeNotFound => HeartbeatEventView::NodeNotFound,
            HeartbeatEvent::BeatFailed => HeartbeatEventView::BeatFailed,
            HeartbeatEvent::Registered { node_id } => HeartbeatEventView::Registered {
                node_id: node_id@,
            },
            HeartbeatEvent::RegisterFailed => HeartbeatEventView::RegisterFailed,
        }
    }
}

impl View for HeartbeatAction {
    type V = HeartbeatActionView;

    open spec fn view(&self) -> HeartbeatActionView {
        match self {
            HeartbeatAction::Wait { seconds } => HeartbeatActionView::Wait { seconds: *seconds },
            HeartbeatAction::Beat { node_id } => HeartbeatActionView::Beat { node_id: node_id@ },
            HeartbeatAction::Register => HeartbeatActionView::Register,
            HeartbeatAction::Proceed => HeartbeatActionView::Proceed,
            HeartbeatAction::Stop => HeartbeatActionView::Stop,
        }
    }
}

/// A failure count one higher, held at the largest value that fits.
pub open spec fn one_more(failures: u32) -> u32 {
    if failures < u32::MAX {
        (failures + 1) as u32
    } else {
        failures
    }
}

/// The state with another phase.
pub open spec fn in_phase(s: HeartbeatStateView, phase: Phase) -> HeartbeatStateView {
    HeartbeatStateView { phase, ..s }
}

/// A step that changes nothing and tells the caller to go on.
pub open spec fn unmoved(s: HeartbeatStateView, c: DynamicConfigView) -> StepView {
    StepView {
        state: s,
        config: c,
        action: HeartbeatActionView::Proceed,
        pushed: None,
        node_id_changed: false,
    }
}

/// The step back into the wait between two beats, with `failures` counted.
pub open spec fn back_to_wait(
    s: HeartbeatStateView,
    c: DynamicConfigView,
    failures: u32,
) -> StepView {
    StepView {
        state: HeartbeatStateView {
            phase: Phase::Waiting,
            node_id: s.node_id,
            consecutive_failures: failures,
        },
        config: c,
        action: HeartbeatActionView::Wait { seconds: c.heartbeat_interval },
        pushed: None,
        node_id_changed: false,
    }
}

/// What the loop does in state `s` with policy `c` when `e` happens.
pub open spec fn step_of(
    s: HeartbeatStateView,
    c: DynamicConfigView,
    e: HeartbeatEventView,
) -> StepView {
    if s.phase == Phase::Stopped {
        StepView { action: HeartbeatActionView::Stop, ..unmoved(s, c) }
    } else {
        match e {
            HeartbeatEventView::Shutdown => StepView {
                state: in_phase(s, Phase::Stopped),
                action: HeartbeatActionView::Stop,
                ..unmoved(s, c)
            },
            HeartbeatEventView::WaitOver => if s.phase == Phase::Waiting {
                StepView {
                    state: in_phase(s, Phase::Beating),
                    action: HeartbeatActionView::Beat { node_id: s.node_id },
                    ..unmoved(s, c)
                }
            } else {
                unmoved(s, c)
            },
            HeartbeatEventView::Acknowledged { config_version, remote_config } => if s.phase
                == Phase::Beating {
                match remote_config {
                    Some(remote) => StepView {
                        pushed: Some(apply_outcome(c, remote, config_version)),
                        ..back_to_wait(s, applied(c, remote, config_version), 0)
                    },
                    None => back_to_wait(s, c, 0),
                }
            } else {
                unmoved(s, c)
            },
            HeartbeatEventView::NodeNotFound => if s.phase == Phase::Beating {
                StepView {
                    state: in_phase(s, Phase::Registering),
                    action: HeartbeatActionView::Register,
                    ..unmoved(s, c)
                }
            } else {
                unmoved(s, c)
            },
            HeartbeatEventView::BeatFailed => if s.phase == Phase::Beating {
                back_to_wait(s, c, one_more(s.consecutive_failures))
            } else {
                unmoved(s, c)
            },
            HeartbeatEventView::Registered { node_id } => if s.phase == Phase::Registering {
                if node_id.len() > 0 {
                    StepView {
                        node_id_changed: true,
                        ..back_to_wait(HeartbeatStateView { node_id, ..s }, c, 0)
                    }
                } else {
                    back_to_wait(s, c, one_more(s.consecutive_failures))
                }
            } else {
                unmoved(s, c)
            },
            HeartbeatEventView::RegisterFailed => if s.phase == Phase::Registering {
                back_to_wait(s, c, one_more(s.consecutive_failures))
            } else {
                unmoved(s, c)
            },
        }
    }
}

/// What holds of the state of every loop: the node has an identifier.
pub open spec fn valid_state(s: HeartbeatStateView) -> bool {
    s.node_id.len() > 0
}

impl HeartbeatState {
    /// The state of a loop that has just registered as `node_id`: between
    /// two beats, with no failure counted. There is none for an empty
    /// identifier.
    pub fn new(node_id: String) -> (state: Option<HeartbeatState>)
        ensures
            state is Some <==> node_id@.len() > 0,
            state is Some ==> state->0@ == (HeartbeatStateView {
                phase: Phase::Waiting,
                node_id: node_id@,
                consecutive_failures: 0,
            }),
    {
        if node_id.as_str().is_empty() {
            None
        } else {
            Some(HeartbeatState { phase: Phase::Waiting, node_id, consecutive_failures: 0 })
        }
    }

    /// The first action of the loop: the wait before the first beat, since
    /// registering stood for a beat.
    pub fn first_action(&self, config: &DynamicConfig) -> (action: HeartbeatAction)
        ensures
            action@ == (HeartbeatActionView::Wait { seconds: config@.heartbeat_interval }),
    {
        HeartbeatAction::Wait { seconds: config.heartbeat_interval() }
    }

    pub fn phase(&self) -> (phase: Phase)
        ensures
            phase == self@.phase,
    {
        self.phase
    }

    /// The identifier that the node goes by now.
    pub fn node_id(&self) -> (node_id: String)
        ensures
            node_id@ == self@.node_id,
    {
        self.node_id.clone()
    }

    /// How many beats and registrations in a row have failed.
    pub fn consecutive_failures(&self) -> (failures: u32)
        ensures
            failures == self@.consecutive_failures,
    {
        self.consecutive_failures
    }

    fn count_failure(&mut self)
        ensures
            final(self)@ == (HeartbeatStateView {
                consecutive_failures: one_more(old(self)@.consecutive_failures),
                ..old(self)@
            }),
    {
        if self.consecutive_failures < u32::MAX {
            self.consecutive_failures = self.consecutive_failures + 1;
        }
    }

    /// Takes in what happened and says what to do next. Pushed policy goes
    /// into `config`.
    pub fn step(&mut self, config: &mut DynamicConfig, event: HeartbeatEvent) -> (t: Transition)
        ensures
            (StepView {
                state: final(self)@,
                config: final(config)@,
                action: t.action@,
                pushed: t.pushed,
                node_id_changed: t.node_id_changed,
            }) == step_of(old(self)@, old(config)@, event@),
    {
        let stay = Transition {
            action: HeartbeatAction::Proceed,
            pushed: None,
            node_id_changed: false,
        };
        if self.phase == Phase::Stopped {
            return Transition { action: HeartbeatAction::Stop, pushed: None, node_id_changed: false };
        }
        match event {
            HeartbeatEvent::Shutdown => {
                self.phase = Phase::Stopped;
                Transition { action: HeartbeatAction::Stop, pushed: None, node_id_changed: false }
            },
            HeartbeatEvent::WaitOver => {
                if self.phase != Phase::Waiting {
                    return stay;
                }
                self.phase = Phase::Beating;
                Transition {
                    action: HeartbeatAction::Beat { node_id: self.node_id.clone() },
                    pushed: None,
                    node_id_changed: false,
                }
            },
            HeartbeatEvent::Acknowledged { config_version, remote_config } => {
                if self.phase != Phase::Beating {
                    return stay;
                }
                self.consecutive_failures = 0;
                self.phase = Phase::Waiting;
                let pushed = match remote_config {
                    Some(remote) => Some(config.apply(&remote, config_version)),
                    None => None,
                };
                Transition {
                    action: HeartbeatAction::Wait { seconds: config.heartbeat_interval() },
                    pushed,
                    node_id_changed: false,
                }
            },
            HeartbeatEvent::NodeNotFound => {
                if self.phase != Phase::Beating {
                    return stay;
                }
                self.phase = Phase::Registering;
                Transition {
                    action: HeartbeatAction::Register,
                    pushed: None,
                    node_id_changed: false,
                }
            },
            HeartbeatEvent::BeatFailed => {
                if self.phase != Phase::Beating {
                    return stay;
                }
                self.count_failure();
                self.phase = Phase::Waiting;
                Transition {
                    action: HeartbeatAction::Wait { seconds: config.heartbeat_interval() },
                    pushed: None,
                    node_id_changed: false,
                }
            },
            HeartbeatEvent::Registered { node_id } => {
                if self.phase != Phase::Registering {
                    return stay;
                }
                let renamed = !node_id.as_str().is_empty();
                if renamed {
                    self.node_id = node_id;
                    self.consecutive_failures = 0;
                } else {
                    self.count_failure();
                }
                self.phase = Phase::Waiting;
                Transition {
                    action: HeartbeatAction::Wait { seconds: config.heartbeat_interval() },
                    pushed: None,
                    node_id_changed: renamed,
                }
            },
            HeartbeatEvent::RegisterFailed => {
                if self.phase != Phase::Registering {
                    return stay;
                }
                self.count_failure();
                self.phase = Phase::Waiting;
                Transition {
                    action: HeartbeatAction::Wait { seconds: config.heartbeat_interval() },
                    pushed: None,
                    node_id_changed: false,
                }
            },
        }
    }
}

/// Every step keeps the node's identifier in place or puts a new one that
/// is not empty: a node that has an identifier never loses it.
pub proof fn step_keeps_identity(
    s: HeartbeatStateView,
    c: DynamicConfigView,
    e: HeartbeatEventView,
)
    requires
        valid_state(s),
    ensures
        valid_state(step_of(s, c, e).state),
        step_of(s, c, e).node_id_changed <==> (s.phase == Phase::Registering && e
            is Registered && e->Registered_node_id.len() > 0),
        !step_of(s, c, e).node_id_changed ==> step_of(s, c, e).state.node_id == s.node_id,
{
}

/// A beat is sent only when a wait ends, so no two beats are on their way at
/// once; and the beat carries the identifier that the node goes by then.
pub proof fn one_beat_at_a_time(s: HeartbeatStateView, c: DynamicConfigView, e: HeartbeatEventView)
    ensures
        step_of(s, c, e).action is Beat ==> s.phase == Phase::Waiting && e is WaitOver
            && step_of(s, c, e).state.phase == Phase::Beating && step_of(
            s,
            c,
            e,
        ).action->Beat_node_id == s.node_id,
        step_of(s, c, e).action is Register ==> s.phase == Phase::Beating && e is NodeNotFound,
{
}

/// Where a beat is answered by "node not found" and registering then gives
/// `new_id`, the loop registers, takes `new_id`, clears the failure count,
/// and sends the next beat under `new_id`.
pub proof fn reregistration_takes_effect(
    s: HeartbeatStateView,
    c: DynamicConfigView,
    new_id: Seq<char>,
)
    requires
        s.phase == Phase::Beating,
        new_id.len() > 0,
    ensures
        ({
            let lost = step_of(s, c, HeartbeatEventView::NodeNotFound);
            let found = step_of(
                lost.state,
                lost.config,
                HeartbeatEventView::Registered { node_id: new_id },
            );
            let next = step_of(found.state, found.config, HeartbeatEventView::WaitOver);
            &&& lost.action == HeartbeatActionView::Register
            &&& found.state.node_id == new_id
            &&& found.state.consecutive_failures == 0
            &&& found.node_id_changed
            &&& found.action == HeartbeatActionView::Wait { seconds: c.heartbeat_interval }
            &&& next.action == HeartbeatActionView::Beat { node_id: new_id }
        }),
{
}

/// An acknowledged beat clears the failure count; a failed beat or a failed
/// registration adds one to it.
pub proof fn failures_are_counted(s: HeartbeatStateView, c: DynamicConfigView, e: HeartbeatEventView)
    ensures
        s.phase == Phase::Beating && e is Acknowledged ==> step_of(
            s,
            c,
            e,
        ).state.consecutive_failures == 0,
        s.phase == Phase::Beating && e is BeatFailed ==> step_of(
            s,
            c,
            e,
        ).state.consecutive_failures == one_more(s.consecutive_failures),
        s.phase == Phase::Registering && e is RegisterFailed ==> step_of(
            s,
            c,
            e,
        ).state.consecutive_failures == one_more(s.consecutive_failures),
{
}

} // verus!
