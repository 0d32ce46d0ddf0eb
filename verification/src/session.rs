//! The lifecycle of a session on both sides: which outside action each
//! process takes next, given how the last one went. The caller performs the
//! action and reports its outcome; the rules of the order stand here.

use vstd::prelude::*;

verus! {

/// The next thing the host controller has to do.
#[derive(Clone, Copy, Debug, PartialEq, Eq, Structural)]
pub enum HostStep {
    /// Find the target process by its name.
    FindProcess,
    /// Bind the listener of the debug channel.
    BindDebug,
    /// Bind the listener of the data channel.
    BindData,
    /// Try to connect the forward channel.
    ConnectForward,
    /// Place the agent into the target process.
    Inject,
    /// Accept the agent's connection on the debug channel.
    AcceptDebug,
    /// Accept the agent's connection on the data channel.
    AcceptData,
    /// Run the two readers until both streams have ended.
    Relay,
    /// Remove the agent from the target process.
    Eject,
    /// Close both accepted connections.
    Close,
    /// The session has ended normally.
    Finished,
    /// A fatal condition ended the session.
    Failed,
}

/// The host's session: the next step, and whether events are forwarded.
#[derive(Clone, Copy, Debug, PartialEq, Eq, Structural)]
pub struct HostSession {
    pub step: HostStep,
    pub forwarding: bool,
}

/// The place of a step in the host's sequence, the two final states last.
pub open spec fn host_rank(step: HostStep) -> nat {
    match step {
        HostStep::FindProcess => 0,
        HostStep::BindDebug => 1,
        HostStep::BindData => 2,
        HostStep::ConnectForward => 3,
        HostStep::Inject => 4,
        HostStep::AcceptDebug => 5,
        HostStep::AcceptData => 6,
        HostStep::Relay => 7,
        HostStep::Eject => 8,
        HostStep::Close => 9,
        HostStep::Finished => 10,
        HostStep::Failed => 11,
    }
}

/// Whether the host has nothing more to do.
pub open spec fn host_is_final(step: HostStep) -> bool {
    step == HostStep::Finished || step == HostStep::Failed
}

/// The step that follows `step` in the host's sequence when it went well.
pub open spec fn host_successor(step: HostStep) -> HostStep {
    match step {
        HostStep::FindProcess => HostStep::BindDebug,
        HostStep::BindDebug => HostStep::BindData,
        HostStep::BindData => HostStep::ConnectForward,
        HostStep::ConnectForward => HostStep::Inject,
        HostStep::Inject => HostStep::AcceptDebug,
        HostStep::AcceptDebug => HostStep::AcceptData,
        HostStep::AcceptData => HostStep::Relay,
        HostStep::Relay => HostStep::Eject,
        HostStep::Eject => HostStep::Close,
        HostStep::Close => HostStep::Finished,
        HostStep::Finished => HostStep::Finished,
        HostStep::Failed => HostStep::Failed,
    }
}

/// The host's session after a step and its outcome. A step that went well
/// leads to the next one. A forward connection that could not be made
/// switches forwarding off and the session goes on; any other failure is fatal.
pub open spec fn host_advanced(session: HostSession, succeeded: bool) -> HostSession {
    if host_is_final(session.step) {
        session
    } else if session.step == HostStep::ConnectForward {
        HostSession { step: HostStep::Inject, forwarding: succeeded }
    } else if succeeded {
        HostSession { step: host_successor(session.step), forwarding: session.forwarding }
    } else {
        HostSession { step: HostStep::Failed, forwarding: session.forwarding }
    }
}

/// The host's session after a run of outcomes, one for each step taken.
pub open spec fn host_run(session: HostSession, outcomes: Seq<bool>) -> HostSession
    decreases outcomes.len(),
{
    if outcomes.len() == 0 {
        session
    } else {
        host_advanced(host_run(session, outcomes.drop_last()), outcomes.last())
    }
}

/// The host's session before its first step.
pub open spec fn host_initial() -> HostSession {
    HostSession { step: HostStep::FindProcess, forwarding: false }
}

impl HostSession {
    /// The session before its first step: nothing is forwarded yet.
    pub fn start() -> (session: HostSession)
        ensures
            session == host_initial(),
    {
        HostSession { step: HostStep::FindProcess, forwarding: false }
    }

    /// The session after the current step was taken, with `succeeded`
    /// telling how it went.
    pub fn advance(self, succeeded: bool) -> (next: HostSession)
        ensures
            next == host_advanced(self, succeeded),
    {
        let step = match self.step {
            HostStep::Finished => {
                return self;
            },
            HostStep::Failed => {
                return self;
            },
            HostStep::ConnectForward => {
                return HostSession { step: HostStep::Inject, forwarding: succeeded };
            },
            HostStep::FindProcess => HostStep::BindDebug,
            HostStep::BindDebug => HostStep::BindData,
            HostStep::BindData => HostStep::ConnectForward,
            HostStep::Inject => HostStep::AcceptDebug,
            HostStep::AcceptDebug => HostStep::AcceptData,
            HostStep::AcceptData => HostStep::Relay,
            HostStep::Relay => HostStep::Eject,
            HostStep::Eject => HostStep::Close,
            HostStep::Close => HostStep::Finished,
        };
        if succeeded {
            HostSession { step, forwarding: self.forwarding }
        } else {
            HostSession { step: HostStep::Failed, forwarding: self.forwarding }
        }
    }

    /// Whether the session has ended, normally or not.
    pub fn is_over(&self) -> (over: bool)
        ensures
            over == host_is_final(self.step),
    {
        match self.step {
            HostStep::Finished => true,
            HostStep::Failed => true,
            _ => false,
        }
    }
}

/// The next thing the agent has to do.
#[derive(Clone, Copy, Debug, PartialEq, Eq, Structural)]
pub enum AgentStep {
    /// Connect the data channel.
    ConnectData,
    /// Connect the debug channel.
    ConnectDebug,
    /// Send the agent's own log lines into the debug channel.
    RedirectLogging,
    /// Ask the operating system for the load base of the process.
    ResolveBase,
    /// Install the hook over the intercepted function.
    InstallHook,
    /// Start redirecting calls.
    EnableHook,
    /// The hook is live; nothing more to do until the agent is unloaded.
    Running,
    /// Stop redirecting calls.
    DisableHook,
    /// Shut down the data channel.
    ShutdownData,
    /// Shut down the debug channel.
    ShutdownDebug,
    /// Terminate the hosting process abnormally.
    Terminate,
}

/// Whether the hook may exist at this step: the agent has reached the
/// installation or gone beyond it.
pub open spec fn agent_past_connecting(step: AgentStep) -> bool {
    step != AgentStep::ConnectData && step != AgentStep::ConnectDebug
}

/// The agent's next step after a step and its outcome. The two connections
/// come first, and a failure there ends the agent before the hook is
/// touched. A failure on the way to a live hook leads to the teardown:
/// disable the hook, shut down both channels, terminate. The teardown goes
/// on whatever its own steps report.
pub open spec fn agent_advanced(step: AgentStep, succeeded: bool) -> AgentStep {
    match step {
        AgentStep::ConnectData => if succeeded {
            AgentStep::ConnectDebug
        } else {
            AgentStep::Terminate
        },
        AgentStep::ConnectDebug => if succeeded {
            AgentStep::RedirectLogging
        } else {
            AgentStep::Terminate
        },
        AgentStep::RedirectLogging => if succeeded {
            AgentStep::ResolveBase
        } else {
            AgentStep::DisableHook
        },
        AgentStep::ResolveBase => if succeeded {
            AgentStep::InstallHook
        } else {
            AgentStep::DisableHook
        },
        AgentStep::InstallHook => if succeeded {
            AgentStep::EnableHook
        } else {
            AgentStep::DisableHook
        },
        AgentStep::EnableHook => if succeeded {
            AgentStep::Running
        } else {
            AgentStep::DisableHook
        },
        AgentStep::Running => AgentStep::Running,
        AgentStep::DisableHook => AgentStep::ShutdownData,
        AgentStep::ShutdownData => AgentStep::ShutdownDebug,
        AgentStep::ShutdownDebug => AgentStep::Terminate,
        AgentStep::Terminate => AgentStep::Terminate,
    }
}

/// The agent's step after a run of outcomes, one for each step taken.
pub open spec fn agent_run(step: AgentStep, outcomes: Seq<bool>) -> AgentStep
    decreases outcomes.len(),
{
    if outcomes.len() == 0 {
        step
    } else {
        agent_advanced(agent_run(step, outcomes.drop_last()), outcomes.last())
    }
}

/// The agent's first step.
pub fn agent_start() -> (step: AgentStep)
    ensures
        step == AgentStep::ConnectData,
{
    AgentStep::ConnectData
}

/// The agent's next step after `step` was taken, with `succeeded` telling
/// how it went.
pub fn agent_advance(step: AgentStep, succeeded: bool) -> (next: AgentStep)
    ensures
        next == agent_advanced(step, succeeded),
{
    let (onward, otherwise) = match step {
        AgentStep::ConnectData => (AgentStep::ConnectDebug, AgentStep::Terminate),
        AgentStep::ConnectDebug => (AgentStep::RedirectLogging, AgentStep::Terminate),
        AgentStep::RedirectLogging => (AgentStep::ResolveBase, AgentStep::DisableHook),
        AgentStep::ResolveBase => (AgentStep::InstallHook, AgentStep::DisableHook),
        AgentStep::InstallHook => (AgentStep::EnableHook, AgentStep::DisableHook),
        AgentStep::EnableHook => (AgentStep::Running, AgentStep::DisableHook),
        AgentStep::Running => (AgentStep::Running, AgentStep::Running),
        AgentStep::DisableHook => (AgentStep::ShutdownData, AgentStep::ShutdownData),
        AgentStep::ShutdownData => (AgentStep::ShutdownDebug, AgentStep::ShutdownDebug),
        AgentStep::ShutdownDebug => (AgentStep::Terminate, AgentStep::Terminate),
        AgentStep::Terminate => (AgentStep::Terminate, AgentStep::Terminate),
    };
    if succeeded {
        onward
    } else {
        otherwise
    }
}

/// What the agent does when it is unloaded, however the exit came about:
/// it disables the hook.
pub fn agent_unload() -> (step: AgentStep)
    ensures
        step == AgentStep::DisableHook,
{
    AgentStep::DisableHook
}

/// Every step of the host either ends the session or leads to the step that
/// comes next in the sequence, and a session that has ended stays as it is.
pub proof fn lemma_host_steps_in_order(session: HostSession, succeeded: bool)
    ensures
        host_is_final(session.step) ==> host_advanced(session, succeeded) == session,
        !host_is_final(session.step) ==> {
            let next = host_advanced(session, succeeded).step;
            next == HostStep::Failed || host_rank(next) == host_rank(session.step) + 1
        },
{
}

/// After any run of outcomes from the start, a host that has not failed
/// stands at most as many steps on as it has taken, and exactly as many
/// while it has not finished.
proof fn lemma_host_rank_bounded(outcomes: Seq<bool>)
    ensures
        host_run(host_initial(), outcomes).step != HostStep::Failed ==> host_rank(
            host_run(host_initial(), outcomes).step,
        ) <= outcomes.len(),
        host_run(host_initial(), outcomes).step != HostStep::Failed
            && host_run(host_initial(), outcomes).step != HostStep::Finished ==> host_rank(
            host_run(host_initial(), outcomes).step,
        ) == outcomes.len(),
    decreases outcomes.len(),
{
    if outcomes.len() > 0 {
        lemma_host_rank_bounded(outcomes.drop_last());
    }
}

/// However the steps went, a host that is about to inject, or is beyond
/// that, has bound both listeners: both binds were taken and went well.
pub proof fn lemma_listeners_bound_before_injection(outcomes: Seq<bool>)
    requires
        host_run(host_initial(), outcomes).step != HostStep::Failed,
        host_rank(host_run(host_initial(), outcomes).step) >= host_rank(HostStep::Inject),
    ensures
        outcomes.len() >= 4,
        host_run(host_initial(), outcomes.subrange(0, 1)).step == HostStep::BindDebug,
        outcomes[1],
        host_run(host_initial(), outcomes.subrange(0, 2)).step == HostStep::BindData,
        outcomes[2],
        host_run(host_initial(), outcomes.subrange(0, 3)).step == HostStep::ConnectForward,
{
    lemma_host_rank_bounded(outcomes);
    lemma_host_prefixes(outcomes, 1);
    lemma_host_prefixes(outcomes, 2);
    lemma_host_prefixes(outcomes, 3);
    assert(outcomes.subrange(0, 2).drop_last() == outcomes.subrange(0, 1));
    assert(outcomes.subrange(0, 3).drop_last() == outcomes.subrange(0, 2));
    assert(outcomes.subrange(0, 2).last() == outcomes[1]);
    assert(outcomes.subrange(0, 3).last() == outcomes[2]);
}

/// A run that has not failed stood at the step of rank `taken` after its
/// first `taken` outcomes.
proof fn lemma_host_prefixes(outcomes: Seq<bool>, taken: nat)
    requires
        host_run(host_initial(), outcomes).step != HostStep::Failed,
        taken <= outcomes.len(),
        taken <= 10,
    ensures
        host_rank(host_run(host_initial(), outcomes.subrange(0, taken as int)).step) == taken,
    decreases outcomes.len() - taken,
{
    if taken == outcomes.len() {
        assert(outcomes.subrange(0, taken as int) == outcomes);
        lemma_host_rank_bounded(outcomes);
        lemma_host_finished_late(outcomes);
    } else {
        lemma_host_not_failed_earlier(outcomes);
        assert(outcomes.drop_last().subrange(0, taken as int) == outcomes.subrange(0, taken as int));
        lemma_host_prefixes(outcomes.drop_last(), taken);
    }
}

/// A run that has not failed had not failed one outcome earlier.
proof fn lemma_host_not_failed_earlier(outcomes: Seq<bool>)
    requires
        outcomes.len() > 0,
        host_run(host_initial(), outcomes).step != HostStep::Failed,
    ensures
        host_run(host_initial(), outcomes.drop_last()).step != HostStep::Failed,
{
}

/// A run that has finished took at least ten steps.
proof fn lemma_host_finished_late(outcomes: Seq<bool>)
    ensures
        host_run(host_initial(), outcomes).step == HostStep::Finished ==> outcomes.len() >= 10,
    decreases outcomes.len(),
{
    if outcomes.len() > 0 {
        lemma_host_finished_late(outcomes.drop_last());
        lemma_host_rank_bounded(outcomes.drop_last());
    }
}

/// Events are forwarded exactly when the forward connection was made: the
/// session goes on to the injection either way.
pub proof fn lemma_forwarding_is_optional(session: HostSession, succeeded: bool)
    requires
        session.step == HostStep::ConnectForward,
    ensures
        host_advanced(session, succeeded).step == HostStep::Inject,
        host_advanced(session, succeeded).forwarding == succeeded,
{
}

/// However the steps went, an agent that has come to the hook, or to the
/// teardown that disables it, has connected both channels before.
pub proof fn lemma_channels_before_hook(outcomes: Seq<bool>)
    requires
        agent_past_connecting(agent_run(AgentStep::ConnectData, outcomes)),
        agent_run(AgentStep::ConnectData, outcomes) != AgentStep::Terminate,
    ensures
        outcomes.len() >= 2,
        outcomes[0],
        outcomes[1],
    decreases outcomes.len(),
{
    if outcomes.len() > 0 {
        let earlier = outcomes.drop_last();
        let before = agent_run(AgentStep::ConnectData, earlier);
        if agent_past_connecting(before) && before != AgentStep::Terminate {
            lemma_channels_before_hook(earlier);
            assert(outcomes[0] == earlier[0]);
            assert(outcomes[1] == earlier[1]);
        } else if before == AgentStep::ConnectDebug {
            lemma_agent_second_step(earlier);
            assert(outcomes[0] == earlier[0]);
        } else if before == AgentStep::ConnectData {
            assert(agent_advanced(before, outcomes.last()) == AgentStep::ConnectDebug
                || agent_advanced(before, outcomes.last()) == AgentStep::Terminate);
        }
    }
}

/// An agent that is about to connect the debug channel has taken one step,
/// the connection of the data channel, and it went well.
proof fn lemma_agent_second_step(outcomes: Seq<bool>)
    requires
        agent_run(AgentStep::ConnectData, outcomes) == AgentStep::ConnectDebug,
    ensures
        outcomes.len() == 1,
        outcomes[0],
{
    if outcomes.len() > 0 {
        let earlier = outcomes.drop_last();
        let before = agent_run(AgentStep::ConnectData, earlier);
        assert(before == AgentStep::ConnectData);
        lemma_agent_first_step(earlier);
    }
}

/// An agent that is about to connect the data channel has taken no step.
proof fn lemma_agent_first_step(outcomes: Seq<bool>)
    requires
        agent_run(AgentStep::ConnectData, outcomes) == AgentStep::ConnectData,
    ensures
        outcomes.len() == 0,
{
    if outcomes.len() > 0 {
        let before = agent_run(AgentStep::ConnectData, outcomes.drop_last());
        assert(agent_advanced(before, outcomes.last()) != AgentStep::ConnectData);
    }
}

} // verus!
