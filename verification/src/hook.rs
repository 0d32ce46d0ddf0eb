//! The interception engine's rules: the states of the one hooked function,
//! the transitions between them, and what the callback does with a call.

use crate::chase::ResolutionError;
use vstd::prelude::*;

verus! {

/// The state of the hook over the intercepted function.
#[derive(Clone, Copy, Debug, PartialEq, Eq, Structural)]
pub enum HookState {
    /// No trampoline was set up yet.
    Uninstalled,
    /// The trampoline exists and calls are not redirected yet.
    Installed,
    /// Calls are redirected through the callback.
    Enabled,
    /// Calls were redirected once and are not any more.
    Disabled,
}

/// Why a transition of the hook was refused.
#[derive(Clone, Copy, Debug, PartialEq, Eq, Structural)]
pub enum HookError {
    /// The entry address of the function to hook is the null address.
    UnresolvedTarget,
    /// The hook was installed before.
    AlreadyInstalled,
    /// The hook was never installed.
    NotInstalled,
}

/// The one intercepted function: where it starts, where calls are sent, and
/// the state of the hook.
#[derive(Clone, Copy, Debug, PartialEq, Eq, Structural)]
pub struct InterceptedFunction {
    pub target: u64,
    pub callback: u64,
    pub state: HookState,
}

/// What the callback does with one intercepted call.
#[derive(Clone, Copy, Debug, PartialEq, Eq, Structural)]
pub struct Interception {
    /// Whether the call sets the observed record, so that an event is written.
    pub emit: bool,
    /// The first argument handed on to the original function.
    pub forward_this: u64,
    /// The second argument handed on to the original function.
    pub forward_value: u64,
}

/// The address of the intercepted function: the load base plus its fixed
/// offset, or nothing where the sum leaves the address space.
pub open spec fn target_address(base: u64, offset: u64) -> Option<u64> {
    if base + offset <= u64::MAX {
        Some((base + offset) as u64)
    } else {
        None
    }
}

/// The state after a request to enable: enabled, unless nothing is installed.
pub open spec fn enabled_from(state: HookState) -> HookState {
    match state {
        HookState::Uninstalled => HookState::Uninstalled,
        _ => HookState::Enabled,
    }
}

/// The state after a request to disable.
pub open spec fn disabled_from(state: HookState) -> HookState {
    match state {
        HookState::Enabled => HookState::Disabled,
        other => other,
    }
}

/// Whether an event is written for a call: the chain resolved, and the
/// call's first argument is the address it resolved to.
pub open spec fn observes(this: u64, resolved: Result<u64, ResolutionError>) -> bool {
    resolved == Ok::<u64, ResolutionError>(this)
}

impl InterceptedFunction {
    /// An installed hook has an entry address; one that is not installed has none.
    pub open spec fn wf(&self) -> bool {
        (self.state == HookState::Uninstalled) == (self.target == 0)
    }

    /// The hook before anything was installed.
    pub fn new() -> (hook: InterceptedFunction)
        ensures
            hook == (InterceptedFunction { target: 0, callback: 0, state: HookState::Uninstalled }),
            hook.wf(),
    {
        InterceptedFunction { target: 0, callback: 0, state: HookState::Uninstalled }
    }

    /// Installs the hook over the function at `target`. This succeeds once,
    /// from the uninstalled state and with an entry address that is not
    /// null; otherwise the hook is left as it was.
    pub fn install(&mut self, target: u64, callback: u64) -> (outcome: Result<(), HookError>)
        ensures
            old(self).wf() ==> final(self).wf(),
            old(self).state != HookState::Uninstalled ==> outcome == Err::<(), HookError>(
                HookError::AlreadyInstalled,
            ) && *final(self) == *old(self),
            old(self).state == HookState::Uninstalled && target == 0 ==> outcome == Err::<
                (),
                HookError,
            >(HookError::UnresolvedTarget) && *final(self) == *old(self),
            old(self).state == HookState::Uninstalled && target != 0 ==> outcome == Ok::<
                (),
                HookError,
            >(()) && *final(self) == (InterceptedFunction {
                target,
                callback,
                state: HookState::Installed,
            }),
    {
        match self.state {
            HookState::Uninstalled => {
                if target == 0 {
                    Err(HookError::UnresolvedTarget)
                } else {
                    self.target = target;
                    self.callback = callback;
                    self.state = HookState::Installed;
                    Ok(())
                }
            },
            _ => Err(HookError::AlreadyInstalled),
        }
    }

    /// Starts redirecting calls. Without an installed hook this is an error;
    /// on a hook that is enabled already it changes nothing.
    pub fn enable(&mut self) -> (outcome: Result<(), HookError>)
        ensures
            old(self).wf() ==> final(self).wf(),
            final(self).target == old(self).target,
            final(self).callback == old(self).callback,
            final(self).state == enabled_from(old(self).state),
            outcome == (if old(self).state == HookState::Uninstalled {
                Err::<(), HookError>(HookError::NotInstalled)
            } else {
                Ok::<(), HookError>(())
            }),
    {
        match self.state {
            HookState::Uninstalled => Err(HookError::NotInstalled),
            _ => {
                self.state = HookState::Enabled;
                Ok(())
            },
        }
    }

    /// Stops redirecting calls. On a hook that is not enabled, installed or
    /// not, this changes nothing and does not fail.
    pub fn disable(&mut self)
        ensures
            old(self).wf() ==> final(self).wf(),
            final(self).target == old(self).target,
            final(self).callback == old(self).callback,
            final(self).state == disabled_from(old(self).state),
    {
        match self.state {
            HookState::Enabled => {
                self.state = HookState::Disabled;
            },
            _ => {},
        }
    }

    /// Whether calls of the intercepted function reach the callback.
    pub fn is_enabled(&self) -> (enabled: bool)
        ensures
            enabled == (self.state == HookState::Enabled),
    {
        match self.state {
            HookState::Enabled => true,
            _ => false,
        }
    }
}

/// The entry address of the intercepted function, from the load base of the
/// process and the function's fixed offset in its module.
pub fn locate_target(base: u64, offset: u64) -> (address: Option<u64>)
    ensures
        address == target_address(base, offset),
{
    base.checked_add(offset)
}

/// The callback's decision for one intercepted call. `resolved` is the
/// outcome of following the pointer chain at the time of the call. An event
/// is written only where the chain resolved to the call's first argument; a
/// chain that failed writes nothing. Both arguments are handed on to the
/// original function as they came, whatever was decided.
pub fn intercept(this: u64, value: u64, resolved: Result<u64, ResolutionError>) -> (plan: Interception)
    ensures
        plan.emit == observes(this, resolved),
        plan.forward_this == this,
        plan.forward_value == value,
{
    let emit = match resolved {
        Ok(address) => address == this,
        Err(_) => false,
    };
    Interception { emit, forward_this: this, forward_value: value }
}

/// Enabling twice leaves the hook as enabling once does, and disabling twice
/// as disabling once does.
pub proof fn lemma_transitions_idempotent(state: HookState)
    ensures
        enabled_from(enabled_from(state)) == enabled_from(state),
        disabled_from(disabled_from(state)) == disabled_from(state),
{
}

/// Disabling a hook that was never enabled leaves it as it is.
pub proof fn lemma_disable_before_enable(state: HookState)
    requires
        state == HookState::Uninstalled || state == HookState::Installed,
    ensures
        disabled_from(state) == state,
{
}

/// Once installed, a hook never returns to the uninstalled state, and a
/// hook that is not installed is never enabled.
pub proof fn lemma_installation_is_kept(state: HookState)
    ensures
        (enabled_from(state) == HookState::Uninstalled) == (state == HookState::Uninstalled),
        (disabled_from(state) == HookState::Uninstalled) == (state == HookState::Uninstalled),
{
}

} // verus!
