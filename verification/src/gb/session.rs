//! Media session transitions requested by GB28181 driver events.
use crate::gb::events::SessionTransition;
use vstd::prelude::*;

verus! {

/// State of a media session.
#[derive(Clone, Copy, Debug, PartialEq, Eq, Structural)]
pub enum SessionState {
    /// Requested by a client.
    Requested,
    /// Media resources are being allocated.
    Allocating,
    /// The device is being invited.
    Inviting,
    /// Media is flowing.
    Active,
    /// Being torn down.
    Stopping,
    /// Torn down.
    Stopped,
    /// Failed.
    Failed,
}

/// The session has ended.
pub open spec fn is_terminal(s: SessionState) -> bool {
    s == SessionState::Stopped || s == SessionState::Failed
}

/// One state change applied to a session, saved and recorded on its own so
/// that each save passes the repository's revision check.
#[derive(Clone, Copy, Debug, PartialEq, Eq, Structural)]
pub enum SessionStep {
    /// Move to Allocating.
    Allocating,
    /// Move to Inviting.
    Inviting,
    /// Move to Active.
    Active,
    /// Begin stopping.
    Stop,
    /// Finish stopping, if the session is then Stopping.
    StoppedIfStopping,
    /// Finish stopping.
    Stopped,
    /// Fail with the transition's reason.
    Fail,
}

/// The steps that bring a session in state `s` through a transition.
pub open spec fn steps_for(s: SessionState, t: SessionTransition) -> Seq<SessionStep> {
    match t {
        SessionTransition::Start => match s {
            SessionState::Requested => seq![
                SessionStep::Allocating,
                SessionStep::Inviting,
                SessionStep::Active,
            ],
            SessionState::Allocating => seq![SessionStep::Inviting, SessionStep::Active],
            SessionState::Inviting => seq![SessionStep::Active],
            _ => Seq::empty(),
        },
        SessionTransition::Stop => match s {
            SessionState::Active => seq![SessionStep::Stop, SessionStep::StoppedIfStopping],
            SessionState::Stopping => seq![SessionStep::Stopped],
            SessionState::Requested | SessionState::Allocating | SessionState::Inviting => seq![
                SessionStep::Stop,
            ],
            _ => Seq::empty(),
        },
        SessionTransition::Fail(_) => if is_terminal(s) {
            Seq::empty()
        } else {
            seq![SessionStep::Fail]
        },
    }
}

/// Whether a session state has ended.
pub fn session_is_terminal(s: SessionState) -> (b: bool)
    ensures
        b == is_terminal(s),
{
    match s {
        SessionState::Stopped | SessionState::Failed => true,
        _ => false,
    }
}

/// The steps to apply to a session in state `state` for a transition.
pub fn session_steps(state: SessionState, transition: &SessionTransition) -> (v: Vec<SessionStep>)
    ensures
        v@ == steps_for(state, *transition),
{
    let v = match transition {
        SessionTransition::Start => match state {
            SessionState::Requested => vec![
                SessionStep::Allocating,
                SessionStep::Inviting,
                SessionStep::Active,
            ],
            SessionState::Allocating => vec![SessionStep::Inviting, SessionStep::Active],
            SessionState::Inviting => vec![SessionStep::Active],
            _ => Vec::new(),
        },
        SessionTransition::Stop => match state {
            SessionState::Active => vec![SessionStep::Stop, SessionStep::StoppedIfStopping],
            SessionState::Stopping => vec![SessionStep::Stopped],
            SessionState::Requested | SessionState::Allocating | SessionState::Inviting => vec![
                SessionStep::Stop,
            ],
            _ => Vec::new(),
        },
        SessionTransition::Fail(_) => if session_is_terminal(state) {
            Vec::new()
        } else {
            vec![SessionStep::Fail]
        },
    };
    assert(v@ =~= steps_for(state, *transition));
    v
}

/// The state a session is in after one step is applied to it in state `s`.
pub open spec fn after_step(s: SessionState, step: SessionStep) -> SessionState {
    match step {
        SessionStep::Allocating => SessionState::Allocating,
        SessionStep::Inviting => SessionState::Inviting,
        SessionStep::Active => SessionState::Active,
        SessionStep::Stop => SessionState::Stopping,
        SessionStep::StoppedIfStopping => if s == SessionState::Stopping {
            SessionState::Stopped
        } else {
            s
        },
        SessionStep::Stopped => SessionState::Stopped,
        SessionStep::Fail => SessionState::Failed,
    }
}

/// The state a session is in after the steps are applied in order.
pub open spec fn after_steps(s: SessionState, steps: Seq<SessionStep>) -> SessionState
    decreases steps.len(),
{
    if steps.len() == 0 {
        s
    } else {
        after_steps(after_step(s, steps[0]), steps.drop_first())
    }
}

/// A stop report takes every session that has not ended to Stopping or
/// Stopped, through at least one step; an active session ends Stopped.
pub proof fn law_stop_ends_live_sessions(s: SessionState)
    requires
        !is_terminal(s),
    ensures
        steps_for(s, SessionTransition::Stop).len() > 0,
        after_steps(s, steps_for(s, SessionTransition::Stop)) == SessionState::Stopping
            || after_steps(s, steps_for(s, SessionTransition::Stop)) == SessionState::Stopped,
        s == SessionState::Active || s == SessionState::Stopping ==> after_steps(
            s,
            steps_for(s, SessionTransition::Stop),
        ) == SessionState::Stopped,
{
    reveal_with_fuel(after_steps, 3);
}

/// A start report takes a session that has not yet become active to Active.
pub proof fn law_start_reaches_active(s: SessionState)
    requires
        s == SessionState::Requested || s == SessionState::Allocating || s == SessionState::Inviting,
    ensures
        after_steps(s, steps_for(s, SessionTransition::Start)) == SessionState::Active,
{
    reveal_with_fuel(after_steps, 4);
}

/// A failure report takes a session that has not ended to Failed.
pub proof fn law_fail_reaches_failed(s: SessionState, reason: String)
    requires
        !is_terminal(s),
    ensures
        after_steps(s, steps_for(s, SessionTransition::Fail(reason))) == SessionState::Failed,
{
    reveal_with_fuel(after_steps, 2);
}

/// An ended session is left as it is, whatever the driver reports.
pub proof fn law_terminal_sessions_untouched(s: SessionState, t: SessionTransition)
    requires
        is_terminal(s),
    ensures
        steps_for(s, t).len() == 0,
{
}

/// A start report drives a session that has not yet become active all the
/// way to Active, one state at a time, and never skips back.
pub proof fn law_start_ends_active(s: SessionState)
    requires
        s == SessionState::Requested || s == SessionState::Allocating || s == SessionState::Inviting,
    ensures
        steps_for(s, SessionTransition::Start).len() > 0,
        steps_for(s, SessionTransition::Start).last() == SessionStep::Active,
{
}

/// A failure report fails exactly the sessions that have not ended.
pub proof fn law_fail_only_live_sessions(s: SessionState, reason: String)
    ensures
        steps_for(s, SessionTransition::Fail(reason)) == (if is_terminal(s) {
            Seq::<SessionStep>::empty()
        } else {
            seq![SessionStep::Fail]
        }),
{
}

} // verus!
