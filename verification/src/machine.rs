//! The engagement state machine.
//!
//! One instance sequences Idle, Acquiring, Tracking, Shooting and
//! Cooldown.  Every transition is a pure function of the previous
//! state, the clock, and the tick's inputs, so the whole cycle is
//! stated (and proved) as a mathematical step function.

use vstd::prelude::*;

verus! {

/// The five engagement phases.  A target handle is present in every
/// state but Idle and Cooldown; times are milliseconds.
#[derive(Clone, Copy, Debug, PartialEq, Eq, Structural)]
pub enum EngagementState {
    Idle,
    Acquiring { target: u32, start_time: u64 },
    Tracking { target: u32 },
    Shooting { target: u32, start_time: u64, duration: u64 },
    Cooldown { start_time: u64, duration: u64 },
}

/// What one tick of the machine asks the caller to do.
#[derive(Clone, Copy, Debug, PartialEq, Eq, Structural)]
pub struct EngagementAction {
    /// Target to aim at this tick, if any.
    pub aim_at: Option<u32>,
    /// Press the fire button this tick.
    pub press_fire: bool,
    /// Release the fire button this tick.
    pub release_fire: bool,
    /// A shot just completed; record its statistics.
    pub shot_completed: bool,
}

/// The per-tick inputs the machine decides on.
#[derive(Clone, Copy, Debug, PartialEq, Eq, Structural)]
pub struct TickInput {
    /// Master toggle: disabling forces Idle at once.
    pub enabled: bool,
    /// The target the evaluator resolves this tick, if any.
    pub resolved: Option<u32>,
    /// Whether automatic firing is configured on.
    pub auto_fire: bool,
    /// This tick's humanized miss decision: true suppresses the shot.
    pub miss: bool,
    /// Reaction delay to satisfy before tracking, in milliseconds.
    pub acquisition_delay: u64,
    /// How long the next shot holds fire down, in milliseconds.
    pub shot_duration: u64,
    /// How long the next cooldown lasts, in milliseconds.
    pub cooldown_duration: u64,
}

impl EngagementState {
    /// Timestamps stored in a state never lie in the future.
    pub open spec fn wf(self, now: u64) -> bool {
        match self {
            EngagementState::Idle => true,
            EngagementState::Acquiring { target, start_time } => start_time <= now,
            EngagementState::Tracking { target } => true,
            EngagementState::Shooting { target, start_time, duration } => start_time <= now,
            EngagementState::Cooldown { start_time, duration } => start_time <= now,
        }
    }
}

/// The machine's transition relation, as one total function.
///
/// Disabling yields Idle.  Idle arms on a resolved target.  Acquiring
/// waits out the full acquisition delay and falls back to Idle if the
/// target stops resolving meanwhile.  Tracking aims every tick and
/// fires only when auto-fire is on and the miss draw allows.  Shooting
/// keeps aiming until its duration elapses, then cools down.  Cooldown
/// waits out its duration.
pub open spec fn spec_step(state: EngagementState, now: u64, input: TickInput) -> EngagementState {
    if !input.enabled {
        EngagementState::Idle
    } else {
        match state {
            EngagementState::Idle => {
                match input.resolved {
                    Some(t) => EngagementState::Acquiring { target: t, start_time: now },
                    None => EngagementState::Idle,
                }
            },
            EngagementState::Acquiring { target, start_time } => {
                if input.resolved != Some(target) {
                    EngagementState::Idle
                } else if now - start_time >= input.acquisition_delay {
                    EngagementState::Tracking { target }
                } else {
                    EngagementState::Acquiring { target, start_time }
                }
            },
            EngagementState::Tracking { target } => {
                if input.resolved != Some(target) {
                    EngagementState::Idle
                } else if input.auto_fire && !input.miss {
                    EngagementState::Shooting {
                        target,
                        start_time: now,
                        duration: input.shot_duration,
                    }
                } else {
                    EngagementState::Tracking { target }
                }
            },
            EngagementState::Shooting { target, start_time, duration } => {
                if now - start_time >= duration {
                    EngagementState::Cooldown { start_time: now, duration: input.cooldown_duration }
                } else {
                    EngagementState::Shooting { target, start_time, duration }
                }
            },
            EngagementState::Cooldown { start_time, duration } => {
                if now - start_time >= duration {
                    EngagementState::Idle
                } else {
                    EngagementState::Cooldown { start_time, duration }
                }
            },
        }
    }
}

/// The action a transition implies: aim while tracking or shooting,
/// press fire on entry to Shooting, release it on exit.
pub open spec fn spec_action(
    state: EngagementState,
    next: EngagementState,
) -> EngagementAction {
    EngagementAction {
        aim_at: match next {
            EngagementState::Tracking { target } => Some(target),
            EngagementState::Shooting { target, .. } => Some(target),
            _ => None,
        },
        press_fire: !(state is Shooting) && next is Shooting,
        release_fire: state is Shooting && !(next is Shooting),
        shot_completed: state is Shooting && next is Cooldown,
    }
}

/// Advances the machine one tick.
pub fn step(state: EngagementState, now: u64, input: TickInput) -> (r: (
    EngagementState,
    EngagementAction,
))
    requires
        state.wf(now),
    ensures
        r.0 == spec_step(state, now, input),
        r.1 == spec_action(state, r.0),
        r.0.wf(now),
{
    let next = if !input.enabled {
        EngagementState::Idle
    } else {
        match state {
            EngagementState::Idle => {
                match input.resolved {
                    Some(t) => EngagementState::Acquiring { target: t, start_time: now },
                    None => EngagementState::Idle,
                }
            },
            EngagementState::Acquiring { target, start_time } => {
                let still = match input.resolved {
                    Some(t) => t == target,
                    None => false,
                };
                if !still {
                    EngagementState::Idle
                } else if now - start_time >= input.acquisition_delay {
                    EngagementState::Tracking { target }
                } else {
                    EngagementState::Acquiring { target, start_time }
                }
            },
            EngagementState::Tracking { target } => {
                let still = match input.resolved {
                    Some(t) => t == target,
                    None => false,
                };
                if !still {
                    EngagementState::Idle
                } else if input.auto_fire && !input.miss {
                    EngagementState::Shooting {
                        target,
                        start_time: now,
                        duration: input.shot_duration,
                    }
                } else {
                    EngagementState::Tracking { target }
                }
            },
            EngagementState::Shooting { target, start_time, duration } => {
                if now - start_time >= duration {
                    EngagementState::Cooldown { start_time: now, duration: input.cooldown_duration }
                } else {
                    EngagementState::Shooting { target, start_time, duration }
                }
            },
            EngagementState::Cooldown { start_time, duration } => {
                if now - start_time >= duration {
                    EngagementState::Idle
                } else {
                    EngagementState::Cooldown { start_time, duration }
                }
            },
        }
    };
    let was_shooting = match state {
        EngagementState::Shooting { .. } => true,
        _ => false,
    };
    let is_shooting = match next {
        EngagementState::Shooting { .. } => true,
        _ => false,
    };
    let action = EngagementAction {
        aim_at: match next {
            EngagementState::Tracking { target } => Some(target),
            EngagementState::Shooting { target, .. } => Some(target),
            _ => None,
        },
        press_fire: !was_shooting && is_shooting,
        release_fire: was_shooting && !is_shooting,
        shot_completed: was_shooting && (match next {
            EngagementState::Cooldown { .. } => true,
            _ => false,
        }),
    };
    (next, action)
}

/// Starting Idle with a target that keeps resolving and auto-fire on,
/// the machine walks Idle, Acquiring, Tracking, Shooting, Cooldown and
/// back to Idle in that exact order, and Tracking is unreachable from
/// Acquiring before the full acquisition delay has elapsed.
pub proof fn lemma_engagement_cycle(
    t: u32,
    input: TickInput,
    t0: u64,
    t1: u64,
    t2: u64,
    t3: u64,
    t4: u64,
)
    requires
        input.enabled,
        input.resolved == Some(t),
        input.auto_fire,
        !input.miss,
        t0 <= t1 && t1 <= t2 && t2 <= t3 && t3 <= t4,
        t1 - t0 >= input.acquisition_delay,
        t2 - t1 >= 0,
        t3 - t2 >= input.shot_duration,
        t4 - t3 >= input.cooldown_duration,
    ensures
        spec_step(EngagementState::Idle, t0, input) == (EngagementState::Acquiring {
            target: t,
            start_time: t0,
        }),
        spec_step(EngagementState::Acquiring { target: t, start_time: t0 }, t1, input)
            == (EngagementState::Tracking { target: t }),
        spec_step(EngagementState::Tracking { target: t }, t2, input)
            == (EngagementState::Shooting {
            target: t,
            start_time: t2,
            duration: input.shot_duration,
        }),
        spec_step(
            EngagementState::Shooting { target: t, start_time: t2, duration: input.shot_duration },
            t3,
            input,
        ) == (EngagementState::Cooldown { start_time: t3, duration: input.cooldown_duration }),
        spec_step(
            EngagementState::Cooldown { start_time: t3, duration: input.cooldown_duration },
            t4,
            input,
        ) == EngagementState::Idle,
{
}

/// Before the acquisition delay has elapsed, an acquiring machine with
/// a stable target stays acquiring: the minimum delay cannot be skipped.
pub proof fn lemma_acquisition_delay_not_skipped(t: u32, input: TickInput, t0: u64, now: u64)
    requires
        input.enabled,
        input.resolved == Some(t),
        t0 <= now,
        now - t0 < input.acquisition_delay,
    ensures
        spec_step(EngagementState::Acquiring { target: t, start_time: t0 }, now, input)
            == (EngagementState::Acquiring { target: t, start_time: t0 }),
{
}

/// Disabling the toggle forces Idle from every state immediately.
pub proof fn lemma_disable_forces_idle(state: EngagementState, now: u64, input: TickInput)
    requires
        !input.enabled,
    ensures
        spec_step(state, now, input) == EngagementState::Idle,
{
}

/// How an external key gates the machine.
#[derive(Clone, Copy, Debug, PartialEq, Eq, Structural)]
pub enum KeyToggleMode {
    Off,
    Trigger,
    TriggerInverted,
    Toggle,
    AlwaysOn,
    Hold,
}

/// Closed mode-to-index mapping used by selection interfaces.
pub open spec fn spec_toggle_mode_index(m: KeyToggleMode) -> int {
    match m {
        KeyToggleMode::Off => 0,
        KeyToggleMode::Trigger => 1,
        KeyToggleMode::TriggerInverted => 2,
        KeyToggleMode::Toggle => 3,
        KeyToggleMode::AlwaysOn => 4,
        KeyToggleMode::Hold => 5,
    }
}

/// Index of a toggle mode in the canonical order.
pub fn toggle_mode_index(m: KeyToggleMode) -> (r: usize)
    ensures
        r == spec_toggle_mode_index(m),
        r < 6,
{
    match m {
        KeyToggleMode::Off => 0,
        KeyToggleMode::Trigger => 1,
        KeyToggleMode::TriggerInverted => 2,
        KeyToggleMode::Toggle => 3,
        KeyToggleMode::AlwaysOn => 4,
        KeyToggleMode::Hold => 5,
    }
}

/// The toggle mode at an index of the canonical order.
pub fn toggle_mode_from_index(i: usize) -> (r: Option<KeyToggleMode>)
    ensures
        i < 6 ==> (r matches Some(m) && spec_toggle_mode_index(m) == i),
        i >= 6 ==> r is None,
{
    match i {
        0 => Some(KeyToggleMode::Off),
        1 => Some(KeyToggleMode::Trigger),
        2 => Some(KeyToggleMode::TriggerInverted),
        3 => Some(KeyToggleMode::Toggle),
        4 => Some(KeyToggleMode::AlwaysOn),
        5 => Some(KeyToggleMode::Hold),
        _ => None,
    }
}

/// Whether the machine is enabled, from the mode, the key's current
/// level, whether the key was just pressed, and the previous enable.
pub open spec fn spec_toggle_enabled(
    mode: KeyToggleMode,
    key_down: bool,
    key_pressed_edge: bool,
    was_enabled: bool,
) -> bool {
    match mode {
        KeyToggleMode::Off => false,
        KeyToggleMode::AlwaysOn => true,
        KeyToggleMode::Hold => key_down,
        KeyToggleMode::Trigger => key_down,
        KeyToggleMode::TriggerInverted => !key_down,
        KeyToggleMode::Toggle => if key_pressed_edge {
            !was_enabled
        } else {
            was_enabled
        },
    }
}

/// Evaluates the master toggle for one tick.
pub fn toggle_enabled(
    mode: KeyToggleMode,
    key_down: bool,
    key_pressed_edge: bool,
    was_enabled: bool,
) -> (r: bool)
    ensures
        r == spec_toggle_enabled(mode, key_down, key_pressed_edge, was_enabled),
{
    match mode {
        KeyToggleMode::Off => false,
        KeyToggleMode::AlwaysOn => true,
        KeyToggleMode::Hold => key_down,
        KeyToggleMode::Trigger => key_down,
        KeyToggleMode::TriggerInverted => !key_down,
        KeyToggleMode::Toggle => if key_pressed_edge {
            !was_enabled
        } else {
            was_enabled
        },
    }
}

} // verus!
