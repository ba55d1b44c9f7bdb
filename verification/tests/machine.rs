use ragnarek_core::machine::{
    step, toggle_enabled, toggle_mode_from_index, toggle_mode_index, EngagementState, KeyToggleMode,
    TickInput,
};

fn input(resolved: Option<u32>) -> TickInput {
    TickInput {
        enabled: true,
        resolved,
        auto_fire: true,
        miss: false,
        acquisition_delay: 100,
        shot_duration: 80,
        cooldown_duration: 60,
    }
}

#[test]
fn full_cycle_in_exact_order() {
    let inp = input(Some(7));
    // Idle -> Acquiring at t=0.
    let (s1, a1) = step(EngagementState::Idle, 0, inp);
    assert_eq!(s1, EngagementState::Acquiring { target: 7, start_time: 0 });
    assert!(!a1.press_fire && !a1.release_fire);
    // The acquisition delay is never skipped: still acquiring at t=99.
    let (s2, _) = step(s1, 99, inp);
    assert_eq!(s2, EngagementState::Acquiring { target: 7, start_time: 0 });
    // Acquiring -> Tracking once the delay has elapsed.
    let (s3, a3) = step(s2, 100, inp);
    assert_eq!(s3, EngagementState::Tracking { target: 7 });
    assert_eq!(a3.aim_at, Some(7));
    // Tracking -> Shooting with auto-fire on and no miss.
    let (s4, a4) = step(s3, 116, inp);
    assert_eq!(s4, EngagementState::Shooting { target: 7, start_time: 116, duration: 80 });
    assert!(a4.press_fire);
    // Shooting continues aiming until its duration elapses.
    let (s5, a5) = step(s4, 150, inp);
    assert_eq!(s5, s4);
    assert_eq!(a5.aim_at, Some(7));
    assert!(!a5.release_fire);
    // Shooting -> Cooldown, releasing fire and recording the shot.
    let (s6, a6) = step(s5, 196, inp);
    assert_eq!(s6, EngagementState::Cooldown { start_time: 196, duration: 60 });
    assert!(a6.release_fire && a6.shot_completed);
    // Cooldown -> Idle once its duration elapses.
    let (s7, _) = step(s6, 255, inp);
    assert_eq!(s7, s6);
    let (s8, _) = step(s6, 256, inp);
    assert_eq!(s8, EngagementState::Idle);
}

#[test]
fn miss_decision_suppresses_the_shot() {
    let mut inp = input(Some(7));
    inp.miss = true;
    let (s, a) = step(EngagementState::Tracking { target: 7 }, 50, inp);
    assert_eq!(s, EngagementState::Tracking { target: 7 });
    assert!(!a.press_fire);
}

#[test]
fn target_loss_during_acquisition_aborts_to_idle() {
    let acquiring = EngagementState::Acquiring { target: 7, start_time: 0 };
    let (s, _) = step(acquiring, 50, input(None));
    assert_eq!(s, EngagementState::Idle);
    let (s2, _) = step(acquiring, 50, input(Some(9)));
    assert_eq!(s2, EngagementState::Idle);
}

#[test]
fn disabling_forces_idle_from_every_state() {
    let mut inp = input(Some(7));
    inp.enabled = false;
    let states = [
        EngagementState::Idle,
        EngagementState::Acquiring { target: 7, start_time: 0 },
        EngagementState::Tracking { target: 7 },
        EngagementState::Shooting { target: 7, start_time: 0, duration: 80 },
        EngagementState::Cooldown { start_time: 0, duration: 60 },
    ];
    for s in states {
        let (next, _) = step(s, 10, inp);
        assert_eq!(next, EngagementState::Idle);
    }
}

#[test]
fn fire_is_released_when_disabled_mid_shot() {
    let mut inp = input(Some(7));
    inp.enabled = false;
    let shooting = EngagementState::Shooting { target: 7, start_time: 0, duration: 80 };
    let (next, a) = step(shooting, 10, inp);
    assert_eq!(next, EngagementState::Idle);
    assert!(a.release_fire);
}

#[test]
fn toggle_modes_gate_as_documented() {
    assert!(!toggle_enabled(KeyToggleMode::Off, true, true, true));
    assert!(toggle_enabled(KeyToggleMode::AlwaysOn, false, false, false));
    assert!(toggle_enabled(KeyToggleMode::Hold, true, false, false));
    assert!(!toggle_enabled(KeyToggleMode::Hold, false, false, true));
    assert!(toggle_enabled(KeyToggleMode::Trigger, true, false, false));
    assert!(!toggle_enabled(KeyToggleMode::TriggerInverted, true, false, false));
    assert!(toggle_enabled(KeyToggleMode::TriggerInverted, false, false, false));
    // Toggle flips on the press edge and otherwise holds.
    assert!(toggle_enabled(KeyToggleMode::Toggle, true, true, false));
    assert!(!toggle_enabled(KeyToggleMode::Toggle, true, true, true));
    assert!(toggle_enabled(KeyToggleMode::Toggle, false, false, true));
}

#[test]
fn toggle_mode_index_round_trips() {
    for i in 0..6usize {
        let m = toggle_mode_from_index(i).expect("valid index");
        assert_eq!(toggle_mode_index(m), i);
    }
    assert!(toggle_mode_from_index(6).is_none());
}
