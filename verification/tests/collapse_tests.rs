use omara_screensavers::collapse::{
    may_add_gas, next_collapse_phase, shows_disk, shows_letters, CollapsePhase, CollapseSignals, JET_PARTICLES,
};

const NONE: CollapseSignals = CollapseSignals { spiral_closed: false, core_empty: false, jet_spent: false, all_home: false };
const ALL: CollapseSignals = CollapseSignals { spiral_closed: true, core_empty: true, jet_spent: true, all_home: true };

#[test]
fn phases_wait_for_their_signal() {
    for p in [CollapsePhase::Orbiting, CollapsePhase::Imploding, CollapsePhase::SupernovaJet, CollapsePhase::Rebuilding] {
        assert_eq!(next_collapse_phase(p, NONE), (p, false));
    }
    let only_jet = CollapseSignals { jet_spent: true, ..NONE };
    assert_eq!(next_collapse_phase(CollapsePhase::Orbiting, only_jet), (CollapsePhase::Orbiting, false));
    assert_eq!(next_collapse_phase(CollapsePhase::SupernovaJet, only_jet), (CollapsePhase::Rebuilding, true));
}

#[test]
fn cycle_closes_after_four_steps() {
    let mut p = CollapsePhase::Orbiting;
    let order = [CollapsePhase::Imploding, CollapsePhase::SupernovaJet, CollapsePhase::Rebuilding, CollapsePhase::Orbiting];
    for expected in order {
        let (next, restarted) = next_collapse_phase(p, ALL);
        assert!(restarted);
        assert_eq!(next, expected);
        p = next;
    }
}

#[test]
fn gas_rules() {
    assert!(may_add_gas(CollapsePhase::Orbiting, 39, true, true));
    assert!(!may_add_gas(CollapsePhase::Orbiting, 40, true, true));
    assert!(!may_add_gas(CollapsePhase::Orbiting, 0, false, true));
    assert!(may_add_gas(CollapsePhase::Imploding, 79, false, true));
    assert!(!may_add_gas(CollapsePhase::Imploding, 80, true, true));
    assert!(!may_add_gas(CollapsePhase::SupernovaJet, 0, true, true));
    assert!(!may_add_gas(CollapsePhase::Rebuilding, 0, true, true));
}

#[test]
fn swallowed_logo_lets_the_disk_drain() {
    // with every letter swallowed no gas is added, so a decaying disk empties
    assert!(!may_add_gas(CollapsePhase::Imploding, 0, true, false));
    let mut gas: Vec<f32> = vec![8.0, 12.0, 20.0];
    let mut frames = 0;
    while !gas.is_empty() {
        if may_add_gas(CollapsePhase::Imploding, gas.len(), false, false) {
            gas.push(20.0);
        }
        for r in &mut gas {
            *r -= 9.0 * 0.016;
        }
        gas.retain(|r| *r > 0.6);
        frames += 1;
        assert!(frames < 1000);
    }
    let signals = CollapseSignals { core_empty: true, ..NONE };
    assert_eq!(next_collapse_phase(CollapsePhase::Imploding, signals), (CollapsePhase::SupernovaJet, true));
}

#[test]
fn what_is_drawn() {
    assert!(shows_disk(CollapsePhase::Orbiting) && shows_disk(CollapsePhase::Imploding));
    assert!(!shows_disk(CollapsePhase::SupernovaJet) && !shows_disk(CollapsePhase::Rebuilding));
    assert!(!shows_letters(CollapsePhase::SupernovaJet));
    assert!(shows_letters(CollapsePhase::Rebuilding));
    assert_eq!(JET_PARTICLES, 120);
}
