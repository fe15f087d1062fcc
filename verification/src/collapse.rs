//! The collapse screensaver's cycle: a black hole spirals in and tears the
//! logo apart, swallows it, fires a supernova jet, and the logo drops back.

use vstd::prelude::*;

verus! {

/// Where the collapse cycle stands.
#[derive(Clone, Copy, Debug, PartialEq, Eq, Structural)]
pub enum CollapsePhase {
    /// The black hole spirals in, ripping off letters it passes near.
    Orbiting,
    /// The black hole sits at the centre and pulls in every letter left.
    Imploding,
    /// A double-sided jet of particles shoots out of the centre.
    SupernovaJet,
    /// The letters drop from the top of the screen back to their places.
    Rebuilding,
}

/// What a frame observed, as far as the cycle needs it.
#[derive(Clone, Copy, Debug, PartialEq, Eq, Structural)]
pub struct CollapseSignals {
    /// The black hole's spiral radius has shrunk to zero.
    pub spiral_closed: bool,
    /// Every letter is swallowed and no gas is left in the disk.
    pub core_empty: bool,
    /// The jet has no particle left or has run for its time.
    pub jet_spent: bool,
    /// Every letter is back at its home cell.
    pub all_home: bool,
}

/// The phase that follows `phase` in the cycle.
pub open spec fn successor(phase: CollapsePhase) -> CollapsePhase {
    match phase {
        CollapsePhase::Orbiting => CollapsePhase::Imploding,
        CollapsePhase::Imploding => CollapsePhase::SupernovaJet,
        CollapsePhase::SupernovaJet => CollapsePhase::Rebuilding,
        CollapsePhase::Rebuilding => CollapsePhase::Orbiting,
    }
}

/// The signal that ends `phase`.
pub open spec fn phase_done(phase: CollapsePhase, s: CollapseSignals) -> bool {
    match phase {
        CollapsePhase::Orbiting => s.spiral_closed,
        CollapsePhase::Imploding => s.core_empty,
        CollapsePhase::SupernovaJet => s.jet_spent,
        CollapsePhase::Rebuilding => s.all_home,
    }
}

/// The cycle's step for a frame: a phase moves on to the next exactly when
/// the signal that ends it is given; the flag says the phase's timer starts
/// again.
pub fn next_collapse_phase(phase: CollapsePhase, s: CollapseSignals) -> (next: (CollapsePhase, bool))
    ensures
        next.1 == phase_done(phase, s),
        next.0 == if phase_done(phase, s) { successor(phase) } else { phase },
        phase == CollapsePhase::Orbiting ==> next == (if s.spiral_closed {
            (CollapsePhase::Imploding, true)
        } else {
            (CollapsePhase::Orbiting, false)
        }),
        phase == CollapsePhase::Imploding ==> next == (if s.core_empty {
            (CollapsePhase::SupernovaJet, true)
        } else {
            (CollapsePhase::Imploding, false)
        }),
        phase == CollapsePhase::SupernovaJet ==> next == (if s.jet_spent {
            (CollapsePhase::Rebuilding, true)
        } else {
            (CollapsePhase::SupernovaJet, false)
        }),
        phase == CollapsePhase::Rebuilding ==> next == (if s.all_home {
            (CollapsePhase::Orbiting, true)
        } else {
            (CollapsePhase::Rebuilding, false)
        }),
{
    match phase {
        CollapsePhase::Orbiting => if s.spiral_closed {
            (CollapsePhase::Imploding, true)
        } else {
            (phase, false)
        },
        CollapsePhase::Imploding => if s.core_empty {
            (CollapsePhase::SupernovaJet, true)
        } else {
            (phase, false)
        },
        CollapsePhase::SupernovaJet => if s.jet_spent {
            (CollapsePhase::Rebuilding, true)
        } else {
            (phase, false)
        },
        CollapsePhase::Rebuilding => if s.all_home {
            (CollapsePhase::Orbiting, true)
        } else {
            (phase, false)
        },
    }
}

/// Each phase ends on its own signal and on nothing else: orbiting only
/// once the spiral has closed, imploding only once the core is empty, the
/// jet only once it is spent, rebuilding only once every letter is home.
/// Two frames whose own signal agrees move on alike, whatever the others say.
pub proof fn each_phase_ends_on_its_own_signal(phase: CollapsePhase, s: CollapseSignals, t: CollapseSignals)
    ensures
        phase_done(CollapsePhase::Orbiting, s) <==> s.spiral_closed,
        phase_done(CollapsePhase::Imploding, s) <==> s.core_empty,
        phase_done(CollapsePhase::SupernovaJet, s) <==> s.jet_spent,
        phase_done(CollapsePhase::Rebuilding, s) <==> s.all_home,
        (phase == CollapsePhase::Orbiting && s.spiral_closed == t.spiral_closed) ==> phase_done(phase, s) == phase_done(phase, t),
        (phase == CollapsePhase::Imploding && s.core_empty == t.core_empty) ==> phase_done(phase, s) == phase_done(phase, t),
        (phase == CollapsePhase::SupernovaJet && s.jet_spent == t.jet_spent) ==> phase_done(phase, s) == phase_done(phase, t),
        (phase == CollapsePhase::Rebuilding && s.all_home == t.all_home) ==> phase_done(phase, s) == phase_done(phase, t),
        successor(CollapsePhase::Orbiting) == CollapsePhase::Imploding,
        successor(CollapsePhase::Imploding) == CollapsePhase::SupernovaJet,
        successor(CollapsePhase::SupernovaJet) == CollapsePhase::Rebuilding,
        successor(CollapsePhase::Rebuilding) == CollapsePhase::Orbiting,
{
}

/// The cycle closes: four phase changes in a row bring any phase back to
/// itself, and no phase is its own successor.
pub proof fn collapse_cycle_closes(phase: CollapsePhase)
    ensures
        successor(successor(successor(successor(phase)))) == phase,
        successor(phase) != phase,
{
}

/// Most gas particles in the disk while orbiting.
pub const ORBIT_GAS_CAP: usize = 40;

/// Most gas particles in the disk while imploding.
pub const IMPLODE_GAS_CAP: usize = 80;

/// Whether a frame adds a gas particle to the accretion disk: while
/// orbiting, up to 40 and only while the spiral is still wider than one
/// cell; while imploding, up to 80 and only while letters are left to
/// swallow, so that once they are gone the disk drains and the jet can fire;
/// never otherwise.
pub fn may_add_gas(phase: CollapsePhase, gas: usize, spiral_open: bool, letters_left: bool) -> (add: bool)
    ensures
        add == match phase {
            CollapsePhase::Orbiting => gas < ORBIT_GAS_CAP && spiral_open,
            CollapsePhase::Imploding => gas < IMPLODE_GAS_CAP && letters_left,
            _ => false,
        },
{
    match phase {
        CollapsePhase::Orbiting => gas < ORBIT_GAS_CAP && spiral_open,
        CollapsePhase::Imploding => gas < IMPLODE_GAS_CAP && letters_left,
        _ => false,
    }
}

/// The disk never outgrows its cap: adding a particle only where
/// [`may_add_gas`] allows keeps at most 40 while orbiting and 80 while
/// imploding.
pub proof fn gas_stays_capped(phase: CollapsePhase, gas: int, spiral_open: bool, letters_left: bool)
    requires
        0 <= gas,
        phase == CollapsePhase::Orbiting ==> gas <= ORBIT_GAS_CAP,
        phase == CollapsePhase::Imploding ==> gas <= IMPLODE_GAS_CAP,
    ensures
        ({
            let add = match phase {
                CollapsePhase::Orbiting => gas < ORBIT_GAS_CAP && spiral_open,
                CollapsePhase::Imploding => gas < IMPLODE_GAS_CAP && letters_left,
                _ => false,
            };
            let next = if add { gas + 1 } else { gas };
            &&& phase == CollapsePhase::Orbiting ==> next <= ORBIT_GAS_CAP
            &&& phase == CollapsePhase::Imploding ==> next <= IMPLODE_GAS_CAP
            &&& (phase == CollapsePhase::Imploding && !letters_left) ==> next == gas
        }),
{
}

/// Whether the black hole and its disk are drawn in `phase`.
pub fn shows_disk(phase: CollapsePhase) -> (r: bool)
    ensures
        r == (phase == CollapsePhase::Orbiting || phase == CollapsePhase::Imploding),
{
    phase == CollapsePhase::Orbiting || phase == CollapsePhase::Imploding
}

/// Whether the logo's letters are drawn in `phase`: always but during the
/// jet.
pub fn shows_letters(phase: CollapsePhase) -> (r: bool)
    ensures
        r == (phase != CollapsePhase::SupernovaJet),
{
    phase != CollapsePhase::SupernovaJet
}

/// Number of particles the supernova jet starts with.
pub const JET_PARTICLES: usize = 120;

} // verus!
