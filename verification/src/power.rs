//! The brightness that the user selects.
use vstd::prelude::*;

use crate::float::F32;

verus! {

/// The four brightness steps.
#[derive(Clone, Copy, Debug, PartialEq, Eq, Structural)]
pub enum OutputPower {
    High,
    Medium,
    Low,
    NighMode,
}

impl OutputPower {
    /// The next brighter step; the brightest is followed by the darkest.
    pub open spec fn increased(self) -> OutputPower {
        match self {
            OutputPower::High => OutputPower::NighMode,
            OutputPower::Medium => OutputPower::High,
            OutputPower::Low => OutputPower::Medium,
            OutputPower::NighMode => OutputPower::Low,
        }
    }

    /// The next darker step; the darkest is followed by the brightest.
    pub open spec fn decreased(self) -> OutputPower {
        match self {
            OutputPower::High => OutputPower::Medium,
            OutputPower::Medium => OutputPower::Low,
            OutputPower::Low => OutputPower::NighMode,
            OutputPower::NighMode => OutputPower::High,
        }
    }

    /// The gain of a step: one, seven tenths, a half, a quarter.
    pub open spec fn gain_value(self) -> F32 {
        match self {
            OutputPower::High => crate::float::ratio(1, 1),
            OutputPower::Medium => crate::float::ratio(7, 10),
            OutputPower::Low => crate::float::ratio(1, 2),
            OutputPower::NighMode => crate::float::ratio(1, 4),
        }
    }

    /// Turns the brightness one step up.
    pub fn increase(&self) -> (power: Self)
        ensures
            power == self.increased(),
    {
        match self {
            OutputPower::High => OutputPower::NighMode,
            OutputPower::Medium => OutputPower::High,
            OutputPower::Low => OutputPower::Medium,
            OutputPower::NighMode => OutputPower::Low,
        }
    }

    /// Turns the brightness one step down.
    pub fn decrease(&self) -> (power: Self)
        ensures
            power == self.decreased(),
    {
        match self {
            OutputPower::High => OutputPower::Medium,
            OutputPower::Medium => OutputPower::Low,
            OutputPower::Low => OutputPower::NighMode,
            OutputPower::NighMode => OutputPower::High,
        }
    }

    /// The gain by which this step scales colours before gamma correction.
    pub fn gain(&self) -> (g: F32)
        ensures
            g == self.gain_value(),
    {
        match self {
            OutputPower::High => F32::from_ratio(1, 1),
            OutputPower::Medium => F32::from_ratio(7, 10),
            OutputPower::Low => F32::from_ratio(1, 2),
            OutputPower::NighMode => F32::from_ratio(1, 4),
        }
    }
}

/// Turning the brightness up undoes turning it down, and the other way round.
pub proof fn law_increase_and_decrease_undo_each_other(power: OutputPower)
    ensures
        power.increased().decreased() == power,
        power.decreased().increased() == power,
{
}

/// Four steps in one direction lead back to where they began, and no fewer do.
pub proof fn law_four_steps_make_a_round(power: OutputPower)
    ensures
        power.decreased() != power,
        power.decreased().decreased() != power,
        power.decreased().decreased().decreased() != power,
        power.decreased().decreased().decreased().decreased() == power,
        power.increased().increased().increased().increased() == power,
{
}

/// The gains of the four steps are numbers from a quarter up to one, and turning the
/// brightness down lowers the gain, except from the darkest step.
pub proof fn law_darker_step_has_smaller_gain(power: OutputPower)
    ensures
        power.gain_value().is_magnitude(),
        crate::float::ratio(1, 4).units() <= power.gain_value().units()
            <= crate::float::ratio(1, 1).units(),
        power != OutputPower::NighMode ==> power.decreased().gain_value().units()
            < power.gain_value().units(),
{
    crate::float::lemma_ratio_one();
    lemma_gain_patterns();
    let t = crate::float::two_to(124);
    crate::float::lemma_two_to_positive(124);
    assert(crate::float::two_to(125) == 2 * t);
    assert(crate::float::two_to(126) == 4 * t) by {
        reveal_with_fuel(crate::float::two_to, 3);
    }
    assert(crate::float::ratio(1, 4).units() == 0x80_0000 * t);
    assert(crate::float::ratio(1, 2).units() == 0x80_0000 * (2 * t));
    assert(crate::float::ratio(7, 10).units() == 0xb3_3333 * (2 * t));
    assert(crate::float::ratio(1, 1).units() == 0x80_0000 * (4 * t));
}

/// The bit patterns of the gains below one.
proof fn lemma_gain_patterns()
    ensures
        crate::float::ratio(7, 10) == (F32 { bits: 0x3f33_3333 }),
        crate::float::ratio(1, 2) == (F32 { bits: 0x3f00_0000 }),
        crate::float::ratio(1, 4) == (F32 { bits: 0x3e80_0000 }),
{
    reveal_with_fuel(crate::float::doublings, 26);
    crate::float::lemma_powers();
    crate::float::lemma_nearest_exact(0x80_0000, 2);
    crate::float::lemma_nearest_exact(0x80_0000, 4);
}

/// The gains of the steps: the brightest one leaves everything as it is, the two darkest are
/// a half and a quarter of it, and the one in between is the number nearest to seven tenths.
pub proof fn law_gains_of_the_steps()
    ensures
        OutputPower::High.gain_value().units() == crate::float::two_to(149),
        2 * OutputPower::Low.gain_value().units() == OutputPower::High.gain_value().units(),
        4 * OutputPower::NighMode.gain_value().units() == OutputPower::High.gain_value().units(),
        ({
            let off = 10 * OutputPower::Medium.gain_value().units() - 7
                * OutputPower::High.gain_value().units();
            -5 * crate::float::two_to(125) <= off <= 5 * crate::float::two_to(125)
        }),
        OutputPower::Medium.gain_value().bits == 0x3f33_3333,
{
    crate::float::lemma_ratio_one();
    lemma_gain_patterns();
    let t = crate::float::two_to(124);
    assert(crate::float::two_to(125) == 2 * t);
    assert(crate::float::two_to(126) == 4 * t) by {
        reveal_with_fuel(crate::float::two_to, 3);
    }
    crate::float::lemma_powers();
    crate::float::lemma_two_to_adds(23, 126);
    assert(crate::float::ratio(1, 4).units() == 0x80_0000 * t);
    assert(crate::float::ratio(1, 2).units() == 0x80_0000 * (2 * t));
    assert(crate::float::ratio(7, 10).units() == 0xb3_3333 * (2 * t));
    assert(crate::float::ratio(1, 1).units() == 0x80_0000 * (4 * t));
}

/// Turning the brightness up raises the gain, except from the brightest step, which is
/// followed by the darkest.
pub proof fn law_brighter_step_has_greater_gain(power: OutputPower)
    ensures
        power != OutputPower::High ==> power.increased().gain_value().units()
            > power.gain_value().units(),
        power == OutputPower::High ==> power.increased() == OutputPower::NighMode,
        power == OutputPower::NighMode ==> power.decreased() == OutputPower::High,
{
    law_darker_step_has_smaller_gain(power.increased());
    law_increase_and_decrease_undo_each_other(power);
}

} // verus!
