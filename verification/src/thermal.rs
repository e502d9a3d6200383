//! Thermal throttling.
//!
//! The temperature sensor is a diode: at 27 degrees it gives 0.706 V, and 1.721 mV
//! less for each degree above. Its voltage is measured in 4096 steps of 3.3 V.
use vstd::prelude::*;

use crate::command::{TaskCommand, TaskCommandView};
use crate::float::F32;

verus! {

/// The measured voltage, in microvolts times the number of steps.
pub open spec fn measured(reading: u16) -> int {
    3_300_000 * reading
}

/// The sensor's voltage at a temperature, in microvolts times the number of steps.
pub open spec fn voltage_at(degrees: int) -> int {
    4096 * (706_000 - 1_721 * (degrees - 27))
}

/// Whether a reading tells of a temperature above `degrees`.
pub open spec fn hotter_than(reading: u16, degrees: int) -> bool {
    measured(reading) < voltage_at(degrees)
}

/// `x`, or the bound next to it where it lies outside of `low` to `high`.
pub open spec fn clamped(x: int, low: int, high: int) -> int {
    if x < low {
        low
    } else if x > high {
        high
    } else {
        x
    }
}

/// The multiplier that falls in a straight line, from one at 55 degrees to a tenth at 65
/// degrees and on to zero, and does not leave the range from zero to one.
pub open spec fn multiplier(reading: u16) -> F32 {
    let span = voltage_at(55) - voltage_at(65);
    crate::float::ratio(
        clamped(span + 9 * (measured(reading) - voltage_at(65)), 0, 10 * span) as nat,
        (10 * span) as nat,
    )
}

/// What a reading asks for, if anything.
pub open spec fn throttling(reading: u16) -> Option<F32> {
    if hotter_than(reading, 50) {
        Some(multiplier(reading))
    } else {
        None
    }
}

/// What a reading of the temperature sensor asks for: nothing up to 50 degrees, above
/// that the throttle multiplier of `multiplier`.
pub fn throttle(reading: u16) -> (gain: Option<F32>)
    ensures
        gain == if hotter_than(reading, 50) {
            Some(multiplier(reading))
        } else {
            None
        },
        gain == throttling(reading),
{
    let measured: i64 = 3_300_000 * reading as i64;
    let at_50: i64 = 4096 * (706_000 - 1_721 * (50 - 27));
    if measured < at_50 {
        let at_65: i64 = 4096 * (706_000 - 1_721 * (65 - 27));
        let span: i64 = 4096 * 1_721 * (65 - 55);
        let line: i64 = span + 9 * (measured - at_65);
        let part: i64 = if line < 0 {
            0
        } else if line > 10 * span {
            10 * span
        } else {
            line
        };
        Some(F32::from_ratio(part as u32, (10 * span) as u32))
    } else {
        None
    }
}

/// The message that a reading of the temperature sensor leads to, if any.
pub fn throttle_message(reading: u16) -> (message: Option<TaskCommand>)
    ensures
        crate::command::message_view(message) == if hotter_than(reading, 50) {
            Some(TaskCommandView::ThermalThrottleMultiplier(multiplier(reading)))
        } else {
            None
        },
{
    match throttle(reading) {
        Some(gain) => Some(TaskCommand::ThermalThrottleMultiplier(gain)),
        None => None,
    }
}

/// What the temperature task does after it has tried to read the sensor.
pub struct AfterReading {
    /// The message to send, if any.
    pub message: Option<TaskCommand>,
    /// Whether it waits for the next tick of its clock before it tries again.
    pub wait: bool,
}

/// What follows a reading of the temperature sensor: the message that it leads to, and the
/// next reading at the next tick. A reading that has failed sends nothing and is repeated at
/// once.
pub fn on_reading(reading: Option<u16>) -> (next: AfterReading)
    ensures
        next.wait == reading is Some,
        crate::command::message_view(next.message) == match reading {
            Some(r) if hotter_than(r, 50) => Some(
                TaskCommandView::ThermalThrottleMultiplier(multiplier(r)),
            ),
            _ => None,
        },
{
    match reading {
        Some(r) => AfterReading { message: throttle_message(r), wait: true },
        None => AfterReading { message: None, wait: false },
    }
}

/// The multiplier lies between zero and one, is one up to 55 degrees, reaches down to a tenth
/// at 65 degrees (it is no less before and no more after), and is zero once the straight
/// line has reached zero.
pub proof fn law_multiplier_range(reading: u16)
    ensures
        multiplier(reading).is_magnitude(),
        multiplier(reading).units() <= crate::float::ratio(1, 1).units(),
        !hotter_than(reading, 55) ==> multiplier(reading) == crate::float::ratio(1, 1),
        !hotter_than(reading, 65) ==> multiplier(reading).units() >= crate::float::ratio(
            1,
            10,
        ).units(),
        hotter_than(reading, 65) ==> multiplier(reading).units() <= crate::float::ratio(
            1,
            10,
        ).units(),
        9 * (measured(reading) - voltage_at(65)) <= voltage_at(65) - voltage_at(55)
            ==> multiplier(reading) == crate::float::ratio(0, 1),
{
    let span = (voltage_at(55) - voltage_at(65)) as nat;
    let whole = 10 * span;
    let part = line_part(reading);
    crate::float::lemma_ratio_self(whole);
    crate::float::lemma_ratio_monotone(part, whole, whole);
    if part > 0 {
        crate::float::lemma_ratio_units(part, whole);
    }
    crate::float::lemma_ratio_cancel(1, 10, span);
    if hotter_than(reading, 65) {
        crate::float::lemma_ratio_monotone(part, span, whole);
    } else {
        crate::float::lemma_ratio_monotone(span, part, whole);
    }
}

/// The numerator of the multiplier.
spec fn line_part(reading: u16) -> nat {
    let span = voltage_at(55) - voltage_at(65);
    clamped(span + 9 * (measured(reading) - voltage_at(65)), 0, 10 * span) as nat
}

/// A hotter chip is never throttled less.
pub proof fn law_hotter_is_throttled_more(hotter: u16, cooler: u16)
    requires
        measured(hotter) <= measured(cooler),
    ensures
        multiplier(hotter).units() <= multiplier(cooler).units(),
{
    crate::float::lemma_ratio_monotone(
        line_part(hotter),
        line_part(cooler),
        (10 * (voltage_at(55) - voltage_at(65))) as nat,
    );
}

/// Throttling a hotter chip never makes an LED brighter than throttling a cooler one.
pub proof fn law_hotter_is_never_brighter(
    hotter: u16,
    cooler: u16,
    channel: u8,
    corrected_gain: F32,
)
    requires
        measured(hotter) <= measured(cooler),
    ensures
        crate::matrix::driven_channel(channel, corrected_gain, multiplier(hotter))
            <= crate::matrix::driven_channel(channel, corrected_gain, multiplier(cooler)),
{
    let value = crate::matrix::GAMMA_CORRECTION@[corrected_gain.scaled(channel) as int];
    law_multiplier_range(hotter);
    law_multiplier_range(cooler);
    law_hotter_is_throttled_more(hotter, cooler);
    crate::float::law_scaling_keeps_order(multiplier(hotter), multiplier(cooler), value, value);
}

/// The sensor gives 0.706 V at 27 degrees and 1.721 mV less for each degree more; a reading
/// counts the 4096 steps of 3.3 V. A chip is hotter than a temperature if its voltage is
/// lower.
pub proof fn law_sensor(reading: u16, degrees: int)
    ensures
        voltage_at(27) == 706_000 * 4096,
        voltage_at(degrees + 1) == voltage_at(degrees) - 1_721 * 4096,
        measured(0) == 0,
        reading < 0xffff ==> measured((reading + 1) as u16) == measured(reading) + 3_300_000,
        hotter_than(reading, degrees) <==> measured(reading) < voltage_at(degrees),
        hotter_than(reading, degrees + 1) ==> hotter_than(reading, degrees),
{
}

/// Between 55 degrees and the temperature at which it reaches zero, the multiplier follows a
/// straight line that loses nine tenths in ten degrees, up to one part in two to the
/// twenty-four.
pub proof fn law_multiplier_follows_the_line(reading: u16)
    requires
        hotter_than(reading, 55),
    ensures
        ({
            let span = voltage_at(55) - voltage_at(65);
            let line = 10 * span - 9 * (voltage_at(55) - measured(reading));
            let exact = line * crate::float::two_to(149);
            let error = multiplier(reading).units() * (10 * span) - exact;
            &&& span == 10 * 1_721 * 4096
            &&& line >= 0 ==> -exact <= error * 0x100_0000 <= exact
            &&& line <= 0 ==> multiplier(reading).units() == 0
        }),
{
    let span = (voltage_at(55) - voltage_at(65)) as nat;
    crate::float::law_ratio_is_accurate(line_part(reading), 10 * span);
    if line_part(reading) == 0 {
        crate::float::law_ratio_is_accurate(0, 1);
        assert(0 * crate::float::two_to(149) == 0);
    }
}

/// A chip is told to throttle once it is hotter than 50 degrees, and a hotter chip never
/// escapes it or is throttled less.
pub proof fn law_throttling_starts_at_fifty_degrees(hotter: u16, cooler: u16)
    requires
        hotter <= cooler,
    ensures
        throttling(cooler) is Some <==> 3_300_000 * cooler < 4096 * (706_000 - 23 * 1_721),
        throttling(cooler) is Some ==> throttling(hotter) is Some,
        throttling(hotter) matches Some(gain) ==> gain.units() <= crate::float::ratio(1, 1).units(),
        throttling(cooler) is Some ==> throttling(hotter)->0.units()
            <= throttling(cooler)->0.units(),
{
    law_multiplier_range(hotter);
    law_hotter_is_throttled_more(hotter, cooler);
}

} // verus!
