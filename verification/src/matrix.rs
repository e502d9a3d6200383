//! The LED matrix: brightness, gamma correction and thermal throttling.
use vstd::prelude::*;

use crate::color::RGB8;
use crate::float::F32;
use crate::framebuffer::{RawFramebuffer, LED_MATRIX_SIZE};
use crate::power::OutputPower;

verus! {

/// What an LED has to be driven with to look as bright as a channel value asks.
pub const GAMMA_CORRECTION: [u8; 256] = [
    0, 0, 0, 0, 0, 0, 0, 0, 0, 0, 0, 0, 0, 0, 0, 0,
    0, 0, 0, 0, 0, 0, 0, 0, 0, 0, 0, 0, 1, 1, 1, 1,
    1, 1, 1, 1, 1, 1, 1, 1, 1, 2, 2, 2, 2, 2, 2, 2,
    2, 3, 3, 3, 3, 3, 3, 3, 4, 4, 4, 4, 4, 5, 5, 5,
    5, 6, 6, 6, 6, 7, 7, 7, 7, 8, 8, 8, 9, 9, 9, 10,
    10, 10, 11, 11, 11, 12, 12, 13, 13, 13, 14, 14, 15, 15, 16, 16,
    17, 17, 18, 18, 19, 19, 20, 20, 21, 21, 22, 22, 23, 24, 24, 25,
    25, 26, 27, 27, 28, 29, 29, 30, 31, 32, 32, 33, 34, 35, 35, 36,
    37, 38, 39, 39, 40, 41, 42, 43, 44, 45, 46, 47, 48, 49, 50, 50,
    51, 52, 54, 55, 56, 57, 58, 59, 60, 61, 62, 63, 64, 66, 67, 68,
    69, 70, 72, 73, 74, 75, 77, 78, 79, 81, 82, 83, 85, 86, 87, 89,
    90, 92, 93, 95, 96, 98, 99, 101, 102, 104, 105, 107, 109, 110, 112, 114,
    115, 117, 119, 120, 122, 124, 126, 127, 129, 131, 133, 135, 137, 138, 140, 142,
    144, 146, 148, 150, 152, 154, 156, 158, 160, 162, 164, 167, 169, 171, 173, 175,
    177, 180, 182, 184, 186, 189, 191, 193, 196, 198, 200, 203, 205, 208, 210, 213,
    215, 218, 220, 223, 225, 228, 231, 233, 236, 239, 241, 244, 247, 249, 252, 255,
];

/// A picture, the gains to show it with, and what is sent to the LEDs.
pub struct LedMatrix {
    pub raw_framebuffer: RawFramebuffer<RGB8>,
    pub gamma_corrected_framebuffer: RawFramebuffer<RGB8>,
    pub corrected_gain: F32,
    pub raw_gain: F32,
}

/// What a channel is driven with: the first gain dims what the eye sees, the
/// second one what the LED draws.
pub open spec fn driven_channel(channel: u8, corrected_gain: F32, raw_gain: F32) -> u8 {
    raw_gain.scaled(GAMMA_CORRECTION@[corrected_gain.scaled(channel) as int])
}

/// What an LED is driven with, channel by channel.
pub open spec fn driven(colour: RGB8, corrected_gain: F32, raw_gain: F32) -> RGB8 {
    RGB8 {
        r: driven_channel(colour.r, corrected_gain, raw_gain),
        g: driven_channel(colour.g, corrected_gain, raw_gain),
        b: driven_channel(colour.b, corrected_gain, raw_gain),
    }
}

impl LedMatrix {
    /// What the LEDs have to be driven with to show the picture.
    pub open spec fn output(self) -> Seq<RGB8> {
        Seq::new(
            LED_MATRIX_SIZE as nat,
            |i: int| driven(self.raw_framebuffer@[i], self.corrected_gain, self.raw_gain),
        )
    }

    /// A dark matrix at full gain.
    pub fn new() -> (m: Self)
        ensures
            m.raw_framebuffer@ == crate::framebuffer::uniform(crate::color::black()),
            m.gamma_corrected_framebuffer@ == crate::framebuffer::uniform(crate::color::black()),
            m.corrected_gain == crate::float::ratio(1, 1),
            m.raw_gain == crate::float::ratio(1, 1),
    {
        Self {
            raw_framebuffer: RawFramebuffer::new(),
            gamma_corrected_framebuffer: RawFramebuffer::new(),
            corrected_gain: F32::from_ratio(1, 1),
            raw_gain: F32::from_ratio(1, 1),
        }
    }

    /// Sets the gain that applies before gamma correction.
    pub fn set_gain(&mut self, gain: F32)
        ensures
            *final(self) == (LedMatrix { corrected_gain: gain, ..*old(self) }),
    {
        self.corrected_gain = gain;
    }

    /// Sets the gain that applies after gamma correction.
    pub fn set_raw_gain(&mut self, gain: F32)
        ensures
            *final(self) == (LedMatrix { raw_gain: gain, ..*old(self) }),
    {
        self.raw_gain = gain;
    }

    /// Reads one LED of the picture; outside of the matrix it is black.
    pub fn get_pixel(&self, x: usize, y: usize) -> (colour: RGB8)
        ensures
            colour == if crate::framebuffer::on_matrix(x as int, y as int) {
                self.raw_framebuffer@[crate::framebuffer::position(x as int, y as int)]
            } else {
                crate::color::black()
            },
    {
        self.raw_framebuffer.get_pixel(x, y)
    }

    /// Writes one LED of the picture; a place outside of the matrix is ignored.
    pub fn set_pixel(&mut self, x: usize, y: usize, colour: RGB8)
        ensures
            final(self).raw_framebuffer@ == crate::framebuffer::with_pixel(
                old(self).raw_framebuffer@,
                x as int,
                y as int,
                colour,
            ),
            *final(self) == (LedMatrix {
                raw_framebuffer: final(self).raw_framebuffer,
                ..*old(self)
            }),
    {
        self.raw_framebuffer.set_pixel(x, y, colour);
    }

    /// Computes what the LEDs have to be driven with.
    pub fn update_gamma_correction_and_gain(&mut self)
        ensures
            final(self).gamma_corrected_framebuffer@ == old(self).output(),
            forall|i: int|
                0 <= i < 9 ==> #[trigger] final(self).gamma_corrected_framebuffer.framebuffer@[i]
                    == driven(
                    old(self).raw_framebuffer.framebuffer@[i],
                    old(self).corrected_gain,
                    old(self).raw_gain,
                ),
            *final(self) == (LedMatrix {
                gamma_corrected_framebuffer: final(self).gamma_corrected_framebuffer,
                ..*old(self)
            }),
    {
        for i in 0..LED_MATRIX_SIZE
            invariant
                *self == (LedMatrix {
                    gamma_corrected_framebuffer: self.gamma_corrected_framebuffer,
                    ..*old(self)
                }),
                forall|j: int|
                    0 <= j < i ==> self.gamma_corrected_framebuffer.framebuffer@[j] == old(
                        self,
                    ).output()[j],
        {
            let colour = self.raw_framebuffer.framebuffer[i];

            let colour = RGB8 {
                r: self.corrected_gain.scale(colour.r),
                g: self.corrected_gain.scale(colour.g),
                b: self.corrected_gain.scale(colour.b),
            };

            let colour = RGB8 {
                r: GAMMA_CORRECTION[colour.r as usize],
                g: GAMMA_CORRECTION[colour.g as usize],
                b: GAMMA_CORRECTION[colour.b as usize],
            };

            let colour = RGB8 {
                r: self.raw_gain.scale(colour.r),
                g: self.raw_gain.scale(colour.g),
                b: self.raw_gain.scale(colour.b),
            };

            self.gamma_corrected_framebuffer.framebuffer[i] = colour;
        }
        assert(self.gamma_corrected_framebuffer@ == old(self).output());
    }

    /// Shows the same colour everywhere.
    pub fn set_all(&mut self, rgb: RGB8)
        ensures
            final(self).raw_framebuffer@ == crate::framebuffer::uniform(rgb),
            *final(self) == (LedMatrix {
                raw_framebuffer: final(self).raw_framebuffer,
                ..*old(self)
            }),
    {
        self.raw_framebuffer.set_all(rgb);
    }

    /// Computes what the LEDs have to be driven with, and hands it out.
    pub fn get_gamma_corrected(&mut self) -> (corrected: &[RGB8; LED_MATRIX_SIZE])
        ensures
            corrected@ == old(self).output(),
            forall|i: int|
                0 <= i < 9 ==> #[trigger] corrected@[i] == driven(
                    old(self).raw_framebuffer.framebuffer@[i],
                    old(self).corrected_gain,
                    old(self).raw_gain,
                ),
            final(self).gamma_corrected_framebuffer@ == old(self).output(),
            *final(self) == (LedMatrix {
                gamma_corrected_framebuffer: final(self).gamma_corrected_framebuffer,
                ..*old(self)
            }),
    {
        self.update_gamma_correction_and_gain();
        self.gamma_corrected_framebuffer.get_raw()
    }

    /// Turns the picture black.
    pub fn clear(&mut self)
        ensures
            final(self).raw_framebuffer@ == crate::framebuffer::uniform(crate::color::black()),
            *final(self) == (LedMatrix {
                raw_framebuffer: final(self).raw_framebuffer,
                ..*old(self)
            }),
    {
        self.set_all((0, 0, 0).into());
    }
}

/// Gamma correction keeps the order of brightness, keeps both ends of the range, and
/// never drives an LED with more than the channel value.
pub proof fn law_gamma_keeps_order(a: u8, b: u8)
    requires
        a <= b,
    ensures
        GAMMA_CORRECTION@[a as int] <= GAMMA_CORRECTION@[b as int],
        GAMMA_CORRECTION@[b as int] <= b,
        GAMMA_CORRECTION@[0] == 0,
        GAMMA_CORRECTION@[255] == 255,
    decreases b - a,
{
    assert(GAMMA_CORRECTION@[b as int] <= b);
    if a < b {
        let below = (b - 1) as u8;
        assert(GAMMA_CORRECTION@[below as int] <= GAMMA_CORRECTION@[b as int]);
        law_gamma_keeps_order(a, below);
    }
}

/// An LED that is off stays dark, whatever the gains are.
pub proof fn law_black_stays_black(corrected_gain: F32, raw_gain: F32)
    ensures
        driven(crate::color::black(), corrected_gain, raw_gain) == crate::color::black(),
{
    law_gamma_keeps_order(0, 0);
}

/// At full brightness and without throttling only gamma correction is left.
pub proof fn law_full_gains_leave_gamma_correction(channel: u8)
    ensures
        driven_channel(channel, crate::float::ratio(1, 1), crate::float::ratio(1, 1))
            == GAMMA_CORRECTION@[channel as int],
{
    crate::float::law_unit_gain_keeps_channel(channel);
    crate::float::law_unit_gain_keeps_channel(GAMMA_CORRECTION@[channel as int]);
}

/// A throttle multiplier of one does not throttle, one of zero turns every LED off,
/// and none up to one makes an LED brighter.
pub proof fn law_throttling(channel: u8, corrected_gain: F32, multiplier: F32)
    requires
        multiplier.at_most(crate::float::ratio(1, 1)),
    ensures
        driven_channel(channel, corrected_gain, crate::float::ratio(1, 1))
            == GAMMA_CORRECTION@[corrected_gain.scaled(channel) as int],
        driven_channel(channel, corrected_gain, crate::float::ratio(0, 1)) == 0,
        driven_channel(channel, corrected_gain, multiplier) <= driven_channel(
            channel,
            corrected_gain,
            crate::float::ratio(1, 1),
        ),
{
    let full = GAMMA_CORRECTION@[corrected_gain.scaled(channel) as int];
    crate::float::law_unit_gain_keeps_channel(full);
    crate::float::law_zero_gain_turns_off(full);
    crate::float::law_gain_up_to_one_never_brightens(multiplier, full);
}

/// Greater gains and brighter channels never give a darker LED.
pub proof fn law_driving_keeps_order(
    c: u8,
    d: u8,
    corrected_gain: F32,
    greater_corrected_gain: F32,
    raw_gain: F32,
    greater_raw_gain: F32,
)
    requires
        c <= d,
        corrected_gain.at_most(greater_corrected_gain),
        raw_gain.at_most(greater_raw_gain),
    ensures
        driven_channel(c, corrected_gain, raw_gain) <= driven_channel(
            d,
            greater_corrected_gain,
            greater_raw_gain,
        ),
{
    let a = corrected_gain.scaled(c);
    let b = greater_corrected_gain.scaled(d);
    crate::float::law_scaling_keeps_order(corrected_gain, greater_corrected_gain, c, d);
    law_gamma_keeps_order(a, b);
    crate::float::law_scaling_keeps_order(
        raw_gain,
        greater_raw_gain,
        GAMMA_CORRECTION@[a as int],
        GAMMA_CORRECTION@[b as int],
    );
}

/// Turning the brightness down never makes an LED brighter, except from the darkest step,
/// which is followed by the brightest.
pub proof fn law_darker_step_never_brightens(power: OutputPower, channel: u8, raw_gain: F32)
    requires
        power != OutputPower::NighMode,
    ensures
        driven_channel(channel, power.decreased().gain_value(), raw_gain) <= driven_channel(
            channel,
            power.gain_value(),
            raw_gain,
        ),
{
    crate::power::law_darker_step_has_smaller_gain(power);
    crate::power::law_darker_step_has_smaller_gain(power.decreased());
    if !raw_gain.is_nan() {
        law_driving_keeps_order(
            channel,
            channel,
            power.decreased().gain_value(),
            power.gain_value(),
            raw_gain,
            raw_gain,
        );
    }
}

/// What an LED is driven with is the colour of the same place in the picture, channel by
/// channel: dimmed, gamma corrected and throttled in this order.
pub proof fn law_each_led_shows_its_own_place(m: LedMatrix, x: int, y: int)
    requires
        0 <= x < 3,
        0 <= y < 3,
    ensures
        m.output().len() == 9,
        ({
            let colour = m.raw_framebuffer.framebuffer@[3 * y + x];
            let led = m.output()[3 * y + x];
            &&& led.r == m.raw_gain.scaled(
                GAMMA_CORRECTION@[m.corrected_gain.scaled(colour.r) as int],
            )
            &&& led.g == m.raw_gain.scaled(
                GAMMA_CORRECTION@[m.corrected_gain.scaled(colour.g) as int],
            )
            &&& led.b == m.raw_gain.scaled(
                GAMMA_CORRECTION@[m.corrected_gain.scaled(colour.b) as int],
            )
        }),
{
}

/// Two matrices with the same gains drive an LED alike if their pictures agree in its place,
/// whatever the pictures show elsewhere.
pub proof fn law_an_led_depends_on_its_place_alone(a: LedMatrix, b: LedMatrix, x: int, y: int)
    requires
        0 <= x < 3,
        0 <= y < 3,
        a.corrected_gain == b.corrected_gain,
        a.raw_gain == b.raw_gain,
        a.raw_framebuffer.framebuffer@[3 * y + x] == b.raw_framebuffer.framebuffer@[3 * y + x],
    ensures
        a.output()[3 * y + x] == b.output()[3 * y + x],
{
}

/// After one pixel of a dark picture was written, at full gains, the LED in its place is
/// driven with the gamma corrected colour, and all the others stay dark.
pub proof fn law_one_pixel_lights_one_led(
    dark: LedMatrix,
    m: LedMatrix,
    x: int,
    y: int,
    colour: RGB8,
    u: int,
    v: int,
)
    requires
        forall|i: int|
            0 <= i < 9 ==> #[trigger] dark.raw_framebuffer.framebuffer@[i] == (RGB8 {
                r: 0,
                g: 0,
                b: 0,
            }),
        m.corrected_gain == crate::float::ratio(1, 1),
        m.raw_gain == crate::float::ratio(1, 1),
        m.raw_framebuffer@ == crate::framebuffer::with_pixel(
            dark.raw_framebuffer@,
            x,
            y,
            colour,
        ),
        0 <= x < 3,
        0 <= y < 3,
        0 <= u < 3,
        0 <= v < 3,
    ensures
        m.output()[3 * v + u] == if u == x && v == y {
            RGB8 {
                r: GAMMA_CORRECTION@[colour.r as int],
                g: GAMMA_CORRECTION@[colour.g as int],
                b: GAMMA_CORRECTION@[colour.b as int],
            }
        } else {
            RGB8 { r: 0, g: 0, b: 0 }
        },
{
    crate::framebuffer::law_write_changes_one_entry(
        dark.raw_framebuffer@,
        x,
        y,
        colour,
        3 * v + u,
    );
    law_each_led_shows_its_own_place(m, u, v);
    law_full_gains_leave_gamma_correction(colour.r);
    law_full_gains_leave_gamma_correction(colour.g);
    law_full_gains_leave_gamma_correction(colour.b);
    law_black_stays_black(m.corrected_gain, m.raw_gain);
}

/// The three stages of driving an LED come one after the other: throttling applies to what
/// comes out at full power, dimming to what goes in, and gamma correction is in between.
pub proof fn law_stages_of_driving(channel: u8, corrected_gain: F32, raw_gain: F32)
    ensures
        ({
            let one = crate::float::ratio(1, 1);
            &&& driven_channel(channel, corrected_gain, raw_gain) == raw_gain.scaled(
                driven_channel(channel, corrected_gain, one),
            )
            &&& driven_channel(channel, corrected_gain, one) == driven_channel(
                corrected_gain.scaled(channel),
                one,
                one,
            )
            &&& driven_channel(channel, one, raw_gain) == raw_gain.scaled(
                GAMMA_CORRECTION@[channel as int],
            )
        }),
{
    let dimmed = corrected_gain.scaled(channel);
    crate::float::law_unit_gain_keeps_channel(channel);
    crate::float::law_unit_gain_keeps_channel(dimmed);
    crate::float::law_unit_gain_keeps_channel(GAMMA_CORRECTION@[dimmed as int]);
}

/// The fifth power.
pub open spec fn fifth_power(x: int) -> int {
    x * x * x * x * x
}

/// The fourteenth power.
pub open spec fn fourteenth_power(x: int) -> int {
    let square = x * x;
    let sixth = square * square * square;
    sixth * sixth * square
}

/// Whether `y` is the integer nearest to `255 * (x / 255)^2.8`, without roots or fractions:
/// both sides of `y - 1/2 <= 255 * (x / 255)^2.8 < y + 1/2` are taken to the fifth power.
pub open spec fn is_gamma_corrected(x: int, y: int) -> bool {
    let scale = 255 * fifth_power(255) * 255 * 255 * 255;
    fifth_power(2 * y - 1) * scale <= 32 * fourteenth_power(x) < fifth_power(2 * y + 1) * scale
}

/// Gamma correction raises the brightness to the power of 2.8.
pub proof fn law_gamma_is_two_point_eight(channel: u8)
    ensures
        is_gamma_corrected(channel as int, GAMMA_CORRECTION@[channel as int] as int),
{
    lemma_gamma_first();
    lemma_gamma_second();
    lemma_gamma_third();
    lemma_gamma_fourth();
}

/// The first quarter of the gamma correction.
proof fn lemma_gamma_first()
    by (nonlinear_arith)
    ensures
        is_gamma_corrected(0, 0),
        is_gamma_corrected(1, 0),
        is_gamma_corrected(2, 0),
        is_gamma_corrected(3, 0),
        is_gamma_corrected(4, 0),
        is_gamma_corrected(5, 0),
        is_gamma_corrected(6, 0),
        is_gamma_corrected(7, 0),
        is_gamma_corrected(8, 0),
        is_gamma_corrected(9, 0),
        is_gamma_corrected(10, 0),
        is_gamma_corrected(11, 0),
        is_gamma_corrected(12, 0),
        is_gamma_corrected(13, 0),
        is_gamma_corrected(14, 0),
        is_gamma_corrected(15, 0),
        is_gamma_corrected(16, 0),
        is_gamma_corrected(17, 0),
        is_gamma_corrected(18, 0),
        is_gamma_corrected(19, 0),
        is_gamma_corrected(20, 0),
        is_gamma_corrected(21, 0),
        is_gamma_corrected(22, 0),
        is_gamma_corrected(23, 0),
        is_gamma_corrected(24, 0),
        is_gamma_corrected(25, 0),
        is_gamma_corrected(26, 0),
        is_gamma_corrected(27, 0),
        is_gamma_corrected(28, 1),
        is_gamma_corrected(29, 1),
        is_gamma_corrected(30, 1),
        is_gamma_corrected(31, 1),
        is_gamma_corrected(32, 1),
        is_gamma_corrected(33, 1),
        is_gamma_corrected(34, 1),
        is_gamma_corrected(35, 1),
        is_gamma_corrected(36, 1),
        is_gamma_corrected(37, 1),
        is_gamma_corrected(38, 1),
        is_gamma_corrected(39, 1),
        is_gamma_corrected(40, 1),
        is_gamma_corrected(41, 2),
        is_gamma_corrected(42, 2),
        is_gamma_corrected(43, 2),
        is_gamma_corrected(44, 2),
        is_gamma_corrected(45, 2),
        is_gamma_corrected(46, 2),
        is_gamma_corrected(47, 2),
        is_gamma_corrected(48, 2),
        is_gamma_corrected(49, 3),
        is_gamma_corrected(50, 3),
        is_gamma_corrected(51, 3),
        is_gamma_corrected(52, 3),
        is_gamma_corrected(53, 3),
        is_gamma_corrected(54, 3),
        is_gamma_corrected(55, 3),
        is_gamma_corrected(56, 4),
        is_gamma_corrected(57, 4),
        is_gamma_corrected(58, 4),
        is_gamma_corrected(59, 4),
        is_gamma_corrected(60, 4),
        is_gamma_corrected(61, 5),
        is_gamma_corrected(62, 5),
        is_gamma_corrected(63, 5),
{
}

/// The second quarter of the gamma correction.
proof fn lemma_gamma_second()
    by (nonlinear_arith)
    ensures
        is_gamma_corrected(64, 5),
        is_gamma_corrected(65, 6),
        is_gamma_corrected(66, 6),
        is_gamma_corrected(67, 6),
        is_gamma_corrected(68, 6),
        is_gamma_corrected(69, 7),
        is_gamma_corrected(70, 7),
        is_gamma_corrected(71, 7),
        is_gamma_corrected(72, 7),
        is_gamma_corrected(73, 8),
        is_gamma_corrected(74, 8),
        is_gamma_corrected(75, 8),
        is_gamma_corrected(76, 9),
        is_gamma_corrected(77, 9),
        is_gamma_corrected(78, 9),
        is_gamma_corrected(79, 10),
        is_gamma_corrected(80, 10),
        is_gamma_corrected(81, 10),
        is_gamma_corrected(82, 11),
        is_gamma_corrected(83, 11),
        is_gamma_corrected(84, 11),
        is_gamma_corrected(85, 12),
        is_gamma_corrected(86, 12),
        is_gamma_corrected(87, 13),
        is_gamma_corrected(88, 13),
        is_gamma_corrected(89, 13),
        is_gamma_corrected(90, 14),
        is_gamma_corrected(91, 14),
        is_gamma_corrected(92, 15),
        is_gamma_corrected(93, 15),
        is_gamma_corrected(94, 16),
        is_gamma_corrected(95, 16),
        is_gamma_corrected(96, 17),
        is_gamma_corrected(97, 17),
        is_gamma_corrected(98, 18),
        is_gamma_corrected(99, 18),
        is_gamma_corrected(100, 19),
        is_gamma_corrected(101, 19),
        is_gamma_corrected(102, 20),
        is_gamma_corrected(103, 20),
        is_gamma_corrected(104, 21),
        is_gamma_corrected(105, 21),
        is_gamma_corrected(106, 22),
        is_gamma_corrected(107, 22),
        is_gamma_corrected(108, 23),
        is_gamma_corrected(109, 24),
        is_gamma_corrected(110, 24),
        is_gamma_corrected(111, 25),
        is_gamma_corrected(112, 25),
        is_gamma_corrected(113, 26),
        is_gamma_corrected(114, 27),
        is_gamma_corrected(115, 27),
        is_gamma_corrected(116, 28),
        is_gamma_corrected(117, 29),
        is_gamma_corrected(118, 29),
        is_gamma_corrected(119, 30),
        is_gamma_corrected(120, 31),
        is_gamma_corrected(121, 32),
        is_gamma_corrected(122, 32),
        is_gamma_corrected(123, 33),
        is_gamma_corrected(124, 34),
        is_gamma_corrected(125, 35),
        is_gamma_corrected(126, 35),
        is_gamma_corrected(127, 36),
{
}

/// The third quarter of the gamma correction.
proof fn lemma_gamma_third()
    by (nonlinear_arith)
    ensures
        is_gamma_corrected(128, 37),
        is_gamma_corrected(129, 38),
        is_gamma_corrected(130, 39),
        is_gamma_corrected(131, 39),
        is_gamma_corrected(132, 40),
        is_gamma_corrected(133, 41),
        is_gamma_corrected(134, 42),
        is_gamma_corrected(135, 43),
        is_gamma_corrected(136, 44),
        is_gamma_corrected(137, 45),
        is_gamma_corrected(138, 46),
        is_gamma_corrected(139, 47),
        is_gamma_corrected(140, 48),
        is_gamma_corrected(141, 49),
        is_gamma_corrected(142, 50),
        is_gamma_corrected(143, 50),
        is_gamma_corrected(144, 51),
        is_gamma_corrected(145, 52),
        is_gamma_corrected(146, 54),
        is_gamma_corrected(147, 55),
        is_gamma_corrected(148, 56),
        is_gamma_corrected(149, 57),
        is_gamma_corrected(150, 58),
        is_gamma_corrected(151, 59),
        is_gamma_corrected(152, 60),
        is_gamma_corrected(153, 61),
        is_gamma_corrected(154, 62),
        is_gamma_corrected(155, 63),
        is_gamma_corrected(156, 64),
        is_gamma_corrected(157, 66),
        is_gamma_corrected(158, 67),
        is_gamma_corrected(159, 68),
        is_gamma_corrected(160, 69),
        is_gamma_corrected(161, 70),
        is_gamma_corrected(162, 72),
        is_gamma_corrected(163, 73),
        is_gamma_corrected(164, 74),
        is_gamma_corrected(165, 75),
        is_gamma_corrected(166, 77),
        is_gamma_corrected(167, 78),
        is_gamma_corrected(168, 79),
        is_gamma_corrected(169, 81),
        is_gamma_corrected(170, 82),
        is_gamma_corrected(171, 83),
        is_gamma_corrected(172, 85),
        is_gamma_corrected(173, 86),
        is_gamma_corrected(174, 87),
        is_gamma_corrected(175, 89),
        is_gamma_corrected(176, 90),
        is_gamma_corrected(177, 92),
        is_gamma_corrected(178, 93),
        is_gamma_corrected(179, 95),
        is_gamma_corrected(180, 96),
        is_gamma_corrected(181, 98),
        is_gamma_corrected(182, 99),
        is_gamma_corrected(183, 101),
        is_gamma_corrected(184, 102),
        is_gamma_corrected(185, 104),
        is_gamma_corrected(186, 105),
        is_gamma_corrected(187, 107),
        is_gamma_corrected(188, 109),
        is_gamma_corrected(189, 110),
        is_gamma_corrected(190, 112),
        is_gamma_corrected(191, 114),
{
}

/// The fourth quarter of the gamma correction.
proof fn lemma_gamma_fourth()
    by (nonlinear_arith)
    ensures
        is_gamma_corrected(192, 115),
        is_gamma_corrected(193, 117),
        is_gamma_corrected(194, 119),
        is_gamma_corrected(195, 120),
        is_gamma_corrected(196, 122),
        is_gamma_corrected(197, 124),
        is_gamma_corrected(198, 126),
        is_gamma_corrected(199, 127),
        is_gamma_corrected(200, 129),
        is_gamma_corrected(201, 131),
        is_gamma_corrected(202, 133),
        is_gamma_corrected(203, 135),
        is_gamma_corrected(204, 137),
        is_gamma_corrected(205, 138),
        is_gamma_corrected(206, 140),
        is_gamma_corrected(207, 142),
        is_gamma_corrected(208, 144),
        is_gamma_corrected(209, 146),
        is_gamma_corrected(210, 148),
        is_gamma_corrected(211, 150),
        is_gamma_corrected(212, 152),
        is_gamma_corrected(213, 154),
        is_gamma_corrected(214, 156),
        is_gamma_corrected(215, 158),
        is_gamma_corrected(216, 160),
        is_gamma_corrected(217, 162),
        is_gamma_corrected(218, 164),
        is_gamma_corrected(219, 167),
        is_gamma_corrected(220, 169),
        is_gamma_corrected(221, 171),
        is_gamma_corrected(222, 173),
        is_gamma_corrected(223, 175),
        is_gamma_corrected(224, 177),
        is_gamma_corrected(225, 180),
        is_gamma_corrected(226, 182),
        is_gamma_corrected(227, 184),
        is_gamma_corrected(228, 186),
        is_gamma_corrected(229, 189),
        is_gamma_corrected(230, 191),
        is_gamma_corrected(231, 193),
        is_gamma_corrected(232, 196),
        is_gamma_corrected(233, 198),
        is_gamma_corrected(234, 200),
        is_gamma_corrected(235, 203),
        is_gamma_corrected(236, 205),
        is_gamma_corrected(237, 208),
        is_gamma_corrected(238, 210),
        is_gamma_corrected(239, 213),
        is_gamma_corrected(240, 215),
        is_gamma_corrected(241, 218),
        is_gamma_corrected(242, 220),
        is_gamma_corrected(243, 223),
        is_gamma_corrected(244, 225),
        is_gamma_corrected(245, 228),
        is_gamma_corrected(246, 231),
        is_gamma_corrected(247, 233),
        is_gamma_corrected(248, 236),
        is_gamma_corrected(249, 239),
        is_gamma_corrected(250, 241),
        is_gamma_corrected(251, 244),
        is_gamma_corrected(252, 247),
        is_gamma_corrected(253, 249),
        is_gamma_corrected(254, 252),
        is_gamma_corrected(255, 255),
{
}

} // verus!
