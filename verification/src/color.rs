//! Colours of the LEDs.
use vstd::prelude::*;

verus! {

/// A colour with eight bits for each of its three channels.
#[derive(Clone, Copy, Debug, PartialEq, Eq, Structural)]
pub struct RGB8 {
    pub r: u8,
    pub g: u8,
    pub b: u8,
}

/// The colour of an LED that is off.
pub open spec fn black() -> RGB8 {
    RGB8 { r: 0, g: 0, b: 0 }
}

impl Default for RGB8 {
    fn default() -> (c: RGB8)
        ensures
            c == black(),
    {
        RGB8 { r: 0, g: 0, b: 0 }
    }
}

impl From<(u8, u8, u8)> for RGB8 {
    fn from(channels: (u8, u8, u8)) -> (c: RGB8) {
        RGB8 { r: channels.0, g: channels.1, b: channels.2 }
    }
}

impl vstd::std_specs::convert::FromSpecImpl<(u8, u8, u8)> for RGB8 {
    open spec fn obeys_from_spec() -> bool {
        true
    }

    open spec fn from_spec(channels: (u8, u8, u8)) -> RGB8 {
        RGB8 { r: channels.0, g: channels.1, b: channels.2 }
    }
}

/// An LED that is off has no light in any channel, and three channel values in the order
/// red, green, blue make the colour with these channels.
pub proof fn law_channels_are_red_green_blue(r: u8, g: u8, b: u8)
    ensures
        black().r == 0 && black().g == 0 && black().b == 0,
        ({
            let colour = <RGB8 as vstd::std_specs::convert::FromSpec<(u8, u8, u8)>>::from_spec(
                (r, g, b),
            );
            colour.r == r && colour.g == g && colour.b == b
        }),
{
}

} // verus!
