//! What a scene is made of.
use vstd::prelude::*;

use crate::color::RGB8;
use crate::float::F32;

verus! {

/// Which LEDs are lit: one bit for each of the nine.
pub type LedPattern = u16;

/// The shape that a command draws.
#[derive(Clone, Copy, Debug)]
pub enum Pattern {
    /// A still pattern.
    Simple(LedPattern),
    /// Patterns in turn, at a speed.
    Animation(&'static [LedPattern], F32),
}

/// How a shape is coloured.
#[derive(Clone, Copy, Debug, PartialEq, Eq, Structural)]
pub enum ColorPalette {
    /// A rainbow, at a speed.
    Rainbow(F32),
    /// One colour.
    Solid(RGB8),
}

/// A filter on what is drawn.
#[derive(Clone, Copy, Debug, PartialEq, Eq, Structural)]
pub enum FragmentShader {
    /// A low-pass filter that lets peaks through, and its strength.
    LowPassWithPeak(F32),
}

/// A shape, its colours, and the filters it passes through.
#[derive(Debug)]
pub struct RenderCommand {
    pub effect: Pattern,
    pub color: ColorPalette,
    pub pattern_shaders: heapless::Vec<FragmentShader, 8>,
}

/// The mathematical content of a `Pattern`.
pub enum PatternView {
    Simple(LedPattern),
    Animation(Seq<LedPattern>, F32),
}

/// The mathematical content of a `RenderCommand`.
pub struct RenderCommandView {
    pub effect: PatternView,
    pub color: ColorPalette,
    pub pattern_shaders: Seq<FragmentShader>,
}

impl View for Pattern {
    type V = PatternView;

    open spec fn view(&self) -> PatternView {
        match *self {
            Pattern::Simple(pattern) => PatternView::Simple(pattern),
            Pattern::Animation(patterns, speed) => PatternView::Animation(patterns@, speed),
        }
    }
}

impl View for RenderCommand {
    type V = RenderCommandView;

    open spec fn view(&self) -> RenderCommandView {
        RenderCommandView {
            effect: self.effect@,
            color: self.color,
            pattern_shaders: shader_list(self.pattern_shaders),
        }
    }
}

/// `heapless::Vec`, a vector that holds at most `N` items.
#[verifier::external_type_specification]
#[verifier::external_body]
#[verifier::reject_recursive_types(T)]
pub struct ExBoundedVec<T, const N: usize>(heapless::Vec<T, N>);

/// The shaders that a bounded vector holds, in order.
pub uninterp spec fn shader_list(v: heapless::Vec<FragmentShader, 8>) -> Seq<FragmentShader>;

/// `heapless::Vec::from_slice` on shaders: it fails where the slice is longer than the
/// capacity, and otherwise holds a clone of each item in the slice's order.
#[verifier::external_body]
fn shaders_from_slice(items: &[FragmentShader]) -> (r: Result<
    heapless::Vec<FragmentShader, 8>,
    (),
>)
    ensures
        r is Ok <==> items@.len() <= 8,
        r matches Ok(v) ==> shader_list(v).len() == items@.len(),
        r matches Ok(v) ==> forall|i: int|
            0 <= i < items@.len() ==> #[trigger] cloned(items@[i], shader_list(v)[i]),
{
    heapless::Vec::from_slice(items)
}

/// `heapless::Vec::clone` on shaders: it holds a clone of each item, in the same order.
#[verifier::external_body]
fn clone_shaders(v: &heapless::Vec<FragmentShader, 8>) -> (r: heapless::Vec<FragmentShader, 8>)
    ensures
        shader_list(r).len() == shader_list(*v).len(),
        forall|i: int|
            0 <= i < shader_list(*v).len() ==> #[trigger] cloned(
                shader_list(*v)[i],
                shader_list(r)[i],
            ),
{
    v.clone()
}

impl Clone for RenderCommand {
    fn clone(&self) -> (r: Self)
        ensures
            r@ == self@,
    {
        let pattern_shaders = clone_shaders(&self.pattern_shaders);
        assert(shader_list(pattern_shaders) == shader_list(self.pattern_shaders)) by {
            assert forall|i: int| 0 <= i < shader_list(self.pattern_shaders).len() implies
                shader_list(pattern_shaders)[i] == shader_list(self.pattern_shaders)[i] by {
                assert(cloned(
                    shader_list(self.pattern_shaders)[i],
                    shader_list(pattern_shaders)[i],
                ));
            }
        }
        RenderCommand { effect: self.effect, color: self.color, pattern_shaders }
    }
}

/// A still pattern in one colour, without filters.
pub open spec fn plain(pattern: LedPattern, colour: RGB8) -> RenderCommandView {
    RenderCommandView {
        effect: PatternView::Simple(pattern),
        color: ColorPalette::Solid(colour),
        pattern_shaders: Seq::empty(),
    }
}

impl RenderCommand {
    /// Draws a shape through the given filters; there can be no more than eight.
    pub fn with_shaders(effect: Pattern, color: ColorPalette, shaders: &[FragmentShader]) -> (r:
        Option<Self>)
        ensures
            r is Some <==> shaders@.len() <= 8,
            r matches Some(command) ==> command@ == (RenderCommandView {
                effect: effect@,
                color,
                pattern_shaders: shaders@,
            }),
    {
        match shaders_from_slice(shaders) {
            Ok(pattern_shaders) => {
                assert(shader_list(pattern_shaders) == shaders@) by {
                    assert forall|i: int| 0 <= i < shaders@.len() implies shader_list(
                        pattern_shaders,
                    )[i] == shaders@[i] by {
                        assert(cloned(shaders@[i], shader_list(pattern_shaders)[i]));
                    }
                }
                Some(RenderCommand { effect, color, pattern_shaders })
            },
            Err(_) => None,
        }
    }

    /// Draws a still pattern in one colour, without filters.
    pub fn solid(pattern: LedPattern, colour: RGB8) -> (r: Self)
        ensures
            r@ == plain(pattern, colour),
    {
        let shaders: [FragmentShader; 0] = [];
        let command = RenderCommand::with_shaders(
            Pattern::Simple(pattern),
            ColorPalette::Solid(colour),
            shaders.as_slice(),
        );
        assert(shaders@ == Seq::<FragmentShader>::empty());
        command.unwrap()
    }
}

/// Whether a pattern lights an LED; the LEDs are counted from the lowest bit.
pub open spec fn lights(pattern: LedPattern, led: int) -> bool {
    (pattern as int / crate::float::two_to(led as nat) as int) % 2 == 1
}

/// How many of the nine LEDs a pattern lights.
pub open spec fn lit_count(pattern: LedPattern) -> int {
    let p = pattern as int;
    p % 2 + p / 2 % 2 + p / 4 % 2 + p / 8 % 2 + p / 16 % 2 + p / 32 % 2 + p / 64 % 2 + p / 128 % 2
        + p / 256 % 2
}

/// The content of a command holds its shape, its colours and its filters, and a still shape
/// or an animation holds its patterns and its speed.
pub proof fn law_commands_keep_their_content(
    command: RenderCommand,
    pattern: LedPattern,
    patterns: &'static [LedPattern],
    speed: F32,
)
    ensures
        command@.effect == command.effect@,
        command@.color == command.color,
        command@.pattern_shaders == shader_list(command.pattern_shaders),
        Pattern::Simple(pattern)@ matches PatternView::Simple(p) && p == pattern,
        Pattern::Animation(patterns, speed)@ matches PatternView::Animation(p, s) && p == patterns@
            && s == speed,
{
}

/// A plain command lights the LEDs of its pattern in its colour, and passes through no
/// filter.
pub proof fn law_plain_commands(pattern: LedPattern, colour: RGB8)
    ensures
        plain(pattern, colour).effect matches PatternView::Simple(p) && p == pattern,
        plain(pattern, colour).color matches ColorPalette::Solid(c) && c == colour,
        plain(pattern, colour).pattern_shaders.len() == 0,
{
}

} // verus!
