//! The patterns and scenes that the badge comes with.
use vstd::prelude::*;

use crate::color::RGB8;
use crate::effects::{
    ColorPalette, FragmentShader, LedPattern, Pattern, RenderCommand, RenderCommandView,
};
use crate::float::F32;

verus! {

/// The stock of patterns.
#[derive(Clone, Copy, Debug)]
pub struct Patterns {
    pub power_100: LedPattern,
    pub power_75: LedPattern,
    pub power_50: LedPattern,
    pub power_25: LedPattern,
    pub dado1: LedPattern,
    pub dado2: LedPattern,
    pub dado3: LedPattern,
    pub dado4: LedPattern,
    pub dado5: LedPattern,
    pub dado6: LedPattern,
    pub all_on: LedPattern,
    pub vertical_stripe_1: LedPattern,
    pub vertical_stripe_2: LedPattern,
    pub vertical_stripe_3: LedPattern,
    pub everything_once: &'static [LedPattern],
    pub boot_animation: &'static [LedPattern],
}

/// The frames of the boot animation.
pub open spec fn boot_frames() -> Seq<LedPattern> {
    seq![
        0b010000000,
        0b010010000,
        0b111111000,
        0b000111111,
        0b000000111,
        0b000000010,
        0b000000000,
        0b000000000,
        0b000000000,
        0b000000000,
    ]
}

/// The stock of patterns.
pub fn patterns() -> (p: Patterns)
    ensures
        p.power_100 == 0b111111111,
        p.power_75 == 0b000111111,
        p.power_50 == 0b000000111,
        p.power_25 == 0b000000001,
        p.dado1 == 0b000010000,
        p.dado2 == 0b001000100,
        p.dado3 == 0b001010100,
        p.dado4 == 0b101000101,
        p.dado5 == 0b101010101,
        p.dado6 == 0b101101101,
        p.all_on == 0b111111111,
        p.vertical_stripe_1 == 0b100100100,
        p.vertical_stripe_2 == 0b010010010,
        p.vertical_stripe_3 == 0b001001001,
        p.everything_once@ == seq![
            0b100000000u16,
            0b010000000u16,
            0b001000000u16,
            0b000100000u16,
            0b000010000u16,
            0b000001000u16,
            0b000000100u16,
            0b000000010u16,
            0b000000001u16,
        ],
        p.boot_animation@ == boot_frames(),
{
    Patterns {
        power_100: 0b111111111,
        power_75: 0b000111111,
        power_50: 0b000000111,
        power_25: 0b000000001,
        dado1: 0b000010000,
        dado2: 0b001000100,
        dado3: 0b001010100,
        dado4: 0b101000101,
        dado5: 0b101010101,
        dado6: 0b101101101,
        all_on: 0b111111111,
        vertical_stripe_1: 0b100100100,
        vertical_stripe_2: 0b010010010,
        vertical_stripe_3: 0b001001001,
        everything_once: &[
            0b100000000,
            0b010000000,
            0b001000000,
            0b000100000,
            0b000010000,
            0b000001000,
            0b000000100,
            0b000000010,
            0b000000001,
        ],
        boot_animation: &[
            0b010000000,
            0b010010000,
            0b111111000,
            0b000111111,
            0b000000111,
            0b000000010,
            0b000000000,
            0b000000000,
            0b000000000,
            0b000000000,
        ],
    }
}

/// The scenes that the user can select from, each of which is a list of commands that are
/// drawn one after the other.
pub type Scenes = heapless::Vec<heapless::Vec<RenderCommand, 8>, 20>;

/// The commands of a scene, in order.
pub uninterp spec fn command_list(v: heapless::Vec<RenderCommand, 8>) -> Seq<RenderCommand>;

/// The commands of each scene, in order.
pub uninterp spec fn scene_list(
    v: heapless::Vec<heapless::Vec<RenderCommand, 8>, 20>,
) -> Seq<Seq<RenderCommand>>;

/// `heapless::Vec::from_slice` on commands: it fails where the slice is longer than the
/// capacity, and otherwise holds a clone of each item in the slice's order.
#[verifier::external_body]
fn commands_from_slice(items: &[RenderCommand]) -> (r: Result<heapless::Vec<RenderCommand, 8>, ()>)
    ensures
        r is Ok <==> items@.len() <= 8,
        r matches Ok(v) ==> command_list(v).len() == items@.len(),
        r matches Ok(v) ==> forall|i: int|
            0 <= i < items@.len() ==> #[trigger] cloned(items@[i], command_list(v)[i]),
{
    heapless::Vec::from_slice(items)
}

/// `heapless::Vec::from_slice` on scenes: it fails where the slice is longer than the
/// capacity, and otherwise holds a clone of each scene in the slice's order. A clone of
/// a scene holds a clone of each of its commands.
#[verifier::external_body]
fn scenes_from_slice(items: &[heapless::Vec<RenderCommand, 8>]) -> (r: Result<
    heapless::Vec<heapless::Vec<RenderCommand, 8>, 20>,
    (),
>)
    ensures
        r is Ok <==> items@.len() <= 20,
        r matches Ok(v) ==> scene_list(v).len() == items@.len(),
        r matches Ok(v) ==> forall|i: int|
            0 <= i < items@.len() ==> #[trigger] scene_list(v)[i].len() == command_list(
                items@[i],
            ).len(),
        r matches Ok(v) ==> forall|i: int, j: int|
            0 <= i < items@.len() && 0 <= j < command_list(items@[i]).len() ==> #[trigger] cloned(
                command_list(items@[i])[j],
                scene_list(v)[i][j],
            ),
{
    heapless::Vec::from_slice(items)
}

/// `heapless::Vec::len` on scenes: how many there are.
#[verifier::external_body]
pub(crate) fn scene_count(
    scenes: &heapless::Vec<heapless::Vec<RenderCommand, 8>, 20>,
) -> (n: usize)
    ensures
        n == scene_list(*scenes).len(),
{
    scenes.len()
}

/// Indexing of a `heapless::Vec` of scenes, and `heapless::Vec::as_slice` on the scene:
/// the commands of one scene, in order.
#[verifier::external_body]
pub(crate) fn scene_commands(
    scenes: &heapless::Vec<heapless::Vec<RenderCommand, 8>, 20>,
    index: usize,
) -> (commands: &[RenderCommand])
    requires
        index < scene_list(*scenes).len(),
    ensures
        commands@ == scene_list(*scenes)[index as int],
{
    scenes[index].as_slice()
}

/// The content of commands in order.
pub open spec fn contents(commands: Seq<RenderCommand>) -> Seq<RenderCommandView> {
    commands.map_values(|c: RenderCommand| c@)
}

/// The content of each scene, in order.
pub open spec fn scene_contents(
    scenes: heapless::Vec<heapless::Vec<RenderCommand, 8>, 20>,
) -> Seq<Seq<RenderCommandView>> {
    scene_list(scenes).map_values(|s: Seq<RenderCommand>| contents(s))
}

/// The six faces of a die, in order.
pub open spec fn die_faces() -> Seq<LedPattern> {
    seq![
        0b000010000,
        0b001000100,
        0b001010100,
        0b101000101,
        0b101010101,
        0b101101101,
    ]
}

/// The scene that shows one pattern in red.
pub open spec fn red_scene(pattern: LedPattern) -> Seq<RenderCommandView> {
    seq![crate::effects::plain(pattern, RGB8 { r: 255, g: 0, b: 0 })]
}

/// The scene that shows one pattern in red.
fn make_red_scene(pattern: LedPattern) -> (s: heapless::Vec<RenderCommand, 8>)
    ensures
        contents(command_list(s)) == red_scene(pattern),
{
    let commands: [RenderCommand; 1] = [RenderCommand::solid(pattern, (255, 0, 0).into())];
    let scene = commands_from_slice(commands.as_slice()).unwrap();
    proof {
        assert(cloned(commands@[0], command_list(scene)[0]));
        assert(contents(command_list(scene)) =~= red_scene(pattern));
    }
    scene
}

/// The scenes that the user can select from: the faces of a die, in red.
pub fn scenes() -> (s: Scenes)
    ensures
        scene_contents(s) == die_faces().map_values(|p: LedPattern| red_scene(p)),
{
    let patterns = patterns();
    let all: [heapless::Vec<RenderCommand, 8>; 6] = [
        make_red_scene(patterns.dado1),
        make_red_scene(patterns.dado2),
        make_red_scene(patterns.dado3),
        make_red_scene(patterns.dado4),
        make_red_scene(patterns.dado5),
        make_red_scene(patterns.dado6),
    ];
    let s = scenes_from_slice(all.as_slice()).unwrap();
    proof {
        let expected = die_faces().map_values(|p: LedPattern| red_scene(p));
        assert forall|i: int| 0 <= i < 6 implies scene_contents(s)[i] == expected[i] by {
            assert(contents(command_list(all@[i])) == red_scene(die_faces()[i]));
            assert(scene_list(s)[i].len() == command_list(all@[i]).len());
            let commands = command_list(all@[i]);
            assert(contents(commands).len() == 1);
            assert(cloned(commands[0], scene_list(s)[i][0]));
            assert(contents(commands)[0] == commands[0]@);
            assert(contents(scene_list(s)[i]) =~= expected[i]);
        }
        assert(scene_contents(s) =~= expected);
    }
    s
}

/// The boot animation: its frames at twice their number for a speed, in rainbow colours,
/// through a low-pass filter.
pub open spec fn boot_command() -> RenderCommandView {
    RenderCommandView {
        effect: crate::effects::PatternView::Animation(
            boot_frames(),
            crate::float::ratio(2 * boot_frames().len(), 1),
        ),
        color: ColorPalette::Rainbow(crate::float::ratio(1, 1)),
        pattern_shaders: seq![FragmentShader::LowPassWithPeak(crate::float::ratio(50, 1))],
    }
}

/// The boot animation.
pub fn boot_animation() -> (command: RenderCommand)
    ensures
        command@ == boot_command(),
{
    let patterns = patterns();
    let speed = F32::from_ratio(2 * patterns.boot_animation.len() as u32, 1);
    let shaders: [FragmentShader; 1] = [FragmentShader::LowPassWithPeak(F32::from_ratio(50, 1))];
    let command = RenderCommand::with_shaders(
        Pattern::Animation(patterns.boot_animation, speed),
        ColorPalette::Rainbow(F32::from_ratio(1, 1)),
        shaders.as_slice(),
    );
    assert(shaders@ =~= boot_command().pattern_shaders);
    command.unwrap()
}

/// The content of the scenes holds each command of each scene in its place.
pub proof fn law_scenes_keep_their_commands(scenes: Scenes, i: int, j: int)
    requires
        0 <= i < scene_list(scenes).len(),
        0 <= j < scene_list(scenes)[i].len(),
    ensures
        scene_contents(scenes).len() == scene_list(scenes).len(),
        scene_contents(scenes)[i].len() == scene_list(scenes)[i].len(),
        scene_contents(scenes)[i][j] == scene_list(scenes)[i][j]@,
{
}

/// There are six faces of a die; each one lights one LED more than the one before, and is
/// drawn in red, alone and without filters.
pub proof fn law_faces_of_a_die(k: int)
    requires
        0 <= k < 6,
    ensures
        die_faces().len() == 6,
        die_faces()[k] < 512,
        crate::effects::lit_count(die_faces()[k]) == k + 1,
        red_scene(die_faces()[k]).len() == 1,
        red_scene(die_faces()[k])[0].effect == crate::effects::PatternView::Simple(
            die_faces()[k],
        ),
        red_scene(die_faces()[k])[0].color matches ColorPalette::Solid(c) && c.r == 255 && c.g == 0
            && c.b == 0,
        red_scene(die_faces()[k])[0].pattern_shaders.len() == 0,
{
}

/// Which LEDs the faces of a die light: every face looks the same upside down, the middle is
/// lit for odd numbers, two of the corners from two on, the other two from four on, and the
/// sides for six.
pub proof fn law_places_on_a_die(k: int, led: int)
    requires
        0 <= k < 6,
        0 <= led < 9,
    ensures
        crate::effects::lights(die_faces()[k], led) <==> (if led == 4 {
            k % 2 == 0
        } else if led == 2 || led == 6 {
            k >= 1
        } else if led == 0 || led == 8 {
            k >= 3
        } else if led == 3 || led == 5 {
            k >= 5
        } else {
            false
        }),
{
    let t = crate::float::two_to(led as nat) as int;
    assert(t == if led == 0 {
        1int
    } else if led == 1 {
        2
    } else if led == 2 {
        4
    } else if led == 3 {
        8
    } else if led == 4 {
        16
    } else if led == 5 {
        32
    } else if led == 6 {
        64
    } else if led == 7 {
        128
    } else {
        256
    }) by {
        reveal_with_fuel(crate::float::two_to, 9);
    }
    let face = die_faces()[k] as int;
    assert(face == if k == 0 {
        16int
    } else if k == 1 {
        68
    } else if k == 2 {
        84
    } else if k == 3 {
        325
    } else if k == 4 {
        341
    } else {
        365
    });
    if led == 0 {
        assert((face / 1) % 2 == 1 <==> k >= 3);
    } else if led == 1 {
        assert((face / 2) % 2 == 0);
    } else if led == 2 {
        assert((face / 4) % 2 == 1 <==> k >= 1);
    } else if led == 3 {
        assert((face / 8) % 2 == 1 <==> k >= 5);
    } else if led == 4 {
        assert((face / 16) % 2 == 1 <==> k % 2 == 0);
    } else if led == 5 {
        assert((face / 32) % 2 == 1 <==> k >= 5);
    } else if led == 6 {
        assert((face / 64) % 2 == 1 <==> k >= 1);
    } else if led == 7 {
        assert((face / 128) % 2 == 0);
    } else {
        assert((face / 256) % 2 == 1 <==> k >= 3);
    }
}

/// Different faces of a die make different scenes.
pub proof fn law_scenes_are_distinct(k: int, l: int)
    requires
        0 <= k < 6,
        0 <= l < 6,
        k != l,
    ensures
        red_scene(die_faces()[k]) != red_scene(die_faces()[l]),
{
    law_faces_of_a_die(k);
    law_faces_of_a_die(l);
    assert(red_scene(die_faces()[k])[0].effect != red_scene(die_faces()[l])[0].effect);
}

/// The boot animation runs at twice as many frames in a second as it has, in the colours of
/// a rainbow of speed one, through one filter of strength fifty.
pub proof fn law_boot_animation()
    ensures
        boot_command().effect matches crate::effects::PatternView::Animation(frames, speed)
            && frames.len() == 10 && speed.units() == 2 * frames.len() * crate::float::two_to(149)
            && !speed.negative(),
        boot_command().color matches ColorPalette::Rainbow(speed) && speed.units()
            == crate::float::two_to(149) && !speed.negative(),
        boot_command().pattern_shaders.len() == 1,
        boot_command().pattern_shaders[0] matches FragmentShader::LowPassWithPeak(strength)
            && strength.units() == 50 * crate::float::two_to(149) && !strength.negative(),
{
    crate::float::lemma_whole_ratio(1);
    crate::float::lemma_whole_ratio(20);
    crate::float::lemma_whole_ratio(50);
}

} // verus!
