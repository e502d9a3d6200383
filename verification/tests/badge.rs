use antani_sw::badge::{greeting, infrared_command, Badge, Frame};
use antani_sw::color::RGB8;
use antani_sw::command::{Replies, TaskCommand, WorkingMode};
use antani_sw::double::F64;
use antani_sw::effects::{ColorPalette, FragmentShader, LedPattern, Pattern, RenderCommand};
use antani_sw::float::F32;
use antani_sw::framebuffer::RawFramebuffer;
use antani_sw::power::OutputPower;
use antani_sw::scenes::{boot_animation, patterns, scenes};

const BLACK: RGB8 = RGB8 { r: 0, g: 0, b: 0 };
const RED: RGB8 = RGB8 { r: 255, g: 0, b: 0 };
const WHITE: RGB8 = RGB8 { r: 255, g: 255, b: 255 };

const START: F64 = F64 { bits: 0 };

/// A moment, in seconds.
fn at(seconds: f64) -> F64 {
    F64 { bits: seconds.to_bits() }
}

fn is_plain(command: &RenderCommand, pattern: LedPattern, colour: RGB8) -> bool {
    matches!(command.effect, Pattern::Simple(p) if p == pattern)
        && command.color == ColorPalette::Solid(colour)
        && command.pattern_shaders.is_empty()
}

fn is_greeting(command: &RenderCommand) -> bool {
    let animation = match command.effect {
        Pattern::Animation(frames, speed) => {
            frames == patterns().boot_animation && speed.bits == 20.0f32.to_bits()
        }
        Pattern::Simple(_) => false,
    };
    animation
        && command.color == ColorPalette::Rainbow(F32 { bits: 1.0f32.to_bits() })
        && command.pattern_shaders.len() == 1
        && command.pattern_shaders[0]
            == FragmentShader::LowPassWithPeak(F32 { bits: 50.0f32.to_bits() })
}

/// A badge that shows the selected scene.
fn normal_badge() -> Badge {
    let mut badge = Badge::new();
    badge.working_mode = WorkingMode::Normal;
    badge
}

#[test]
fn the_stock_of_patterns() {
    let p = patterns();
    assert_eq!(p.power_100, 511);
    assert_eq!(p.power_75.count_ones(), 6);
    assert_eq!(p.power_50.count_ones(), 3);
    assert_eq!(p.power_25.count_ones(), 1);
    let faces = [p.dado1, p.dado2, p.dado3, p.dado4, p.dado5, p.dado6];
    for i in 0..6 {
        assert_eq!(faces[i].count_ones(), i as u32 + 1);
    }
    assert_eq!(p.all_on, 511);
    assert_eq!(p.vertical_stripe_1 | p.vertical_stripe_2 | p.vertical_stripe_3, p.all_on);
    assert_eq!(p.vertical_stripe_1, 0b100100100);
    let mut seen = 0;
    for pattern in p.everything_once {
        assert_eq!(pattern.count_ones(), 1);
        assert_eq!(seen & pattern, 0);
        seen |= pattern;
    }
    assert_eq!(seen, p.all_on);
    assert_eq!(p.boot_animation, &[128, 144, 504, 63, 7, 2, 0, 0, 0, 0]);
}

#[test]
fn the_scenes() {
    let p = patterns();
    let faces = [p.dado1, p.dado2, p.dado3, p.dado4, p.dado5, p.dado6];
    let all = scenes();
    assert_eq!(all.len(), 6);
    for i in 0..6 {
        assert_eq!(all[i].len(), 1);
        assert!(is_plain(&all[i][0], faces[i], RED));
    }
}

#[test]
fn the_boot_animation() {
    assert!(is_greeting(&boot_animation()));
    assert!(is_greeting(&boot_animation().clone()));
}

#[test]
fn commands_have_room_for_eight_shaders() {
    let shader = FragmentShader::LowPassWithPeak(F32 { bits: 0 });
    let eight = RenderCommand::with_shaders(
        Pattern::Simple(5),
        ColorPalette::Solid(RED),
        &[shader; 8],
    );
    assert_eq!(eight.unwrap().pattern_shaders.len(), 8);
    let nine = RenderCommand::with_shaders(
        Pattern::Simple(5),
        ColorPalette::Solid(RED),
        &[shader; 9],
    );
    assert!(nine.is_none());
}

#[test]
fn power_up() {
    let badge = Badge::new();
    assert!(matches!(&badge.working_mode,
        WorkingMode::SpecialTimeout(command, end) if is_greeting(command) && *end == at(0.5)));
    assert_eq!(badge.scene_id, 0);
    assert_eq!(badge.out_power, OutputPower::High);
    assert!(!badge.is_transmitting);
    assert_eq!(badge.timer_offset, 0);
    assert_eq!(*badge.midi_framebuffer.get_raw(), [BLACK; 9]);
    assert!(matches!(badge.frame(), Frame::Command(command) if is_greeting(command)));
    assert!(matches!(greeting(), TaskCommand::SendIr(0, 66, false)));
}

#[test]
fn the_greeting_ends_after_half_a_second() {
    let mut badge = Badge::new();
    badge.finish_frame(START);
    badge.finish_frame(at(0.5));
    assert!(matches!(badge.working_mode, WorkingMode::SpecialTimeout(_, _)));
    badge.finish_frame(at(0.500001));
    assert!(matches!(badge.working_mode, WorkingMode::Normal));
    match badge.frame() {
        Frame::Scene(commands) => assert!(is_plain(&commands[0], 0b000010000, RED)),
        _ => panic!(),
    }
}

#[test]
fn the_torch_stays_on_until_the_button_is_pressed() {
    let mut badge = Badge::new();
    badge.out_power = OutputPower::Low;
    badge.torch();
    assert_eq!(badge.out_power, OutputPower::High);
    badge.finish_frame(at(1_000_000.0));
    assert!(matches!(badge.frame(), Frame::Command(c) if is_plain(c, 0b111111111, WHITE)));
    let handled = badge.handle(TaskCommand::ShortButtonPress, START, 0);
    assert!(matches!(handled.replies, Replies::One(TaskCommand::NextPattern)));
    badge.handle(TaskCommand::NextPattern, START, 0);
    assert!(matches!(badge.working_mode, WorkingMode::Normal));
    assert_eq!(badge.scene_id, 0);
}

#[test]
fn the_clock_and_the_gain_of_a_frame() {
    let mut badge = normal_badge();
    assert_eq!(badge.begin_frame(123), at(0.000123));
    assert_eq!(badge.mtrx.corrected_gain.bits, 1.0f32.to_bits());
    badge.handle(TaskCommand::ResetTime, at(0.000123), 130);
    assert_eq!(badge.timer_offset, 130);
    assert_eq!(badge.begin_frame(230), at(0.00023 - 0.00013));
    assert_eq!(badge.begin_frame(130), START);
    assert_eq!(badge.begin_frame(100), at(0.0001 - 0.00013));
    badge.handle(TaskCommand::DecreaseBrightness, START, 0);
    assert_eq!(badge.mtrx.corrected_gain.bits, 1.0f32.to_bits());
    badge.begin_frame(231);
    assert_eq!(badge.mtrx.corrected_gain.bits, 0.7f32.to_bits());
}

#[test]
fn patterns_go_round() {
    let mut badge = normal_badge();
    for i in 1..=13 {
        let handled = badge.handle(TaskCommand::NextPattern, START, 0);
        assert!(!handled.skip_frame);
        assert!(matches!(handled.replies, Replies::Nothing));
        assert_eq!(badge.scene_id, i % 6);
    }
}

#[test]
fn throttling_sets_the_raw_gain() {
    let mut badge = normal_badge();
    let gain = F32 { bits: 0.5f32.to_bits() };
    badge.handle(TaskCommand::ThermalThrottleMultiplier(gain), START, 0);
    assert_eq!(badge.mtrx.raw_gain, gain);
    assert_eq!(badge.mtrx.corrected_gain.bits, 1.0f32.to_bits());
}

#[test]
fn the_remote_control() {
    assert!(matches!(
        infrared_command(0, 70, false),
        Replies::One(TaskCommand::DecreaseBrightness)
    ));
    assert!(matches!(
        infrared_command(0, 69, false),
        Replies::One(TaskCommand::IncreaseBrightness)
    ));
    assert!(matches!(infrared_command(0, 71, false), Replies::Nothing));
    assert!(matches!(infrared_command(0, 67, false), Replies::One(TaskCommand::ResetTime)));
    assert!(matches!(infrared_command(0, 68, false), Replies::One(TaskCommand::NextPattern)));
    for cmd in 66..=71u8 {
        assert!(matches!(infrared_command(0, cmd, true), Replies::Nothing));
        assert!(matches!(infrared_command(1, cmd, false), Replies::Nothing));
    }
    assert!(matches!(infrared_command(0, 65, false), Replies::Nothing));
}

#[test]
fn the_greeting_of_another_badge() {
    let mut badge = normal_badge();
    let handled = badge.handle(TaskCommand::IrCommand(0, 66, false), at(5.0), 0);
    match handled.replies {
        Replies::Two(first, second) => {
            assert!(matches!(first, TaskCommand::ResetTime));
            badge.handle(first, at(5.001), 5_001_500);
            badge.handle(second, at(0.0005), 5_002_000);
        }
        other => panic!("{:?}", other),
    }
    assert_eq!(badge.timer_offset, 5_001_500);
    assert!(matches!(&badge.working_mode,
        WorkingMode::SpecialTimeout(command, end) if is_greeting(command) && *end == at(0.5)));
}

#[test]
fn infrared_is_ignored_while_sending() {
    let mut badge = normal_badge();
    badge.handle(TaskCommand::SendIr(0, 66, false), START, 0);
    assert!(badge.is_transmitting);
    badge.handle(TaskCommand::NextPattern, START, 0);
    let handled = badge.handle(TaskCommand::IrCommand(0, 68, false), START, 0);
    assert!(handled.skip_frame);
    assert!(matches!(handled.replies, Replies::Nothing));
    badge.handle(TaskCommand::IrTxDone, START, 0);
    assert!(!badge.is_transmitting);
    let handled = badge.handle(TaskCommand::IrCommand(0, 68, false), START, 0);
    assert!(!handled.skip_frame);
    assert!(matches!(handled.replies, Replies::One(TaskCommand::NextPattern)));
    assert_eq!(badge.scene_id, 1);
}

#[test]
fn the_brightness_is_shown_for_a_second() {
    let mut badge = normal_badge();
    let steps = [
        (OutputPower::Medium, 0b000111111),
        (OutputPower::Low, 0b000000111),
        (OutputPower::NighMode, 0b000000001),
        (OutputPower::High, 0b111111111),
    ];
    for (power, pattern) in steps {
        let handled = badge.handle(TaskCommand::LongButtonPress, at(0.00004), 0);
        assert!(matches!(handled.replies, Replies::One(TaskCommand::DecreaseBrightness)));
        badge.handle(TaskCommand::DecreaseBrightness, at(0.00004), 0);
        assert_eq!(badge.out_power, power);
        assert!(matches!(badge.frame(), Frame::Command(c) if is_plain(c, pattern, WHITE)));
        badge.finish_frame(at(1.0 + 0.00004));
        assert!(matches!(badge.working_mode,
            WorkingMode::SpecialTimeout(_, end) if end == at(1.0 + 0.00004)));
        badge.finish_frame(at(1.000041));
        assert!(matches!(badge.working_mode, WorkingMode::Normal));
    }
    badge.handle(TaskCommand::IncreaseBrightness, START, 0);
    assert_eq!(badge.out_power, OutputPower::NighMode);
}

#[test]
fn pixel_messages_draw_a_picture() {
    let mut badge = normal_badge();
    badge.handle(TaskCommand::MidiSetPixel(1, 2, 0, 10), START, 0);
    badge.handle(TaskCommand::MidiSetPixel(1, 2, 1, 20), START, 0);
    badge.handle(TaskCommand::MidiSetPixel(1, 2, 2, 30), START, 0);
    badge.handle(TaskCommand::MidiSetPixel(0, 0, 3, 99), START, 0);
    badge.handle(TaskCommand::MidiSetPixel(3, 0, 0, 99), START, 0);
    let mut expected = [BLACK; 9];
    expected[7] = RGB8 { r: 10, g: 20, b: 30 };
    assert_eq!(*badge.midi_framebuffer.get_raw(), expected);
    assert!(matches!(badge.frame(), Frame::Picture));
    badge.finish_frame(at(9_999.999999));
    assert_eq!(*badge.mtrx.raw_framebuffer.get_raw(), expected);
    // a change of brightness leaves the picture
    badge.handle(TaskCommand::DecreaseBrightness, START, 0);
    assert_eq!(badge.out_power, OutputPower::Medium);
    assert!(matches!(badge.working_mode, WorkingMode::RawFramebuffer(_)));
    // the next pattern only ends the picture, which is still there afterwards
    badge.handle(TaskCommand::NextPattern, START, 0);
    assert!(matches!(badge.working_mode, WorkingMode::Normal));
    assert_eq!(badge.scene_id, 0);
    assert_eq!(*badge.midi_framebuffer.get_raw(), expected);
}

#[test]
fn a_mode_can_be_set() {
    let mut badge = normal_badge();
    let mut picture = RawFramebuffer::new();
    picture.set_all(RED);
    badge.handle(TaskCommand::SetWorkingMode(WorkingMode::RawFramebuffer(picture)), START, 0);
    badge.finish_frame(START);
    assert_eq!(*badge.mtrx.raw_framebuffer.get_raw(), [RED; 9]);
    assert_eq!(*badge.midi_framebuffer.get_raw(), [BLACK; 9]);
    badge.handle(TaskCommand::Nothing, START, 0);
    assert!(matches!(badge.frame(), Frame::Picture));
}

#[test]
fn seconds_are_rounded() {
    // 1.1 - 0.6 is a little more than a half
    let mut badge = Badge::new();
    badge.timer_offset = 600_000;
    let t = badge.begin_frame(1_100_000);
    assert_eq!(f64::from_bits(t.bits), 0.5000000000000001);
    badge.finish_frame(t);
    assert!(matches!(badge.working_mode, WorkingMode::Normal));
    // without an offset a half is a half
    let mut badge = Badge::new();
    let t = badge.begin_frame(500_000);
    assert_eq!(t, at(0.5));
    badge.finish_frame(t);
    assert!(matches!(badge.working_mode, WorkingMode::SpecialTimeout(_, _)));
}

#[test]
fn unusual_ends_of_an_override() {
    for (end, over) in [
        (f64::NAN, false),
        (f64::INFINITY, false),
        (f64::NEG_INFINITY, true),
        (-0.0, false),
        (-1.0, true),
    ] {
        let mut badge = normal_badge();
        let mode = WorkingMode::SpecialTimeout(boot_animation(), at(end));
        badge.handle(TaskCommand::SetWorkingMode(mode), START, 0);
        badge.finish_frame(START);
        assert_eq!(matches!(badge.working_mode, WorkingMode::Normal), over);
    }
}
