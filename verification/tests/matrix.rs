use antani_sw::color::RGB8;
use antani_sw::float::F32;
use antani_sw::framebuffer::{
    RawFramebuffer, LED_MATRIX_HEIGHT, LED_MATRIX_SIZE, LED_MATRIX_WIDTH,
};
use antani_sw::matrix::{LedMatrix, GAMMA_CORRECTION};
use antani_sw::power::OutputPower;

const BLACK: RGB8 = RGB8 { r: 0, g: 0, b: 0 };

fn single(x: f32) -> F32 {
    F32 { bits: x.to_bits() }
}

#[test]
fn new_framebuffer_shows_the_default() {
    let fb: RawFramebuffer<RGB8> = RawFramebuffer::new();
    assert_eq!(*fb.get_raw(), [BLACK; LED_MATRIX_SIZE]);
    let numbers: RawFramebuffer<u16> = RawFramebuffer::new();
    assert_eq!(*numbers.get_raw(), [0; 9]);
}

#[test]
fn default_framebuffer_shows_the_default() {
    let fb: RawFramebuffer<RGB8> = Default::default();
    assert_eq!(*fb.get_raw(), [BLACK; LED_MATRIX_SIZE]);
}

#[test]
fn pixels_are_read_back() {
    let mut fb: RawFramebuffer<u16> = RawFramebuffer::new();
    for y in 0..LED_MATRIX_HEIGHT {
        for x in 0..LED_MATRIX_WIDTH {
            fb.set_pixel(x, y, (10 * y + x + 1) as u16);
        }
    }
    for y in 0..LED_MATRIX_HEIGHT {
        for x in 0..LED_MATRIX_WIDTH {
            assert_eq!(fb.get_pixel(x, y), (10 * y + x + 1) as u16);
        }
    }
    assert_eq!(*fb.get_raw(), [1, 2, 3, 11, 12, 13, 21, 22, 23]);
}

#[test]
fn places_outside_of_the_matrix() {
    let mut fb: RawFramebuffer<u16> = RawFramebuffer::new();
    fb.set_all(7);
    fb.set_pixel(3, 0, 1);
    fb.set_pixel(0, 3, 1);
    fb.set_pixel(usize::MAX, usize::MAX, 1);
    assert_eq!(*fb.get_raw(), [7; 9]);
    assert_eq!(fb.get_pixel(3, 0), 0);
    assert_eq!(fb.get_pixel(0, 3), 0);
    assert_eq!(fb.get_pixel(usize::MAX, 1), 0);
    assert_eq!(fb.get_pixel(2, 2), 7);
}

#[test]
fn gamma_table() {
    assert_eq!(GAMMA_CORRECTION.len(), 256);
    assert_eq!(GAMMA_CORRECTION[0], 0);
    assert_eq!(GAMMA_CORRECTION[28], 1);
    assert_eq!(GAMMA_CORRECTION[128], 37);
    assert_eq!(GAMMA_CORRECTION[255], 255);
    for i in 1..256 {
        assert!(GAMMA_CORRECTION[i - 1] <= GAMMA_CORRECTION[i]);
        assert!(GAMMA_CORRECTION[i] as usize <= i);
    }
}

#[test]
fn new_matrix_is_dark_at_full_gain() {
    let mut m = LedMatrix::new();
    assert_eq!(m.corrected_gain, single(1.0));
    assert_eq!(m.raw_gain, single(1.0));
    assert_eq!(*m.get_gamma_corrected(), [BLACK; 9]);
}

#[test]
fn output_agrees_with_floating_point() {
    for corrected in [1.0f32, 0.7, 0.5, 0.25] {
        for raw in [1.0f32, 0.0, 0.041, 0.333, 0.51, 0.976] {
            let mut m = LedMatrix::new();
            m.set_gain(single(corrected));
            m.set_raw_gain(single(raw));
            for value in 0..=255u8 {
                let colour = RGB8 { r: value, g: 255 - value, b: value ^ 0x5a };
                m.set_pixel((value % 3) as usize, 1, colour);
                let drive = |c: u8| {
                    let dimmed = (c as f32 * corrected) as u8;
                    (GAMMA_CORRECTION[dimmed as usize] as f32 * raw) as u8
                };
                let output = *m.get_gamma_corrected();
                assert_eq!(
                    output[3 + (value % 3) as usize],
                    RGB8 { r: drive(colour.r), g: drive(colour.g), b: drive(colour.b) }
                );
                assert_eq!(output[0], BLACK);
                assert_eq!(m.get_pixel((value % 3) as usize, 1), colour);
            }
        }
    }
}

#[test]
fn exact_output() {
    let mut m = LedMatrix::new();
    m.set_all(RGB8 { r: 255, g: 128, b: 10 });
    assert_eq!(*m.get_gamma_corrected(), [RGB8 { r: 255, g: 37, b: 0 }; 9]);
    m.set_gain(OutputPower::Medium.gain());
    assert_eq!(m.get_gamma_corrected()[0], RGB8 { r: 93, g: 13, b: 0 });
    m.set_raw_gain(single(0.5));
    assert_eq!(m.get_gamma_corrected()[8], RGB8 { r: 46, g: 6, b: 0 });
    m.set_raw_gain(single(0.0));
    assert_eq!(*m.get_gamma_corrected(), [BLACK; 9]);
}

#[test]
fn clear_turns_black() {
    let mut m = LedMatrix::new();
    m.set_all((1, 2, 3).into());
    assert_eq!(m.get_pixel(2, 2), RGB8 { r: 1, g: 2, b: 3 });
    assert_eq!(m.get_pixel(3, 2), BLACK);
    m.clear();
    assert_eq!(*m.raw_framebuffer.get_raw(), [BLACK; 9]);
}

#[test]
fn brightness_steps() {
    let all = [OutputPower::High, OutputPower::Medium, OutputPower::Low, OutputPower::NighMode];
    assert_eq!(OutputPower::High.increase(), OutputPower::NighMode);
    assert_eq!(OutputPower::NighMode.decrease(), OutputPower::High);
    for i in 0..4 {
        assert_eq!(all[i].decrease(), all[(i + 1) % 4]);
        assert_eq!(all[i].decrease().increase(), all[i]);
        assert_eq!(all[i].increase().decrease(), all[i]);
        assert_eq!(all[i].increase().increase().increase().increase(), all[i]);
    }
    assert_eq!(OutputPower::High.gain(), single(1.0));
    assert_eq!(OutputPower::Medium.gain(), single(0.7));
    assert_eq!(OutputPower::Low.gain(), single(0.5));
    assert_eq!(OutputPower::NighMode.gain(), single(0.25));
}
