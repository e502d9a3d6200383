//! The main task: it handles the messages of the other tasks, and decides what the
//! matrix shows.
use vstd::prelude::*;

use crate::color::RGB8;
use crate::command::{Replies, TaskCommand, TaskCommandView, WorkingMode, WorkingModeView};
use crate::double::F64;
use crate::effects::{LedPattern, RenderCommand, RenderCommandView};
use crate::float::F32;
use crate::framebuffer::RawFramebuffer;
use crate::matrix::LedMatrix;
use crate::power::OutputPower;
use crate::scenes::Scenes;

verus! {

/// The state of the main task.
pub struct Badge {
    /// What is drawn, and with which gains.
    pub mtrx: LedMatrix,
    /// The picture that is drawn pixel by pixel.
    pub midi_framebuffer: RawFramebuffer<RGB8>,
    pub working_mode: WorkingMode,
    /// The scenes to select from, and the selected one.
    pub scenes: Scenes,
    pub scene_id: usize,
    pub out_power: OutputPower,
    /// Whether the badge itself sends by infrared at the moment.
    pub is_transmitting: bool,
    /// The moment that counts as zero, in microseconds since power-up.
    pub timer_offset: u64,
}

/// What has to be drawn.
pub enum Frame<'a> {
    /// The commands of a scene, one after the other.
    Scene(&'a [RenderCommand]),
    /// A single command.
    Command(&'a RenderCommand),
    /// Nothing: the picture is there already.
    Picture,
}

impl<'a> View for Frame<'a> {
    type V = Option<Seq<RenderCommandView>>;

    open spec fn view(&self) -> Option<Seq<RenderCommandView>> {
        match *self {
            Frame::Scene(commands) => Some(crate::scenes::contents(commands@)),
            Frame::Command(command) => Some(seq![command@]),
            Frame::Picture => None,
        }
    }
}

/// What became of a message.
pub struct Handled {
    /// The messages to send.
    pub replies: Replies,
    /// Whether the rest of the frame is left out.
    pub skip_frame: bool,
}

/// White at full brightness.
pub open spec fn white() -> RGB8 {
    RGB8 { r: 255, g: 255, b: 255 }
}

/// The pattern that tells the user of the brightness step.
pub open spec fn power_pattern(power: OutputPower) -> LedPattern {
    match power {
        OutputPower::High => 0b111111111,
        OutputPower::Medium => 0b000111111,
        OutputPower::Low => 0b000000111,
        OutputPower::NighMode => 0b000000001,
    }
}

/// The mode that greets: the boot animation up to half a second.
pub open spec fn greeting_mode() -> WorkingModeView {
    WorkingModeView::SpecialTimeout(
        crate::scenes::boot_command(),
        crate::double::quotient(1, 2),
    )
}

/// The mode of a torch light: everything white, until the user presses the button.
pub open spec fn torch_mode() -> WorkingModeView {
    WorkingModeView::Special(crate::effects::plain(0b111111111, white()))
}

/// What a button of the remote control, or the greeting of another badge, asks for.
pub open spec fn infrared_replies(addr: u8, cmd: u8, repeat: bool) -> Seq<TaskCommandView> {
    if addr != 0 || repeat {
        Seq::empty()
    } else if cmd == 70 {
        seq![TaskCommandView::DecreaseBrightness]
    } else if cmd == 69 {
        seq![TaskCommandView::IncreaseBrightness]
    } else if cmd == 67 {
        seq![TaskCommandView::ResetTime]
    } else if cmd == 68 {
        seq![TaskCommandView::NextPattern]
    } else if cmd == 66 {
        seq![TaskCommandView::ResetTime, TaskCommandView::SetWorkingMode(greeting_mode())]
    } else {
        Seq::empty()
    }
}

/// Whether a message is dropped: what the infrared receiver gets while the badge sends
/// may come from the badge itself.
pub open spec fn dropped(message: TaskCommandView, is_transmitting: bool) -> bool {
    message is IrCommand && is_transmitting
}

/// The messages that a message leads to.
pub open spec fn replies_to(message: TaskCommandView, is_transmitting: bool) -> Seq<
    TaskCommandView,
> {
    match message {
        TaskCommandView::IrCommand(addr, cmd, repeat) => if is_transmitting {
            Seq::empty()
        } else {
            infrared_replies(addr, cmd, repeat)
        },
        TaskCommandView::ShortButtonPress => seq![TaskCommandView::NextPattern],
        TaskCommandView::LongButtonPress => seq![TaskCommandView::DecreaseBrightness],
        _ => Seq::empty(),
    }
}

/// The brightness step after a message.
pub open spec fn power_after(power: OutputPower, message: TaskCommandView) -> OutputPower {
    match message {
        TaskCommandView::IncreaseBrightness => power.increased(),
        TaskCommandView::DecreaseBrightness => power.decreased(),
        _ => power,
    }
}

/// The selected one of `count` scenes after a message: the first one follows the last.
pub open spec fn scene_after(
    scene_id: int,
    count: int,
    mode: WorkingModeView,
    message: TaskCommandView,
) -> int {
    if message is NextPattern && mode is Normal {
        if scene_id + 1 < count {
            scene_id + 1
        } else {
            0
        }
    } else {
        scene_id
    }
}

/// A colour with one of its channels replaced.
pub open spec fn with_channel(colour: RGB8, channel: u8, value: u8) -> RGB8 {
    match channel {
        0 => RGB8 { r: value, ..colour },
        1 => RGB8 { g: value, ..colour },
        2 => RGB8 { b: value, ..colour },
        _ => colour,
    }
}

/// A picture with one channel of one LED replaced.
pub open spec fn with_midi_pixel(
    picture: Seq<RGB8>,
    x: u8,
    y: u8,
    channel: u8,
    value: u8,
) -> Seq<RGB8> {
    crate::framebuffer::with_pixel(
        picture,
        x as int,
        y as int,
        with_channel(
            picture[crate::framebuffer::position(x as int, y as int)],
            channel,
            value,
        ),
    )
}

/// The pixel-by-pixel picture after a message.
pub open spec fn midi_after(picture: Seq<RGB8>, message: TaskCommandView) -> Seq<RGB8> {
    match message {
        TaskCommandView::MidiSetPixel(x, y, channel, value) => {
            with_midi_pixel(picture, x, y, channel, value)
        },
        _ => picture,
    }
}

/// What the matrix shows after a message at the moment `t`, given the brightness step
/// and the pixel-by-pixel picture before it.
pub open spec fn mode_after(
    mode: WorkingModeView,
    power: OutputPower,
    picture: Seq<RGB8>,
    message: TaskCommandView,
    t: F64,
) -> WorkingModeView {
    match message {
        TaskCommandView::MidiSetPixel(..) => {
            WorkingModeView::RawFramebuffer(midi_after(picture, message))
        },
        TaskCommandView::NextPattern => WorkingModeView::Normal,
        TaskCommandView::IncreaseBrightness | TaskCommandView::DecreaseBrightness => {
            if mode is RawFramebuffer {
                mode
            } else {
                WorkingModeView::SpecialTimeout(
                    crate::effects::plain(power_pattern(power_after(power, message)), white()),
                    crate::double::sum_of(t, crate::double::quotient(1, 1)),
                )
            }
        },
        TaskCommandView::SetWorkingMode(new_mode) => new_mode,
        _ => mode,
    }
}

/// Whether the badge sends by infrared after a message.
pub open spec fn transmitting_after(is_transmitting: bool, message: TaskCommandView) -> bool {
    match message {
        TaskCommandView::SendIr(..) => true,
        TaskCommandView::IrTxDone => false,
        _ => is_transmitting,
    }
}

/// The moment that counts as zero after a message that is handled at `now`.
pub open spec fn offset_after(offset: u64, message: TaskCommandView, now: u64) -> u64 {
    match message {
        TaskCommandView::ResetTime => now,
        _ => offset,
    }
}

/// The throttle multiplier after a message.
pub open spec fn throttle_after(multiplier: F32, message: TaskCommandView) -> F32 {
    match message {
        TaskCommandView::ThermalThrottleMultiplier(gain) => gain,
        _ => multiplier,
    }
}

/// The picture on the matrix once a frame of a mode has been drawn.
pub open spec fn picture_after_frame(mode: WorkingModeView, drawn: Seq<RGB8>) -> Seq<RGB8> {
    match mode {
        WorkingModeView::RawFramebuffer(picture) => picture,
        _ => drawn,
    }
}

/// What the matrix shows once the moment `t` has been drawn.
pub open spec fn mode_after_frame(mode: WorkingModeView, t: F64) -> WorkingModeView {
    match mode {
        WorkingModeView::SpecialTimeout(_, timeout) if t.exceeds(timeout) => WorkingModeView::Normal,
        _ => mode,
    }
}

impl Badge {
    /// Whether the selected scene is one of those that there are.
    pub open spec fn wf(self) -> bool {
        self.scene_id < crate::scenes::scene_list(self.scenes).len()
    }

    /// The commands that the next frame has to draw, if any.
    pub open spec fn drawn(self) -> Option<Seq<RenderCommandView>> {
        match self.working_mode@ {
            WorkingModeView::Normal => Some(
                crate::scenes::scene_contents(self.scenes)[self.scene_id as int],
            ),
            WorkingModeView::Special(command) => Some(seq![command]),
            WorkingModeView::SpecialTimeout(command, _) => Some(seq![command]),
            WorkingModeView::RawFramebuffer(_) => None,
        }
    }

    /// The badge right after power-up: it greets, at full brightness.
    pub fn new() -> (badge: Self)
        ensures
            badge.wf(),
            badge.mtrx.raw_framebuffer@ == crate::framebuffer::uniform(crate::color::black()),
            badge.mtrx.gamma_corrected_framebuffer@ == crate::framebuffer::uniform(
                crate::color::black(),
            ),
            badge.mtrx.corrected_gain == crate::float::ratio(1, 1),
            badge.mtrx.raw_gain == crate::float::ratio(1, 1),
            badge.midi_framebuffer@ == crate::framebuffer::uniform(crate::color::black()),
            badge.working_mode@ == greeting_mode(),
            crate::scenes::scene_contents(badge.scenes) == crate::scenes::die_faces().map_values(
                |p: LedPattern| crate::scenes::red_scene(p),
            ),
            badge.scene_id == 0,
            badge.out_power == OutputPower::High,
            !badge.is_transmitting,
            badge.timer_offset == 0,
    {
        let badge = Badge {
            mtrx: LedMatrix::new(),
            midi_framebuffer: RawFramebuffer::new(),
            working_mode: WorkingMode::SpecialTimeout(
                crate::scenes::boot_animation(),
                F64::half_a_second(),
            ),
            scenes: crate::scenes::scenes(),
            scene_id: 0,
            out_power: OutputPower::High,
            is_transmitting: false,
            timer_offset: 0,
        };
        assert(crate::scenes::scene_contents(badge.scenes).len() == 6);
        badge
    }

    /// Turns the badge into a torch light, for when it is powered up with the button
    /// pressed.
    pub fn torch(&mut self)
        ensures
            final(self).working_mode@ == torch_mode(),
            *final(self) == (Badge {
                working_mode: final(self).working_mode,
                out_power: OutputPower::High,
                ..*old(self)
            }),
    {
        self.out_power = OutputPower::High;
        let patterns = crate::scenes::patterns();
        self.working_mode = WorkingMode::Special(
            RenderCommand::solid(patterns.all_on, (255, 255, 255).into()),
        );
    }

    /// Begins a frame at `now` microseconds since power-up: the brightness step sets the
    /// gain, and the moment that the frame shows is handed out, in seconds.
    pub fn begin_frame(&mut self, now: u64) -> (t: F64)
        ensures
            t == crate::double::time_between(old(self).timer_offset, now),
            t.is_time(),
            *final(self) == (Badge {
                mtrx: LedMatrix {
                    corrected_gain: old(self).out_power.gain_value(),
                    ..old(self).mtrx
                },
                ..*old(self)
            }),
    {
        let gain = self.out_power.gain();
        self.mtrx.set_gain(gain);
        F64::between(self.timer_offset, now)
    }

    /// Handles a message in the frame of the moment `t`; `now` is what the clock says
    /// while it is handled, in microseconds since power-up.
    pub fn handle(&mut self, message: TaskCommand, t: F64, now: u64) -> (handled: Handled)
        requires
            old(self).wf(),
            t.is_time(),
        ensures
            final(self).wf(),
            handled.replies@ == replies_to(message@, old(self).is_transmitting),
            handled.skip_frame == dropped(message@, old(self).is_transmitting),
            final(self).mtrx == (LedMatrix {
                raw_gain: match message@ {
                    TaskCommandView::ThermalThrottleMultiplier(gain) => gain,
                    _ => old(self).mtrx.raw_gain,
                },
                ..old(self).mtrx
            }),
            final(self).midi_framebuffer@ == midi_after(old(self).midi_framebuffer@, message@),
            final(self).working_mode@ == mode_after(
                old(self).working_mode@,
                old(self).out_power,
                old(self).midi_framebuffer@,
                message@,
                t,
            ),
            final(self).scenes == old(self).scenes,
            final(self).scene_id == scene_after(
                old(self).scene_id as int,
                crate::scenes::scene_list(old(self).scenes).len() as int,
                old(self).working_mode@,
                message@,
            ),
            final(self).out_power == power_after(old(self).out_power, message@),
            final(self).is_transmitting == transmitting_after(
                old(self).is_transmitting,
                message@,
            ),
            final(self).timer_offset == if message@ is ResetTime {
                now
            } else {
                old(self).timer_offset
            },
            final(self).timer_offset == offset_after(old(self).timer_offset, message@, now),
            final(self).mtrx.raw_gain == throttle_after(old(self).mtrx.raw_gain, message@),
            message@ is IncreaseBrightness ==> final(self).out_power
                == old(self).out_power.increased(),
            message@ is DecreaseBrightness ==> final(self).out_power
                == old(self).out_power.decreased(),
            message@ matches TaskCommandView::MidiSetPixel(x, y, channel, value) ==> {
                &&& final(self).working_mode matches WorkingMode::RawFramebuffer(shown) && shown@
                    == final(self).midi_framebuffer@
                &&& forall|i: int|
                    0 <= i < 9 ==> #[trigger] final(self).midi_framebuffer.framebuffer@[i] == if x
                        < 3 && y < 3 && i == 3 * y + x {
                        with_channel(old(self).midi_framebuffer.framebuffer@[i], channel, value)
                    } else {
                        old(self).midi_framebuffer.framebuffer@[i]
                    }
            },
            message@ matches TaskCommandView::SetWorkingMode(mode) ==> final(self).working_mode@
                == mode,
            message@ is NextPattern ==> final(self).working_mode is Normal,
            message@ is SendIr ==> final(self).is_transmitting,
            message@ is IrTxDone ==> !final(self).is_transmitting,
    {
        let mut replies = Replies::Nothing;
        match message {
            TaskCommand::ThermalThrottleMultiplier(gain) => {
                self.mtrx.set_raw_gain(gain);
            },
            TaskCommand::IrCommand(addr, cmd, repeat) => {
                if self.is_transmitting {
                    return Handled { replies, skip_frame: true };
                }
                replies = infrared_command(addr, cmd, repeat);
            },
            TaskCommand::ShortButtonPress => {
                replies = Replies::One(TaskCommand::NextPattern);
            },
            TaskCommand::LongButtonPress => {
                replies = Replies::One(TaskCommand::DecreaseBrightness);
            },
            TaskCommand::MidiSetPixel(x, y, channel, value) => {
                let px: RGB8 = self.midi_framebuffer.get_pixel(x as usize, y as usize);

                let rgb: RGB8 = match channel {
                    0 => (value, px.g, px.b).into(),
                    1 => (px.r, value, px.b).into(),
                    2 => (px.r, px.g, value).into(),
                    _ => px,
                };

                self.midi_framebuffer.set_pixel(x as usize, y as usize, rgb);

                self.working_mode = WorkingMode::RawFramebuffer(self.midi_framebuffer);
            },
            TaskCommand::SendIr(_, _, _) => {
                self.is_transmitting = true;
            },
            TaskCommand::IrTxDone => {
                self.is_transmitting = false;
            },
            TaskCommand::NextPattern => {
                if let WorkingMode::Normal = self.working_mode {
                    let count: usize = crate::scenes::scene_count(&self.scenes);
                    proof {
                        if self.scene_id + 1 < count {
                            vstd::arithmetic::div_mod::lemma_small_mod(
                                (self.scene_id + 1) as nat,
                                count as nat,
                            );
                        } else {
                            vstd::arithmetic::div_mod::lemma_mod_self_0(count as int);
                        }
                    }
                    self.scene_id = (self.scene_id + 1) % count;
                } else {
                    self.working_mode = WorkingMode::Normal;
                }
            },
            TaskCommand::IncreaseBrightness => {
                self.out_power = self.out_power.increase();
                self.show_power(t);
            },
            TaskCommand::DecreaseBrightness => {
                self.out_power = self.out_power.decrease();
                self.show_power(t);
            },
            TaskCommand::SetWorkingMode(mode) => {
                self.working_mode = mode;
            },
            TaskCommand::ResetTime => {
                self.timer_offset = now;
            },
            TaskCommand::Nothing => {},
        }
        Handled { replies, skip_frame: false }
    }

    /// Tells the user of the brightness step for a second, unless the matrix shows a
    /// picture.
    fn show_power(&mut self, t: F64)
        requires
            t.is_time(),
        ensures
            final(self).working_mode@ == if old(self).working_mode@ is RawFramebuffer {
                old(self).working_mode@
            } else {
                WorkingModeView::SpecialTimeout(
                    crate::effects::plain(power_pattern(old(self).out_power), white()),
                    crate::double::sum_of(t, crate::double::quotient(1, 1)),
                )
            },
            *final(self) == (Badge { working_mode: final(self).working_mode, ..*old(self) }),
    {
        let patterns = crate::scenes::patterns();
        let patt: LedPattern = match self.out_power {
            OutputPower::High => patterns.power_100,
            OutputPower::Medium => patterns.power_75,
            OutputPower::Low => patterns.power_50,
            OutputPower::NighMode => patterns.power_25,
        };

        // do not ruin the midi framebuffer
        if let WorkingMode::RawFramebuffer(_) = self.working_mode {
        } else {
            self.working_mode = WorkingMode::SpecialTimeout(
                RenderCommand::solid(patt, (255, 255, 255).into()),
                t.one_second_later(),
            );
        }
    }

    /// What the frame has to draw.
    pub fn frame(&self) -> (frame: Frame<'_>)
        requires
            self.wf(),
        ensures
            frame@ == self.drawn(),
            match self.working_mode {
                WorkingMode::Normal => frame matches Frame::Scene(commands) && commands@
                    == crate::scenes::scene_list(self.scenes)[self.scene_id as int],
                WorkingMode::Special(command) => frame matches Frame::Command(drawn) && *drawn
                    == command,
                WorkingMode::SpecialTimeout(command, _) => frame matches Frame::Command(drawn)
                    && *drawn == command,
                WorkingMode::RawFramebuffer(_) => frame is Picture,
            },
    {
        match &self.working_mode {
            WorkingMode::Normal => {
                Frame::Scene(crate::scenes::scene_commands(&self.scenes, self.scene_id))
            },
            WorkingMode::SpecialTimeout(command, _) => Frame::Command(command),
            WorkingMode::Special(command) => Frame::Command(command),
            WorkingMode::RawFramebuffer(_) => Frame::Picture,
        }
    }

    /// Ends the drawing of the moment `t`: a picture is put on the matrix, and an override
    /// whose time is over gives way to the selected scene.
    pub fn finish_frame(&mut self, t: F64)
        ensures
            final(self).working_mode@ == mode_after_frame(old(self).working_mode@, t),
            final(self).mtrx.raw_framebuffer@ == match old(self).working_mode@ {
                WorkingModeView::RawFramebuffer(picture) => picture,
                _ => old(self).mtrx.raw_framebuffer@,
            },
            final(self).mtrx.raw_framebuffer@ == picture_after_frame(
                old(self).working_mode@,
                old(self).mtrx.raw_framebuffer@,
            ),
            *final(self) == (Badge {
                working_mode: final(self).working_mode,
                mtrx: LedMatrix {
                    raw_framebuffer: final(self).mtrx.raw_framebuffer,
                    ..old(self).mtrx
                },
                ..*old(self)
            }),
    {
        match &self.working_mode {
            WorkingMode::SpecialTimeout(_, timeout) => {
                if t.is_greater(*timeout) {
                    self.working_mode = WorkingMode::Normal;
                }
            },
            WorkingMode::RawFramebuffer(picture) => {
                self.mtrx.raw_framebuffer = *picture;
            },
            WorkingMode::Normal => {},
            WorkingMode::Special(_) => {},
        }
    }
}

/// What a button of the remote control, or the greeting of another badge, asks for.
pub fn infrared_command(addr: u8, cmd: u8, repeat: bool) -> (replies: Replies)
    ensures
        replies@ == infrared_replies(addr, cmd, repeat),
{
    match (addr, cmd, repeat) {
        (0, 70, false) => Replies::One(TaskCommand::DecreaseBrightness),
        (0, 69, false) => Replies::One(TaskCommand::IncreaseBrightness),
        (0, 67, false) => {
            // this is used to sync clocks between multiple devices
            Replies::One(TaskCommand::ResetTime)
        },
        (0, 68, false) => Replies::One(TaskCommand::NextPattern),
        (0, 66, false) => {
            // we do this so the animation starts in the correct time
            Replies::Two(
                TaskCommand::ResetTime,
                TaskCommand::SetWorkingMode(
                    WorkingMode::SpecialTimeout(
                        crate::scenes::boot_animation(),
                        F64::half_a_second(),
                    ),
                ),
            )
        },
        _ => Replies::Nothing,
    }
}

/// The message that makes the badge greet other badges after power-up.
pub fn greeting() -> (message: TaskCommand)
    ensures
        message@ == TaskCommandView::SendIr(0, 66, false),
{
    TaskCommand::SendIr(0, 66, false)
}

/// The selected scene after `presses` messages that ask for the next pattern, none of
/// which finds an override.
pub open spec fn scene_after_presses(scene_id: int, count: int, presses: nat) -> int
    decreases presses,
{
    if presses == 0 {
        scene_id
    } else {
        scene_after(
            scene_after_presses(scene_id, count, (presses - 1) as nat),
            count,
            WorkingModeView::Normal,
            TaskCommandView::NextPattern,
        )
    }
}

/// Whether the badge sends by infrared after messages in order.
pub open spec fn transmitting_after_all(
    is_transmitting: bool,
    messages: Seq<TaskCommandView>,
) -> bool
    decreases messages.len(),
{
    if messages.len() == 0 {
        is_transmitting
    } else {
        transmitting_after(
            transmitting_after_all(is_transmitting, messages.drop_last()),
            messages.last(),
        )
    }
}

/// What the infrared receiver gets while the badge sends changes nothing, and leads to
/// no message.
pub proof fn law_infrared_is_ignored_while_transmitting(
    message: TaskCommandView,
    mode: WorkingModeView,
    power: OutputPower,
    picture: Seq<RGB8>,
    scene_id: int,
    count: int,
    t: F64,
)
    requires
        message is IrCommand,
    ensures
        dropped(message, true),
        replies_to(message, true) == Seq::<TaskCommandView>::empty(),
        mode_after(mode, power, picture, message, t) == mode,
        power_after(power, message) == power,
        midi_after(picture, message) == picture,
        scene_after(scene_id, count, mode, message) == scene_id,
        transmitting_after(true, message),
{
}

/// From the order to send until the report that all is sent, the badge counts as
/// sending, whatever other messages come in between.
pub proof fn law_sending_lasts_until_done(
    addr: u8,
    cmd: u8,
    repeat: bool,
    before: bool,
    messages: Seq<TaskCommandView>,
)
    requires
        forall|i: int| 0 <= i < messages.len() ==> !(#[trigger] messages[i] is IrTxDone),
    ensures
        transmitting_after_all(
            transmitting_after(before, TaskCommandView::SendIr(addr, cmd, repeat)),
            messages,
        ),
        !transmitting_after(
            transmitting_after_all(
                transmitting_after(before, TaskCommandView::SendIr(addr, cmd, repeat)),
                messages,
            ),
            TaskCommandView::IrTxDone,
        ),
    decreases messages.len(),
{
    if messages.len() > 0 {
        assert forall|i: int| 0 <= i < messages.drop_last().len() implies !(
        #[trigger] messages.drop_last()[i] is IrTxDone) by {
            assert(messages.drop_last()[i] == messages[i]);
        }
        law_sending_lasts_until_done(addr, cmd, repeat, before, messages.drop_last());
        assert(messages.last() == messages[messages.len() - 1]);
    }
}

/// A change of brightness never replaces a picture; anything else gives way to the
/// pattern of the new step, which stays at least for the frame of the change and until the
/// moment one second later has passed.
pub proof fn law_brightness_spares_pictures(
    mode: WorkingModeView,
    power: OutputPower,
    picture: Seq<RGB8>,
    message: TaskCommandView,
    t: F64,
    later: F64,
)
    requires
        message is IncreaseBrightness || message is DecreaseBrightness,
        t.is_time(),
    ensures
        power_after(power, message) != power,
        ({
            let changed = mode_after(mode, power, picture, message, t);
            let end = crate::double::sum_of(t, crate::double::quotient(1, 1));
            let shown = WorkingModeView::SpecialTimeout(
                crate::effects::plain(power_pattern(power_after(power, message)), white()),
                end,
            );
            &&& mode is RawFramebuffer ==> mode_after_frame(changed, later) == mode
            &&& !(mode is RawFramebuffer) ==> mode_after_frame(changed, t) == shown
            &&& !(mode is RawFramebuffer) ==> mode_after_frame(changed, later) == if later.exceeds(
                end,
            ) {
                WorkingModeView::Normal
            } else {
                shown
            }
        }),
{
    crate::double::law_a_second_later_is_not_before(t);
}

/// An override that has ended by one reading of the clock has ended by every later one,
/// counted from the same start.
pub proof fn law_overrides_end_for_good(mode: WorkingModeView, start: u64, now: u64, later: u64)
    requires
        now <= later,
        mode_after_frame(mode, crate::double::time_between(start, now)) is Normal,
    ensures
        mode_after_frame(mode, crate::double::time_between(start, later)) is Normal,
{
    let t = crate::double::time_between(start, now);
    let u = crate::double::time_between(start, later);
    crate::double::law_clock_never_runs_back(start, now, later);
    assert(!u.is_nan());
    match mode {
        WorkingModeView::SpecialTimeout(_, timeout) => {
            crate::double::law_exceeding_is_kept(t, u, timeout);
        },
        _ => {},
    }
}

/// Each brightness step has a pattern of its own.
pub proof fn law_power_patterns_are_distinct(a: OutputPower, b: OutputPower)
    ensures
        power_pattern(a) == power_pattern(b) <==> a == b,
{
}

/// Time ends only an override that has a timeout, and ends it in favour of the selected
/// scene; once ended it stays so.
pub proof fn law_time_ends_only_timeouts(mode: WorkingModeView, t: F64, later: F64)
    ensures
        !(mode is SpecialTimeout) ==> mode_after_frame(mode, t) == mode,
        mode is SpecialTimeout ==> mode_after_frame(mode, t) == mode || mode_after_frame(mode, t)
            == WorkingModeView::Normal,
        mode_after_frame(mode, t) is Normal ==> mode_after_frame(mode_after_frame(mode, t), later)
            is Normal,
{
}

/// The first request for the next pattern only ends an override; the selected scene
/// stays as it was.
pub proof fn law_first_press_ends_override(
    mode: WorkingModeView,
    power: OutputPower,
    picture: Seq<RGB8>,
    scene_id: int,
    count: int,
    t: F64,
)
    ensures
        mode_after(mode, power, picture, TaskCommandView::NextPattern, t)
            == WorkingModeView::Normal,
        !(mode is Normal) ==> scene_after(scene_id, count, mode, TaskCommandView::NextPattern)
            == scene_id,
{
}

/// Requests for the next pattern go through the scenes in order and start over after
/// the last one.
pub proof fn law_patterns_go_round(scene_id: int, count: int, presses: nat)
    requires
        0 <= scene_id < count,
    ensures
        scene_after_presses(scene_id, count, presses) == (scene_id + presses) % count,
        0 <= scene_after_presses(scene_id, count, presses) < count,
        presses == count ==> scene_after_presses(scene_id, count, presses) == scene_id,
    decreases presses,
{
    if presses == 0 {
        vstd::arithmetic::div_mod::lemma_small_mod(scene_id as nat, count as nat);
    } else {
        law_patterns_go_round(scene_id, count, (presses - 1) as nat);
        let before = scene_after_presses(scene_id, count, (presses - 1) as nat);
        vstd::arithmetic::div_mod::lemma_add_mod_noop(scene_id + presses - 1, 1, count);
        vstd::arithmetic::div_mod::lemma_add_mod_noop(before, 1, count);
        vstd::arithmetic::div_mod::lemma_small_mod(before as nat, count as nat);
        if before + 1 < count {
            vstd::arithmetic::div_mod::lemma_small_mod((before + 1) as nat, count as nat);
        } else {
            vstd::arithmetic::div_mod::lemma_mod_self_0(count);
        }
        if presses == count {
            vstd::arithmetic::div_mod::lemma_mod_add_multiples_vanish(scene_id, count);
            vstd::arithmetic::div_mod::lemma_small_mod(scene_id as nat, count as nat);
        }
    }
}

/// Each scene can be reached from each other one.
pub proof fn law_each_scene_is_reached(from: int, to: int, count: int)
    requires
        0 <= from < count,
        0 <= to < count,
    ensures
        exists|presses: nat| #[trigger] scene_after_presses(from, count, presses) == to,
{
    let presses: nat = if to >= from {
        (to - from) as nat
    } else {
        (to - from + count) as nat
    };
    law_patterns_go_round(from, count, presses);
    if to < from {
        vstd::arithmetic::div_mod::lemma_mod_add_multiples_vanish(to, count);
    }
    vstd::arithmetic::div_mod::lemma_small_mod(to as nat, count as nat);
    assert(scene_after_presses(from, count, presses) == to);
}

/// A pixel message sets one channel of one LED to its value, shows the picture, and
/// changes no other channel and no other LED; a place outside of the matrix, or a channel
/// that there is not, changes nothing in the picture.
pub proof fn law_midi_pixel_sets_one_channel(
    picture: Seq<RGB8>,
    x: u8,
    y: u8,
    channel: u8,
    value: u8,
    u: int,
    v: int,
)
    requires
        picture.len() == crate::framebuffer::LED_MATRIX_SIZE,
        crate::framebuffer::on_matrix(u, v),
    ensures
        ({
            let place = crate::framebuffer::position(u, v);
            let before = picture[place];
            let after = with_midi_pixel(picture, x, y, channel, value)[place];
            let here = u == x && v == y;
            &&& after.r == if here && channel == 0 { value } else { before.r }
            &&& after.g == if here && channel == 1 { value } else { before.g }
            &&& after.b == if here && channel == 2 { value } else { before.b }
        }),
        !crate::framebuffer::on_matrix(x as int, y as int) || channel > 2 ==> with_midi_pixel(
            picture,
            x,
            y,
            channel,
            value,
        ) == picture,
{
    crate::framebuffer::law_read_gives_back_write(
        picture,
        x as int,
        y as int,
        with_channel(
            picture[crate::framebuffer::position(x as int, y as int)],
            channel,
            value,
        ),
        u,
        v,
    );
    if channel > 2 {
        assert(with_midi_pixel(picture, x, y, channel, value) =~= picture);
    }
}

/// A badge that gets the greeting of another one resets its clock and then greets, from
/// whatever mode it was in.
pub proof fn law_greeting_is_answered(
    mode: WorkingModeView,
    power: OutputPower,
    picture: Seq<RGB8>,
    t: F64,
)
    ensures
        ({
            let replies = replies_to(TaskCommandView::IrCommand(0, 66, false), false);
            &&& replies.len() == 2
            &&& replies[0] is ResetTime
            &&& mode_after(mode, power, picture, replies[1], t) == greeting_mode()
        }),
{
}

/// In the normal mode a frame draws the commands of the selected scene, all of them and in
/// their order.
pub proof fn law_frame_draws_the_selected_scene(badge: Badge, j: int)
    requires
        badge.wf(),
        badge.working_mode is Normal,
        0 <= j < crate::scenes::scene_list(badge.scenes)[badge.scene_id as int].len(),
    ensures
        badge.drawn() is Some,
        badge.drawn()->0.len() == crate::scenes::scene_list(
            badge.scenes,
        )[badge.scene_id as int].len(),
        badge.drawn()->0[j] == crate::scenes::scene_list(
            badge.scenes,
        )[badge.scene_id as int][j]@,
{
}

/// An override is drawn in place of the scene, alone and whatever scene is selected; while a
/// picture is shown nothing is drawn.
pub proof fn law_frame_draws_the_override(badge: Badge)
    ensures
        match badge.working_mode {
            WorkingMode::Normal => badge.drawn() is Some,
            WorkingMode::Special(command) => badge.drawn() matches Some(drawn) && drawn.len() == 1
                && drawn[0] == command@,
            WorkingMode::SpecialTimeout(command, _) => badge.drawn() matches Some(drawn)
                && drawn.len() == 1 && drawn[0] == command@,
            WorkingMode::RawFramebuffer(_) => badge.drawn() is None,
        },
{
}

/// The commands that a frame has to draw are those that it holds.
pub proof fn law_frames_hold_what_is_drawn<'a>(
    commands: &'a [RenderCommand],
    command: &'a RenderCommand,
    j: int,
)
    requires
        0 <= j < commands@.len(),
    ensures
        Frame::Scene(commands)@ matches Some(drawn) && drawn.len() == commands@.len() && drawn[j]
            == commands@[j]@,
        Frame::Command(command)@ matches Some(drawn) && drawn.len() == 1 && drawn[0] == command@,
        Frame::Picture@ is None,
{
}

/// With the scenes that the badge comes with, the selected scene shows a die in red, with one
/// LED for the first scene, two for the second, and so on.
pub proof fn law_selected_scene_shows_its_number(badge: Badge)
    requires
        badge.wf(),
        badge.working_mode is Normal,
        crate::scenes::scene_contents(badge.scenes) == crate::scenes::die_faces().map_values(
            |p: LedPattern| crate::scenes::red_scene(p),
        ),
    ensures
        badge.scene_id < 6,
        badge.drawn() matches Some(drawn) && drawn.len() == 1 && (
        drawn[0].effect matches crate::effects::PatternView::Simple(pattern)
            && crate::effects::lit_count(pattern) == badge.scene_id + 1) && (
        drawn[0].color matches crate::effects::ColorPalette::Solid(c) && c == RGB8 {
            r: 255,
            g: 0,
            b: 0,
        }) && drawn[0].pattern_shaders.len() == 0,
{
    let k = badge.scene_id as int;
    assert(crate::scenes::scene_contents(badge.scenes).len() == 6);
    crate::scenes::law_faces_of_a_die(k);
    let scene = crate::scenes::scene_list(badge.scenes)[k];
    assert(crate::scenes::scene_contents(badge.scenes)[k] == crate::scenes::red_scene(
        crate::scenes::die_faces()[k],
    ));
    assert(scene.len() == 1);
    law_frame_draws_the_selected_scene(badge, 0);
    crate::scenes::law_scenes_keep_their_commands(badge.scenes, k, 0);
}

/// With the scenes that the badge comes with, badges that have selected different scenes
/// draw different frames.
pub proof fn law_different_scenes_look_different(badge: Badge, other: Badge)
    requires
        badge.wf(),
        other.wf(),
        badge.working_mode is Normal,
        other.working_mode is Normal,
        crate::scenes::scene_contents(badge.scenes) == crate::scenes::die_faces().map_values(
            |p: LedPattern| crate::scenes::red_scene(p),
        ),
        crate::scenes::scene_contents(other.scenes) == crate::scenes::scene_contents(badge.scenes),
        badge.scene_id != other.scene_id,
    ensures
        badge.drawn() != other.drawn(),
{
    law_selected_scene_shows_its_number(badge);
    law_selected_scene_shows_its_number(other);
    assert(badge.drawn()->0[0].effect != other.drawn()->0[0].effect);
}

/// A pixel message sets the named channel of the LED in column `x` of row `y` to its value,
/// in the picture that is drawn pixel by pixel and in the one that is shown, and leaves
/// every other channel and every other LED as it is, whatever was shown before.
pub proof fn law_pixel_messages_draw_where_they_say(
    picture: Seq<RGB8>,
    x: u8,
    y: u8,
    channel: u8,
    value: u8,
    mode: WorkingModeView,
    power: OutputPower,
    t: F64,
    u: int,
    v: int,
)
    requires
        picture.len() == 9,
        0 <= u < 3,
        0 <= v < 3,
    ensures
        ({
            let message = TaskCommandView::MidiSetPixel(x, y, channel, value);
            let before = picture[3 * v + u];
            let after = midi_after(picture, message)[3 * v + u];
            let here = u == x && v == y;
            &&& midi_after(picture, message).len() == 9
            &&& after.r == if here && channel == 0 { value } else { before.r }
            &&& after.g == if here && channel == 1 { value } else { before.g }
            &&& after.b == if here && channel == 2 { value } else { before.b }
            &&& mode_after(mode, power, picture, message, t) matches
                WorkingModeView::RawFramebuffer(shown) && shown.len() == 9 && shown[3 * v + u]
                == after
        }),
{
    law_midi_pixel_sets_one_channel(picture, x, y, channel, value, u, v);
}

/// Two pixel messages for different LEDs, or for different channels, can come in either
/// order, and of two for the same channel of the same LED the last one counts.
pub proof fn law_pixel_messages_keep_out_of_each_others_way(
    picture: Seq<RGB8>,
    x: u8,
    y: u8,
    channel: u8,
    value: u8,
    u: u8,
    v: u8,
    other_channel: u8,
    other_value: u8,
)
    requires
        picture.len() == 9,
    ensures
        ({
            let first = TaskCommandView::MidiSetPixel(x, y, channel, value);
            let second = TaskCommandView::MidiSetPixel(u, v, other_channel, other_value);
            &&& x != u || y != v || channel != other_channel ==> midi_after(
                midi_after(picture, first),
                second,
            ) == midi_after(midi_after(picture, second), first)
            &&& x == u && y == v && channel == other_channel ==> midi_after(
                midi_after(picture, first),
                second,
            ) == midi_after(picture, second)
        }),
{
    let first = TaskCommandView::MidiSetPixel(x, y, channel, value);
    let second = TaskCommandView::MidiSetPixel(u, v, other_channel, other_value);
    let a = midi_after(midi_after(picture, first), second);
    let b = midi_after(midi_after(picture, second), first);
    if x != u || y != v || channel != other_channel {
        assert(a =~= b);
    } else {
        assert(a =~= midi_after(picture, second));
    }
}

/// Asking for more brightness raises the gain, except at the brightest step, and asking for
/// less lowers it, except at the darkest; the two requests undo each other, and the ends
/// follow each other.
pub proof fn law_brightness_messages_do_what_they_say(power: OutputPower)
    ensures
        ({
            let up = power_after(power, TaskCommandView::IncreaseBrightness);
            let down = power_after(power, TaskCommandView::DecreaseBrightness);
            &&& power != OutputPower::High ==> up.gain_value().units() > power.gain_value().units()
            &&& power == OutputPower::High ==> up == OutputPower::NighMode
            &&& power != OutputPower::NighMode ==> down.gain_value().units()
                < power.gain_value().units()
            &&& power == OutputPower::NighMode ==> down == OutputPower::High
            &&& power_after(up, TaskCommandView::DecreaseBrightness) == power
            &&& power_after(down, TaskCommandView::IncreaseBrightness) == power
        }),
{
    crate::power::law_darker_step_has_smaller_gain(power);
    crate::power::law_brighter_step_has_greater_gain(power);
    crate::power::law_increase_and_decrease_undo_each_other(power);
}

/// A step is shown by lighting LEDs from the first on, in white: all nine for the brightest,
/// then six, three and one. A change of brightness shows the step that it leads to.
pub proof fn law_brightness_is_shown_by_lit_leds(
    power: OutputPower,
    mode: WorkingModeView,
    picture: Seq<RGB8>,
    message: TaskCommandView,
    t: F64,
)
    ensures
        crate::effects::lit_count(power_pattern(power)) == match power {
            OutputPower::High => 9int,
            OutputPower::Medium => 6,
            OutputPower::Low => 3,
            OutputPower::NighMode => 1,
        },
        // only the lowest bits are set
        power_pattern(power) + 1 == crate::float::two_to(
            crate::effects::lit_count(power_pattern(power)) as nat,
        ),
        (message is IncreaseBrightness || message is DecreaseBrightness) && !(
        mode is RawFramebuffer) ==> (mode_after(mode, power, picture, message, t)
            matches WorkingModeView::SpecialTimeout(command, end) && command.effect
            == crate::effects::PatternView::Simple(
            power_pattern(
                if message is IncreaseBrightness {
                    power.increased()
                } else {
                    power.decreased()
                },
            ),
        ) && command.color == crate::effects::ColorPalette::Solid(RGB8 { r: 255, g: 255, b: 255 })
            && command.pattern_shaders.len() == 0 && end == crate::double::sum_of(
            t,
            crate::double::quotient(1, 1),
        )),
{
    assert(crate::float::two_to(9) == 512 && crate::float::two_to(6) == 64 && crate::float::two_to(
        3,
    ) == 8 && crate::float::two_to(1) == 2) by {
        reveal_with_fuel(crate::float::two_to, 10);
    }
}

/// Each message changes only what it is about.
pub proof fn law_messages_change_nothing_else(
    message: TaskCommandView,
    mode: WorkingModeView,
    power: OutputPower,
    picture: Seq<RGB8>,
    scene_id: int,
    count: int,
    is_transmitting: bool,
    t: F64,
)
    ensures
        !(message is IncreaseBrightness || message is DecreaseBrightness) ==> power_after(
            power,
            message,
        ) == power,
        !(message is MidiSetPixel) ==> midi_after(picture, message) == picture,
        !(message is NextPattern && mode is Normal) ==> scene_after(
            scene_id,
            count,
            mode,
            message,
        ) == scene_id,
        !(message is SendIr || message is IrTxDone) ==> transmitting_after(
            is_transmitting,
            message,
        ) == is_transmitting,
        message is SendIr ==> transmitting_after(is_transmitting, message),
        message is IrTxDone ==> !transmitting_after(is_transmitting, message),
        !(message is MidiSetPixel || message is NextPattern || message is SetWorkingMode
            || message is IncreaseBrightness || message is DecreaseBrightness) ==> mode_after(
            mode,
            power,
            picture,
            message,
            t,
        ) == mode,
        message matches TaskCommandView::SetWorkingMode(new_mode) ==> mode_after(
            mode,
            power,
            picture,
            message,
            t,
        ) == new_mode,
        !(message is IrCommand || message is ShortButtonPress || message is LongButtonPress)
            ==> replies_to(message, is_transmitting).len() == 0,
        dropped(message, is_transmitting) <==> message is IrCommand && is_transmitting,
{
}

/// The next pattern is the scene after the selected one, or the first one after the last.
pub proof fn law_next_pattern_is_the_next_scene(scene_id: int, count: int)
    requires
        0 <= scene_id < count,
    ensures
        scene_after(scene_id, count, WorkingModeView::Normal, TaskCommandView::NextPattern) == (
        scene_id + 1) % count,
{
    law_patterns_go_round(scene_id, count, 1);
    reveal_with_fuel(scene_after_presses, 2);
}

/// A short press asks for the next pattern, and a long one for less brightness.
pub proof fn law_what_the_button_asks_for(is_transmitting: bool)
    ensures
        ({
            let short = replies_to(TaskCommandView::ShortButtonPress, is_transmitting);
            let long = replies_to(TaskCommandView::LongButtonPress, is_transmitting);
            &&& short.len() == 1 && short[0] is NextPattern
            &&& long.len() == 1 && long[0] is DecreaseBrightness
        }),
{
}

/// What the remote control and other badges ask for while nothing is being sent: only five
/// commands of address zero, and no repeated one, lead to anything.
pub proof fn law_what_infrared_asks_for(addr: u8, cmd: u8, repeat: bool)
    ensures
        ({
            let replies = replies_to(TaskCommandView::IrCommand(addr, cmd, repeat), false);
            let known = addr == 0 && !repeat;
            &&& replies == infrared_replies(addr, cmd, repeat)
            &&& replies.len() == 0 <==> !known || cmd < 66 || cmd > 70
            &&& replies.len() == 2 <==> known && cmd == 66
            &&& replies.len() <= 2
            &&& replies.len() > 0 ==> {
                &&& replies[0] is DecreaseBrightness <==> cmd == 70
                &&& replies[0] is IncreaseBrightness <==> cmd == 69
                &&& replies[0] is NextPattern <==> cmd == 68
                &&& replies[0] is ResetTime <==> cmd == 67 || cmd == 66
            }
            &&& replies.len() == 2 ==> replies[1] == TaskCommandView::SetWorkingMode(greeting_mode())
        }),
{
}

/// The greeting is the boot animation, and lasts up to half a second, counted as the clock
/// counts it.
pub proof fn law_greeting_lasts_half_a_second(t: F64)
    ensures
        greeting_mode() matches WorkingModeView::SpecialTimeout(command, end) && command
            == crate::scenes::boot_command() && 2 * end.value() == crate::float::two_to(1074)
            && end.is_finite(),
        mode_after_frame(greeting_mode(), t) == if t.exceeds(crate::double::quotient(1, 2)) {
            WorkingModeView::Normal
        } else {
            greeting_mode()
        },
{
    crate::double::lemma_quotient_half();
}

/// A torch light shines white with every LED, and goes on until the next pattern is asked
/// for, however much time passes.
pub proof fn law_torch_shines_until_it_is_ended(
    t: F64,
    power: OutputPower,
    picture: Seq<RGB8>,
)
    ensures
        torch_mode() matches WorkingModeView::Special(command) && (
        command.effect matches crate::effects::PatternView::Simple(pattern) && pattern == 0x1ff)
            && command.color == crate::effects::ColorPalette::Solid(
            RGB8 { r: 255, g: 255, b: 255 },
        ) && command.pattern_shaders.len() == 0,
        mode_after_frame(torch_mode(), t) == torch_mode(),
        mode_after(torch_mode(), power, picture, TaskCommandView::NextPattern, t) is Normal,
{
}

/// An override with a timeout stays exactly as long as the moment does not exceed it.
pub proof fn law_timeouts_are_kept(command: RenderCommandView, end: F64, t: F64)
    ensures
        ({
            let mode = WorkingModeView::SpecialTimeout(command, end);
            &&& t.exceeds(end) ==> mode_after_frame(mode, t) is Normal
            &&& !t.exceeds(end) ==> mode_after_frame(mode, t) == mode
        }),
{
}

/// A reset of the clock makes the moment at which it is handled the new zero, and later
/// moments count from there; no other message touches the clock.
pub proof fn law_reset_starts_the_clock_anew(
    offset: u64,
    message: TaskCommandView,
    now: u64,
    later: u64,
)
    ensures
        message is ResetTime ==> {
            let start = offset_after(offset, message, now);
            &&& crate::double::time_between(start, now) == (F64 { bits: 0 })
            &&& crate::double::time_between(start, later) == crate::double::time_between(now, later)
        },
        !(message is ResetTime) ==> offset_after(offset, message, now) == offset,
{
    crate::double::law_no_time_between_equal_readings(now);
}

/// The throttle multiplier is the last one that a message told of.
pub proof fn law_last_multiplier_counts(
    multiplier: F32,
    gain: F32,
    message: TaskCommandView,
)
    ensures
        ({
            let told = throttle_after(
                multiplier,
                TaskCommandView::ThermalThrottleMultiplier(gain),
            );
            &&& told == gain
            &&& !(message is ThermalThrottleMultiplier) ==> throttle_after(told, message) == gain
        }),
{
}

/// A picture that is shown replaces everything that was drawn, in each of its places; in
/// every other mode what was drawn stays.
pub proof fn law_pictures_are_shown_as_they_are(
    picture: RawFramebuffer<RGB8>,
    mode: WorkingModeView,
    drawn: Seq<RGB8>,
    x: int,
    y: int,
)
    requires
        0 <= x < 3,
        0 <= y < 3,
    ensures
        picture_after_frame(WorkingMode::RawFramebuffer(picture)@, drawn)[3 * y + x]
            == picture.framebuffer@[3 * y + x],
        !(mode is RawFramebuffer) ==> picture_after_frame(mode, drawn) == drawn,
{
}

} // verus!
