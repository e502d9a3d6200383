//! What the tasks of the badge tell each other.
use vstd::prelude::*;

use crate::color::RGB8;
use crate::double::F64;
use crate::effects::{RenderCommand, RenderCommandView};
use crate::float::F32;
use crate::framebuffer::RawFramebuffer;

verus! {

/// What the matrix shows.
#[derive(Clone, Debug)]
pub enum WorkingMode {
    /// The scene that the user selected.
    Normal,
    /// A command that overrides the scene until the user presses the button.
    Special(RenderCommand),
    /// A command that overrides the scene until a moment, in seconds.
    SpecialTimeout(RenderCommand, F64),
    /// A picture.
    RawFramebuffer(RawFramebuffer<RGB8>),
}

/// A message from one task to the others.
#[derive(Clone, Debug)]
pub enum TaskCommand {
    /// How much the LEDs may draw: one is no throttling, zero is full throttling.
    ThermalThrottleMultiplier(F32),
    /// Address, command and repeat flag of what the infrared receiver got.
    IrCommand(u8, u8, bool),
    ShortButtonPress,
    LongButtonPress,
    /// Column, row, channel (red, green, blue) and value.
    MidiSetPixel(u8, u8, u8, u8),
    SetWorkingMode(WorkingMode),
    /// Address, command and repeat flag to send by infrared.
    SendIr(u8, u8, bool),
    IrTxDone,
    NextPattern,
    IncreaseBrightness,
    DecreaseBrightness,
    ResetTime,
    Nothing,
}

/// The mathematical content of a `WorkingMode`.
pub enum WorkingModeView {
    Normal,
    Special(RenderCommandView),
    SpecialTimeout(RenderCommandView, F64),
    RawFramebuffer(Seq<RGB8>),
}

/// The mathematical content of a `TaskCommand`.
pub enum TaskCommandView {
    ThermalThrottleMultiplier(F32),
    IrCommand(u8, u8, bool),
    ShortButtonPress,
    LongButtonPress,
    MidiSetPixel(u8, u8, u8, u8),
    SetWorkingMode(WorkingModeView),
    SendIr(u8, u8, bool),
    IrTxDone,
    NextPattern,
    IncreaseBrightness,
    DecreaseBrightness,
    ResetTime,
    Nothing,
}

impl View for WorkingMode {
    type V = WorkingModeView;

    open spec fn view(&self) -> WorkingModeView {
        match *self {
            WorkingMode::Normal => WorkingModeView::Normal,
            WorkingMode::Special(command) => WorkingModeView::Special(command@),
            WorkingMode::SpecialTimeout(command, timeout) => WorkingModeView::SpecialTimeout(
                command@,
                timeout,
            ),
            WorkingMode::RawFramebuffer(picture) => WorkingModeView::RawFramebuffer(picture@),
        }
    }
}

impl View for TaskCommand {
    type V = TaskCommandView;

    open spec fn view(&self) -> TaskCommandView {
        match *self {
            TaskCommand::ThermalThrottleMultiplier(gain) => {
                TaskCommandView::ThermalThrottleMultiplier(gain)
            },
            TaskCommand::IrCommand(addr, cmd, repeat) => {
                TaskCommandView::IrCommand(addr, cmd, repeat)
            },
            TaskCommand::ShortButtonPress => TaskCommandView::ShortButtonPress,
            TaskCommand::LongButtonPress => TaskCommandView::LongButtonPress,
            TaskCommand::MidiSetPixel(x, y, channel, value) => {
                TaskCommandView::MidiSetPixel(x, y, channel, value)
            },
            TaskCommand::SetWorkingMode(mode) => TaskCommandView::SetWorkingMode(mode@),
            TaskCommand::SendIr(addr, cmd, repeat) => TaskCommandView::SendIr(addr, cmd, repeat),
            TaskCommand::IrTxDone => TaskCommandView::IrTxDone,
            TaskCommand::NextPattern => TaskCommandView::NextPattern,
            TaskCommand::IncreaseBrightness => TaskCommandView::IncreaseBrightness,
            TaskCommand::DecreaseBrightness => TaskCommandView::DecreaseBrightness,
            TaskCommand::ResetTime => TaskCommandView::ResetTime,
            TaskCommand::Nothing => TaskCommandView::Nothing,
        }
    }
}

/// The content of a message, if there is one.
pub open spec fn message_view(message: Option<TaskCommand>) -> Option<TaskCommandView> {
    match message {
        Some(m) => Some(m@),
        None => None,
    }
}

/// The messages that handling a message leads to, in the order to send them.
#[derive(Clone, Debug)]
pub enum Replies {
    Nothing,
    One(TaskCommand),
    Two(TaskCommand, TaskCommand),
}

impl View for Replies {
    type V = Seq<TaskCommandView>;

    open spec fn view(&self) -> Seq<TaskCommandView> {
        match *self {
            Replies::Nothing => Seq::empty(),
            Replies::One(first) => seq![first@],
            Replies::Two(first, second) => seq![first@, second@],
        }
    }
}

/// The content of a mode holds what the mode was made of.
pub proof fn law_modes_keep_their_content(
    command: RenderCommand,
    end: F64,
    picture: RawFramebuffer<RGB8>,
)
    ensures
        WorkingMode::Normal@ is Normal,
        WorkingMode::Special(command)@ matches WorkingModeView::Special(c) && c == command@,
        WorkingMode::SpecialTimeout(command, end)@ matches WorkingModeView::SpecialTimeout(c, e)
            && c == command@ && e == end,
        WorkingMode::RawFramebuffer(picture)@ matches WorkingModeView::RawFramebuffer(p)
            && forall|i: int| 0 <= i < 9 ==> #[trigger] p[i] == picture.framebuffer@[i],
{
}

/// The content of a message holds the fields of the message, in their order.
pub proof fn law_messages_keep_their_content(
    a: u8,
    b: u8,
    c: u8,
    d: u8,
    repeat: bool,
    gain: F32,
    mode: WorkingMode,
)
    ensures
        TaskCommand::ThermalThrottleMultiplier(gain)@
            matches TaskCommandView::ThermalThrottleMultiplier(g) && g == gain,
        TaskCommand::IrCommand(a, b, repeat)@ matches TaskCommandView::IrCommand(x, y, r) && x == a
            && y == b && r == repeat,
        TaskCommand::SendIr(a, b, repeat)@ matches TaskCommandView::SendIr(x, y, r) && x == a && y
            == b && r == repeat,
        TaskCommand::MidiSetPixel(a, b, c, d)@ matches TaskCommandView::MidiSetPixel(x, y, z, v)
            && x == a && y == b && z == c && v == d,
        TaskCommand::SetWorkingMode(mode)@ matches TaskCommandView::SetWorkingMode(m) && m == mode@,
        TaskCommand::ShortButtonPress@ is ShortButtonPress,
        TaskCommand::LongButtonPress@ is LongButtonPress,
        TaskCommand::IrTxDone@ is IrTxDone,
        TaskCommand::NextPattern@ is NextPattern,
        TaskCommand::IncreaseBrightness@ is IncreaseBrightness,
        TaskCommand::DecreaseBrightness@ is DecreaseBrightness,
        TaskCommand::ResetTime@ is ResetTime,
        TaskCommand::Nothing@ is Nothing,
{
}

/// Replies are sent in the order in which they are listed, and none is added or lost.
pub proof fn law_replies_keep_their_order(first: TaskCommand, second: TaskCommand)
    ensures
        Replies::Nothing@.len() == 0,
        Replies::One(first)@.len() == 1 && Replies::One(first)@[0] == first@,
        Replies::Two(first, second)@.len() == 2 && Replies::Two(first, second)@[0] == first@
            && Replies::Two(first, second)@[1] == second@,
        message_view(Some(first)) == Some(first@),
        message_view(None::<TaskCommand>) is None,
{
}

} // verus!
