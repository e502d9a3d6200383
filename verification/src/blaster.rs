//! The infrared task: it takes orders one at a time, drives the carrier until the
//! transmission is over, and reports that.
use vstd::prelude::*;

use crate::command::{TaskCommand, TaskCommandView};
use crate::ir::{BlasterStep, IrBlaster, NecTriple, SenderStatus};

verus! {

/// Something that is written to the hardware of the carrier.
#[derive(Clone, Copy, Debug, PartialEq, Eq, Structural)]
pub enum HardwareWrite {
    /// The configuration of the PWM slice: whether it runs, what it counts up to, and where
    /// it switches.
    Pwm { enable: bool, top: u16, compare_b: u16 },
    /// The function of a pin: the register that selects it, and the value for it.
    Pin { register: u32, function: u32 },
}

/// The configuration of the PWM slice for a carrier of 38 kHz from a system clock of
/// 125 MHz, on for half of the time.
pub open spec fn pwm_write(enable: bool) -> HardwareWrite {
    HardwareWrite::Pwm { enable, top: 3289, compare_b: 1644 }
}

/// The function of the carrier's pin: PWM while the carrier is on, and none while it is off.
pub open spec fn pin_write(enable: bool) -> HardwareWrite {
    HardwareWrite::Pin {
        register: 0x4001_405c,
        function: if enable {
            4
        } else {
            0x1f
        },
    }
}

/// What is written to turn the carrier on or off, in this order. The pin would stay high
/// when the PWM stops, so it is taken away from the PWM then.
pub fn carrier_writes(enable: bool) -> (writes: [HardwareWrite; 2])
    ensures
        writes@ == seq![pwm_write(enable), pin_write(enable)],
{
    let top: u32 = 125_000_000 / 38_000;
    let top: u16 = top as u16;
    let function: u32 = if enable {
        4
    } else {
        0x1f
    };
    let writes = [
        HardwareWrite::Pwm { enable, top, compare_b: top / 2 },
        HardwareWrite::Pin { register: 0x4001_4000 + 11 * 8 + 4, function },
    ];
    assert(writes@ =~= seq![pwm_write(enable), pin_write(enable)]);
    writes
}

/// Something that the infrared task does.
pub enum IrAction {
    /// It starts a transmission.
    Start(NecTriple),
    /// It writes to the hardware.
    Write(HardwareWrite),
    /// It sends a message to the other tasks.
    Publish(TaskCommandView),
}

/// What the infrared task has to do at a tick: first the writes, then the report, if any.
pub struct Duties {
    pub writes: [HardwareWrite; 2],
    pub report: Option<Report>,
}

/// What the infrared task has to do once a transmission is over: the carrier is turned off
/// once more, and the message is sent.
pub struct Report {
    pub writes: [HardwareWrite; 2],
    pub message: TaskCommand,
    /// Whether the sender has failed.
    pub failed: bool,
}

/// Writes as actions.
pub open spec fn write_actions(writes: Seq<HardwareWrite>) -> Seq<IrAction> {
    writes.map_values(|write: HardwareWrite| IrAction::Write(write))
}

impl Duties {
    /// The actions of a tick, in order.
    pub open spec fn actions(self) -> Seq<IrAction> {
        match self.report {
            Some(report) => (write_actions(self.writes@) + write_actions(report.writes@)).push(
                IrAction::Publish(report.message@),
            ),
            None => write_actions(self.writes@),
        }
    }
}

/// The actions of a step, in order: the carrier is set, and when the transmission is over
/// or has failed it is turned off twice before that is reported.
pub open spec fn step_actions(step: BlasterStep) -> Seq<IrAction> {
    match step {
        BlasterStep::Carrier(on) => seq![
            IrAction::Write(pwm_write(on)),
            IrAction::Write(pin_write(on)),
        ],
        BlasterStep::Done | BlasterStep::Failed => seq![
            IrAction::Write(pwm_write(false)),
            IrAction::Write(pin_write(false)),
            IrAction::Write(pwm_write(false)),
            IrAction::Write(pin_write(false)),
            IrAction::Publish(TaskCommandView::IrTxDone),
        ],
    }
}

/// What a step asks for.
pub fn carry_out(step: BlasterStep) -> (duties: Duties)
    ensures
        duties.writes@ == seq![
            pwm_write(step == BlasterStep::Carrier(true)),
            pin_write(step == BlasterStep::Carrier(true)),
        ],
        duties.report is None <==> step is Carrier,
        duties.report matches Some(report) ==> {
            &&& report.writes@ == seq![pwm_write(false), pin_write(false)]
            &&& report.message@ == TaskCommandView::IrTxDone
            &&& report.failed == (step == BlasterStep::Failed)
        },
        duties.actions() == step_actions(step),
{
    let (on, report) = match step {
        BlasterStep::Carrier(on) => (on, None),
        BlasterStep::Done => (false, Some(tx_done(false))),
        BlasterStep::Failed => (false, Some(tx_done(true))),
    };
    Duties { writes: carrier_writes(on), report }
}

/// The report of a transmission that is over or has failed.
fn tx_done(failed: bool) -> (report: Report)
    ensures
        report.writes@ == seq![pwm_write(false), pin_write(false)],
        report.message@ == TaskCommandView::IrTxDone,
        report.failed == failed,
{
    Report { writes: carrier_writes(false), message: TaskCommand::IrTxDone, failed }
}

/// What a message orders the infrared task to send, if anything.
pub open spec fn order_of(message: TaskCommandView) -> Option<NecTriple> {
    match message {
        TaskCommandView::SendIr(addr, cmd, repeat) => Some((addr, cmd, repeat)),
        _ => None,
    }
}

/// What the infrared task sends on behalf of a message, if anything.
pub fn to_send(message: &TaskCommand) -> (command: Option<NecTriple>)
    ensures
        command == order_of(message@),
        message@ matches TaskCommandView::SendIr(addr, cmd, repeat) ==> command == Some(
            (addr, cmd, repeat),
        ),
        !(message@ is SendIr) ==> command is None,
{
    match message {
        TaskCommand::SendIr(addr, cmd, repeat) => Some((*addr, *cmd, *repeat)),
        _ => None,
    }
}

/// The infrared task: it waits for a message while it is not sending, and for the next tick
/// while it is.
pub struct IrTask {
    pub sending: Option<IrBlaster>,
}

impl IrTask {
    /// A task that waits for an order.
    pub fn new() -> (task: Self)
        ensures
            task.sending is None,
    {
        IrTask { sending: None }
    }

    /// Takes a message while nothing is being sent. Tells whether a transmission starts.
    pub fn on_message(&mut self, message: &TaskCommand) -> (started: bool)
        requires
            old(self).sending is None,
        ensures
            started == order_of(message@) is Some,
            match order_of(message@) {
                Some((addr, cmd, _)) => {
                    &&& final(self).sending is Some
                    &&& final(self).sending->0.has_ticked(crate::ir::transmission(addr, cmd), 0)
                },
                None => final(self).sending is None,
            },
            started == message@ is SendIr,
            message@ matches TaskCommandView::SendIr(addr, cmd, _) ==> final(self).sending is Some
                && final(self).sending->0.has_ticked(crate::ir::transmission(addr, cmd), 0),
            !(message@ is SendIr) ==> final(self).sending is None,
    {
        match to_send(message) {
            Some((addr, cmd, repeat)) => {
                self.sending = Some(IrBlaster::start(addr, cmd, repeat));
                true
            },
            None => false,
        }
    }

    /// Goes on by one tick. The next order is taken only once the transmission is over, and
    /// what there is to do then ends with the report.
    pub fn on_tick(&mut self) -> (duties: Duties)
        requires
            old(self).sending is Some,
        ensures
            ({
                let before = old(self).sending->0;
                let status = before.state().ticked(before.counter).status;
                &&& duties.actions() == step_actions(crate::ir::step_of(status))
                &&& duties.report is Some <==> !(status is Transmit)
                &&& duties.report is Some ==> duties.report->0.failed == (status is Error)
                &&& forall|pulses: Seq<u32>, ticks: nat| #[trigger]
                    before.has_ticked(pulses, ticks) ==> status == crate::ir::after_ticks(
                        pulses,
                        ticks + 1,
                    ).status
                &&& final(self).sending is Some <==> crate::ir::step_of(status) is Carrier
                &&& final(self).sending is Some ==> {
                    &&& final(self).sending->0.state() == before.state().ticked(before.counter)
                    &&& final(self).sending->0.counter == (before.counter + 1) % 0x1_0000_0000
                    &&& forall|pulses: Seq<u32>, ticks: nat| #[trigger]
                        before.has_ticked(pulses, ticks)
                            ==> final(self).sending->0.has_ticked(pulses, ticks + 1)
                }
            }),
    {
        match self.sending.take() {
            Some(transmission) => {
                let mut transmission = transmission;
                let step = transmission.tick();
                if let BlasterStep::Carrier(_) = step {
                    self.sending = Some(transmission);
                }
                carry_out(step)
            },
            None => carry_out(BlasterStep::Done),
        }
    }
}

/// The actions of a transmission, tick by tick, for what the sender tells at each tick.
pub open spec fn run_actions(statuses: Seq<SenderStatus>) -> Seq<IrAction>
    decreases statuses.len(),
{
    if statuses.len() == 0 {
        Seq::empty()
    } else {
        run_actions(statuses.drop_last()) + step_actions(crate::ir::step_of(statuses.last()))
    }
}

/// Whether this is all that the sender tells in the course of a transmission: it transmits
/// until it is idle or has failed.
pub open spec fn complete(statuses: Seq<SenderStatus>) -> bool {
    &&& statuses.len() > 0
    &&& !(statuses.last() is Transmit)
    &&& forall|i: int| 0 <= i < statuses.len() - 1 ==> #[trigger] statuses[i] is Transmit
}

/// The actions that a message leads to, where `statuses` is what the sender tells if it is
/// put to work.
pub open spec fn message_actions(message: TaskCommandView, statuses: Seq<SenderStatus>) -> Seq<
    IrAction,
> {
    match order_of(message) {
        Some(triple) => seq![IrAction::Start(triple)] + run_actions(statuses),
        None => Seq::empty(),
    }
}

/// The actions that a list of messages leads to, one after the other; `runs` holds for each
/// message what the sender tells if it is put to work.
pub open spec fn task_actions(
    messages: Seq<TaskCommandView>,
    runs: Seq<Seq<SenderStatus>>,
) -> Seq<IrAction>
    decreases messages.len(),
{
    if messages.len() == 0 {
        Seq::empty()
    } else {
        task_actions(messages.drop_last(), runs.drop_last()) + message_actions(
            messages.last(),
            runs.last(),
        )
    }
}

/// Which of the actions start a transmission or send a message, in order.
pub open spec fn milestones(actions: Seq<IrAction>) -> Seq<IrAction> {
    actions.filter(|action: IrAction| !(action is Write))
}

/// A start and a report for each order among the messages, in order.
pub open spec fn starts_and_reports(messages: Seq<TaskCommandView>) -> Seq<IrAction>
    decreases messages.len(),
{
    if messages.len() == 0 {
        Seq::empty()
    } else {
        let before = starts_and_reports(messages.drop_last());
        match order_of(messages.last()) {
            Some(triple) => before + seq![
                IrAction::Start(triple),
                IrAction::Publish(TaskCommandView::IrTxDone),
            ],
            None => before,
        }
    }
}

/// Transmitting leads to no message.
proof fn lemma_transmitting_is_silent(statuses: Seq<SenderStatus>)
    requires
        forall|i: int| 0 <= i < statuses.len() ==> #[trigger] statuses[i] is Transmit,
    ensures
        milestones(run_actions(statuses)) == Seq::<IrAction>::empty(),
        run_actions(statuses).len() == 2 * statuses.len(),
    decreases statuses.len(),
{
    reveal(Seq::filter);
    if statuses.len() > 0 {
        let before = statuses.drop_last();
        let step = crate::ir::step_of(statuses.last());
        lemma_transmitting_is_silent(before);
        lemma_step_milestones(step);
        Seq::filter_distributes_over_add(
            run_actions(before),
            step_actions(step),
            |action: IrAction| !(action is Write),
        );
    }
}

/// A step sends no message but the report at the end.
proof fn lemma_step_milestones(step: BlasterStep)
    ensures
        milestones(step_actions(step)) == match step {
            BlasterStep::Carrier(_) => Seq::<IrAction>::empty(),
            BlasterStep::Done | BlasterStep::Failed => seq![IrAction::Publish(TaskCommandView::IrTxDone)],
        },
{
    reveal_with_fuel(Seq::filter, 6);
    let actions = step_actions(step);
    if step is Carrier {
        assert(actions.drop_last().drop_last() =~= Seq::<IrAction>::empty());
    } else {
        let writes = actions.drop_last().drop_last().drop_last();
        assert(writes.drop_last().drop_last() =~= Seq::<IrAction>::empty());
    }
}

/// A transmission that comes to its end, or fails, reports that once, as its last action.
pub proof fn law_transmission_reports_once(statuses: Seq<SenderStatus>)
    requires
        complete(statuses),
    ensures
        milestones(run_actions(statuses)) == seq![IrAction::Publish(TaskCommandView::IrTxDone)],
        run_actions(statuses).last() == IrAction::Publish(TaskCommandView::IrTxDone),
        run_actions(statuses).len() == 2 * statuses.len() + 3,
{
    let before = statuses.drop_last();
    assert forall|i: int| 0 <= i < before.len() implies #[trigger] before[i] is Transmit by {
        assert(before[i] == statuses[i]);
    }
    lemma_transmitting_is_silent(before);
    let step = crate::ir::step_of(statuses.last());
    lemma_step_milestones(step);
    Seq::filter_distributes_over_add(
        run_actions(before),
        step_actions(step),
        |action: IrAction| !(action is Write),
    );
}

/// Each order is started and then reported once, before the next one is started, and the
/// other messages lead to nothing.
pub proof fn law_one_report_for_each_order(
    messages: Seq<TaskCommandView>,
    runs: Seq<Seq<SenderStatus>>,
)
    requires
        runs.len() == messages.len(),
        forall|i: int|
            0 <= i < messages.len() && order_of(#[trigger] messages[i]) is Some ==> complete(
                runs[i],
            ),
    ensures
        milestones(task_actions(messages, runs)) == starts_and_reports(messages),
    decreases messages.len(),
{
    reveal(Seq::filter);
    if messages.len() > 0 {
        let n = messages.len() - 1;
        let pred = |action: IrAction| !(action is Write);
        assert forall|i: int|
            0 <= i < n && order_of(#[trigger] messages.drop_last()[i]) is Some implies complete(
            runs.drop_last()[i],
        ) by {
            assert(messages.drop_last()[i] == messages[i]);
        }
        law_one_report_for_each_order(messages.drop_last(), runs.drop_last());
        Seq::filter_distributes_over_add(
            task_actions(messages.drop_last(), runs.drop_last()),
            message_actions(messages.last(), runs.last()),
            pred,
        );
        match order_of(messages[n]) {
            Some(triple) => {
                let start = seq![IrAction::Start(triple)];
                law_transmission_reports_once(runs[n]);
                Seq::filter_distributes_over_add(start, run_actions(runs[n]), pred);
                assert(start.drop_last() =~= Seq::<IrAction>::empty());
            },
            None => {},
        }
    }
}

/// Whether each write of the PWM configuration is followed at once by the write of the pin
/// that goes with it.
pub open spec fn pin_follows_pwm(actions: Seq<IrAction>) -> bool {
    forall|i: int|
        0 <= i < actions.len() ==> (#[trigger] actions[i] matches IrAction::Write(
            HardwareWrite::Pwm { enable, .. },
        ) ==> actions[i] == IrAction::Write(pwm_write(enable)) && i + 1 < actions.len()
            && actions[i + 1] == IrAction::Write(pin_write(enable)))
}

/// Whether each message is sent right after the carrier was turned off.
pub open spec fn off_when_published(actions: Seq<IrAction>) -> bool {
    forall|i: int|
        0 <= i < actions.len() && #[trigger] actions[i] is Publish ==> i >= 2 && actions[i - 2]
            == IrAction::Write(pwm_write(false)) && actions[i - 1] == IrAction::Write(
            pin_write(false),
        )
}

/// Both properties hold of a sequence if they hold of its two parts.
proof fn lemma_parts(a: Seq<IrAction>, b: Seq<IrAction>)
    requires
        pin_follows_pwm(a),
        pin_follows_pwm(b),
        off_when_published(a),
        off_when_published(b),
    ensures
        pin_follows_pwm(a + b),
        off_when_published(a + b),
{
    let c = a + b;
    assert forall|i: int| 0 <= i < c.len() implies c[i] == if i < a.len() {
        a[i]
    } else {
        b[i - a.len()]
    } by {}
}

/// Both properties hold of a transmission.
proof fn lemma_run_keeps_order(statuses: Seq<SenderStatus>)
    ensures
        pin_follows_pwm(run_actions(statuses)),
        off_when_published(run_actions(statuses)),
    decreases statuses.len(),
{
    if statuses.len() > 0 {
        lemma_run_keeps_order(statuses.drop_last());
        let step = step_actions(crate::ir::step_of(statuses.last()));
        lemma_parts(run_actions(statuses.drop_last()), step);
    }
}

/// Whatever the messages and whatever the sender tells: each write of the PWM configuration
/// is followed at once by the write of the pin that goes with it, and a message is sent
/// only right after the carrier was turned off.
pub proof fn law_writes_come_in_pairs(
    messages: Seq<TaskCommandView>,
    runs: Seq<Seq<SenderStatus>>,
)
    requires
        runs.len() == messages.len(),
    ensures
        pin_follows_pwm(task_actions(messages, runs)),
        off_when_published(task_actions(messages, runs)),
    decreases messages.len(),
{
    if messages.len() > 0 {
        law_writes_come_in_pairs(messages.drop_last(), runs.drop_last());
        match order_of(messages.last()) {
            Some(triple) => {
                lemma_run_keeps_order(runs.last());
                lemma_parts(seq![IrAction::Start(triple)], run_actions(runs.last()));
            },
            None => {},
        }
        lemma_parts(
            task_actions(messages.drop_last(), runs.drop_last()),
            message_actions(messages.last(), runs.last()),
        );
    }
}

/// The carrier is on after a tick if and only if the sender told so at that tick, and it is
/// off at the end of a transmission, whether the sender has become idle or has failed.
pub proof fn law_carrier_follows_sender(statuses: Seq<SenderStatus>, tick: int)
    requires
        complete(statuses),
        0 <= tick < statuses.len(),
    ensures
        run_actions(statuses)[2 * tick] == IrAction::Write(
            pwm_write(statuses[tick] == SenderStatus::Transmit(true)),
        ),
        run_actions(statuses)[2 * tick + 1] == IrAction::Write(
            pin_write(statuses[tick] == SenderStatus::Transmit(true)),
        ),
{
    let before = statuses.drop_last();
    assert forall|i: int| 0 <= i < before.len() implies #[trigger] before[i] is Transmit by {
        assert(before[i] == statuses[i]);
    }
    lemma_transmitting_is_silent(before);
    if tick < before.len() {
        lemma_carrier_while_transmitting(before, tick);
        assert(before[tick] == statuses[tick]);
    }
}

/// The carrier is on after a tick if and only if the sender told so at that tick.
proof fn lemma_carrier_while_transmitting(statuses: Seq<SenderStatus>, tick: int)
    requires
        forall|i: int| 0 <= i < statuses.len() ==> #[trigger] statuses[i] is Transmit,
        0 <= tick < statuses.len(),
    ensures
        run_actions(statuses).len() == 2 * statuses.len(),
        run_actions(statuses)[2 * tick] == IrAction::Write(
            pwm_write(statuses[tick] == SenderStatus::Transmit(true)),
        ),
        run_actions(statuses)[2 * tick + 1] == IrAction::Write(
            pin_write(statuses[tick] == SenderStatus::Transmit(true)),
        ),
    decreases statuses.len(),
{
    lemma_transmitting_is_silent(statuses);
    lemma_transmitting_is_silent(statuses.drop_last());
    if tick < statuses.len() - 1 {
        lemma_carrier_while_transmitting(statuses.drop_last(), tick);
    }
}

/// What the sender tells at the ticks of a transmission.
pub open spec fn sender_statuses(addr: u8, cmd: u8) -> Seq<SenderStatus> {
    Seq::new(
        1389,
        |i: int|
            crate::ir::after_ticks(crate::ir::transmission(addr, cmd), (i + 1) as nat).status,
    )
}

/// Every transmission comes to its end.
pub proof fn law_sender_completes(addr: u8, cmd: u8)
    ensures
        complete(sender_statuses(addr, cmd)),
{
    let statuses = sender_statuses(addr, cmd);
    crate::ir::law_transmission_ends(addr, cmd, 1389);
    assert forall|i: int| 0 <= i < statuses.len() - 1 implies #[trigger] statuses[i] is Transmit by {
        crate::ir::law_transmission_ends(addr, cmd, (i + 1) as nat);
    }
}

/// With the sender that the task puts to work, each order is started and then reported
/// once, before the next one is started, and the other messages lead to nothing.
pub proof fn law_every_order_is_reported(messages: Seq<TaskCommandView>)
    ensures
        milestones(
            task_actions(
                messages,
                messages.map_values(
                    |message: TaskCommandView|
                        match order_of(message) {
                            Some((addr, cmd, _)) => sender_statuses(addr, cmd),
                            None => Seq::empty(),
                        },
                ),
            ),
        ) == starts_and_reports(messages),
{
    let run = |message: TaskCommandView|
        match order_of(message) {
            Some((addr, cmd, _)) => sender_statuses(addr, cmd),
            None => Seq::empty(),
        };
    let runs = messages.map_values(run);
    assert forall|i: int|
        0 <= i < messages.len() && order_of(#[trigger] messages[i]) is Some implies complete(
        runs[i],
    ) by {
        let (addr, cmd, repeat) = order_of(messages[i])->0;
        law_sender_completes(addr, cmd);
    }
    law_one_report_for_each_order(messages, runs);
}

/// The order to send an address and a command starts a transmission of this address and this
/// command, which is reported at its end; no other message starts any.
pub proof fn law_orders_are_sent_as_given(
    addr: u8,
    cmd: u8,
    repeat: bool,
    message: TaskCommandView,
    statuses: Seq<SenderStatus>,
)
    requires
        complete(statuses),
    ensures
        order_of(TaskCommandView::SendIr(addr, cmd, repeat)) matches Some((a, c, r)) && a == addr
            && c == cmd && r == repeat,
        order_of(message) is Some <==> message is SendIr,
        milestones(message_actions(TaskCommandView::SendIr(addr, cmd, repeat), statuses)) == seq![
            IrAction::Start((addr, cmd, repeat)),
            IrAction::Publish(TaskCommandView::IrTxDone),
        ],
        !(message is SendIr) ==> message_actions(message, statuses).len() == 0,
{
    let start = seq![IrAction::Start((addr, cmd, repeat))];
    let pred = |action: IrAction| !(action is Write);
    reveal(Seq::filter);
    law_transmission_reports_once(statuses);
    Seq::filter_distributes_over_add(start, run_actions(statuses), pred);
    assert(start.drop_last() =~= Seq::<IrAction>::empty());
}

/// Orders for different addresses or commands give different pulses.
pub proof fn law_orders_differ_on_air(
    message: TaskCommandView,
    other: TaskCommandView,
    first: NecTriple,
    second: NecTriple,
)
    requires
        order_of(message) == Some(first),
        order_of(other) == Some(second),
        crate::ir::transmission(first.0, first.1) == crate::ir::transmission(second.0, second.1),
    ensures
        message matches TaskCommandView::SendIr(addr, cmd, _) && (
        other matches TaskCommandView::SendIr(a, c, _) && a == addr && c == cmd),
{
    crate::ir::law_transmissions_are_distinct(first.0, first.1, second.0, second.1);
}

/// The carrier has the period that is next below that of 38 kHz on a clock of 125 MHz, and
/// is on for half of it. Its pin, number eleven of a bank with eight bytes for each pin,
/// belongs to the PWM while the carrier is on and to nothing while it is off.
pub proof fn law_carrier_hardware(enable: bool)
    ensures
        pwm_write(enable) matches HardwareWrite::Pwm { enable: e, top, compare_b } && e == enable
            && 38_000 * top <= 125_000_000 < 38_000 * (top + 1) && 2 * compare_b <= top < 2 * (
        compare_b + 1),
        pin_write(enable) matches HardwareWrite::Pin { register, function } && register
            == 0x4001_4000 + 11 * 8 + 4 && (enable ==> function == 4) && (!enable ==> function
            == 0x1f),
{
}

/// The writes of a tick come before its report, each in its order, and the message is last.
pub proof fn law_duties_are_done_in_order(duties: Duties)
    ensures
        duties.actions().len() == if duties.report is Some { 5int } else { 2 },
        duties.actions()[0] == IrAction::Write(duties.writes@[0]),
        duties.actions()[1] == IrAction::Write(duties.writes@[1]),
        duties.report matches Some(report) ==> {
            &&& duties.actions()[2] == IrAction::Write(report.writes@[0])
            &&& duties.actions()[3] == IrAction::Write(report.writes@[1])
            &&& duties.actions()[4] == IrAction::Publish(report.message@)
        },
{
}

/// A step sets the carrier: first the PWM, then the pin. The end of a transmission, or its
/// failure, does so twice, with the carrier off, and then reports.
pub proof fn law_steps_set_the_carrier(step: BlasterStep, on: bool)
    ensures
        step == BlasterStep::Carrier(on) ==> step_actions(step).len() == 2,
        !(step is Carrier) ==> step_actions(step).len() == 5,
        ({
            let enable = step == BlasterStep::Carrier(true);
            let actions = step_actions(step);
            &&& actions[0] matches IrAction::Write(HardwareWrite::Pwm { enable: e, .. }) && e
                == enable
            &&& actions[1] matches IrAction::Write(HardwareWrite::Pin { function, .. }) && (function
                == 4 <==> enable) && (function == 0x1f <==> !enable)
            &&& !(step is Carrier) ==> actions[2] == actions[0] && actions[3] == actions[1]
                && actions[4] == IrAction::Publish(TaskCommandView::IrTxDone)
        }),
{
}

} // verus!
