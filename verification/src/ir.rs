//! Infrared: what the badge receives, and what it sends.
use vstd::prelude::*;

use crate::command::{TaskCommand, TaskCommandView};

verus! {

/// Address, command and repeat flag of a NEC command, in this order.
pub type NecTriple = (u8, u8, bool);

/// A NEC decoder of the crate `infrared`, fed with the edges of the receiver's signal.
#[verifier::external_body]
pub struct EdgeDecoder {
    receiver: infrared::Receiver<infrared::protocol::Nec>,
}

/// `infrared::receiver::DecodingError`: why a signal is no NEC command.
#[verifier::external_type_specification]
#[verifier::external_body]
pub struct ExDecodingError(infrared::receiver::DecodingError);

/// How many ticks of its clock a decoder counts in a second.
pub uninterp spec fn resolution(decoder: EdgeDecoder) -> u32;

/// The edges that a decoder was fed with since it was made: when each one came, in ticks
/// modulo two to the thirty-two, and whether the signal was low after it.
pub uninterp spec fn edges(decoder: EdgeDecoder) -> Seq<(u32, bool)>;

/// The command that the last of these edges completes for a decoder with this resolution,
/// if it completes one.
pub uninterp spec fn nec_decoded(resolution: u32, edges: Seq<(u32, bool)>) -> Option<
    (u8, u8, bool),
>;

impl EdgeDecoder {
    /// `infrared::Receiver::new` for the NEC protocol: a decoder with this resolution that
    /// has seen no edge.
    #[verifier::external_body]
    fn with_resolution(freq: u32) -> (decoder: Self)
        requires
            freq <= 1_000_000,
        ensures
            resolution(decoder) == freq,
            edges(decoder) == Seq::<(u32, bool)>::empty(),
    {
        EdgeDecoder { receiver: infrared::Receiver::new(freq) }
    }

    /// `infrared::Receiver::event_instant`: the decoder takes one more edge into account,
    /// and tells of the command that it completes. What it tells depends on the resolution
    /// and on all the edges since the decoder was made, and on nothing else; an error means
    /// that no command is completed. Which edges make up which command is not said here.
    #[verifier::external_body]
    fn event_instant(&mut self, ticks: u32, low: bool) -> (r: Result<
        Option<(u8, u8, bool)>,
        infrared::receiver::DecodingError,
    >)
        ensures
            resolution(*final(self)) == resolution(*old(self)),
            edges(*final(self)) == edges(*old(self)).push((ticks, low)),
            r matches Ok(command) ==> command == nec_decoded(
                resolution(*old(self)),
                edges(*old(self)).push((ticks, low)),
            ),
            r is Err ==> nec_decoded(
                resolution(*old(self)),
                edges(*old(self)).push((ticks, low)),
            ) is None,
    {
        let command = self.receiver.event_instant(ticks, low)?;
        Ok(command.map(|c| (c.addr, c.cmd, c.repeat)))
    }

    /// A decoder that counts microseconds and has seen no edge.
    pub fn new() -> (decoder: Self)
        ensures
            resolution(decoder) == 1_000_000,
            edges(decoder) == Seq::<(u32, bool)>::empty(),
    {
        EdgeDecoder::with_resolution(1_000_000)
    }

    /// Takes an edge of the receiver's signal into account: the message to send if it
    /// completes a command. `ticks` is the time in microseconds since power-up, and `low`
    /// tells whether the signal is low after the edge.
    pub fn on_edge(&mut self, ticks: u64, low: bool) -> (message: Option<TaskCommand>)
        ensures
            resolution(*final(self)) == resolution(*old(self)),
            edges(*final(self)) == edges(*old(self)).push(
                ((ticks % 0x1_0000_0000) as u32, low),
            ),
            crate::command::message_view(message) == received(
                nec_decoded(resolution(*final(self)), edges(*final(self))),
            ),
    {
        let wrapped: u32 = (ticks % 0x1_0000_0000) as u32;
        edge_message(self.event_instant(wrapped, low))
    }
}

/// The command that the decoder told of after an edge, if it told of one.
pub open spec fn completed(
    result: Result<Option<NecTriple>, infrared::receiver::DecodingError>,
) -> Option<NecTriple> {
    match result {
        Ok(decoded) => decoded,
        Err(_) => None,
    }
}

/// The message to send after the decoder has looked at an edge. An edge that completes no
/// command, and one that fits no command, lead to none.
pub fn edge_message(result: Result<Option<NecTriple>, infrared::receiver::DecodingError>) -> (message:
    Option<TaskCommand>)
    ensures
        crate::command::message_view(message) == received(completed(result)),
{
    match result {
        Ok(decoded) => received_message(decoded),
        Err(_) => None,
    }
}

/// The message that tells of a received command.
pub open spec fn received(decoded: Option<NecTriple>) -> Option<TaskCommandView> {
    match decoded {
        Some((addr, cmd, repeat)) => Some(TaskCommandView::IrCommand(addr, cmd, repeat)),
        None => None,
    }
}

/// The message that tells of a received command.
pub fn received_message(decoded: Option<NecTriple>) -> (message: Option<TaskCommand>)
    ensures
        crate::command::message_view(message) == received(decoded),
{
    match decoded {
        Some((addr, cmd, repeat)) => Some(TaskCommand::IrCommand(addr, cmd, repeat)),
        None => None,
    }
}

/// The messages that the receiver's task sends, one edge after the other.
pub open spec fn published(
    results: Seq<Result<Option<NecTriple>, infrared::receiver::DecodingError>>,
) -> Seq<TaskCommandView>
    decreases results.len(),
{
    if results.len() == 0 {
        Seq::empty()
    } else {
        let before = published(results.drop_last());
        match received(completed(results.last())) {
            Some(message) => before.push(message),
            None => before,
        }
    }
}

/// The receiver's task tells of each command that the decoder completes, in order, and of
/// nothing else: an edge that completes none, and one that fits none, add no message and
/// take none away from the edges that follow.
pub proof fn law_published_are_completed(
    results: Seq<Result<Option<NecTriple>, infrared::receiver::DecodingError>>,
)
    ensures
        published(results) == results.filter(
            |r: Result<Option<NecTriple>, infrared::receiver::DecodingError>| completed(r) is Some,
        ).map_values(
            |r: Result<Option<NecTriple>, infrared::receiver::DecodingError>|
                TaskCommandView::IrCommand(
                    (completed(r)->0).0,
                    (completed(r)->0).1,
                    (completed(r)->0).2,
                ),
        ),
    decreases results.len(),
{
    reveal(Seq::filter);
    if results.len() > 0 {
        law_published_are_completed(results.drop_last());
    }
}

/// What is sent for later results of the decoder does not depend on the earlier ones, whether
/// those were commands, nothing or errors.
pub proof fn law_published_goes_on(
    before: Seq<Result<Option<NecTriple>, infrared::receiver::DecodingError>>,
    after: Seq<Result<Option<NecTriple>, infrared::receiver::DecodingError>>,
)
    ensures
        published(before + after) == published(before) + published(after),
    decreases after.len(),
{
    if after.len() == 0 {
        assert(before + after =~= before);
    } else {
        law_published_goes_on(before, after.drop_last());
        assert((before + after).drop_last() =~= before + after.drop_last());
    }
}

/// The messages of a decoder that is fed with edges one after the other, as `on_edge` gives
/// them.
pub open spec fn messages_of_edges(
    resolution: u32,
    before: Seq<(u32, bool)>,
    fed: Seq<(u32, bool)>,
) -> Seq<TaskCommandView>
    decreases fed.len(),
{
    if fed.len() == 0 {
        Seq::empty()
    } else {
        let earlier = messages_of_edges(resolution, before, fed.drop_last());
        match received(nec_decoded(resolution, before + fed)) {
            Some(message) => earlier.push(message),
            None => earlier,
        }
    }
}

/// The messages of a series of edges are the commands that its edges complete, each given
/// all the edges up to it, in order.
pub proof fn law_messages_of_edges(
    resolution: u32,
    before: Seq<(u32, bool)>,
    fed: Seq<(u32, bool)>,
    results: Seq<Result<Option<NecTriple>, infrared::receiver::DecodingError>>,
)
    requires
        results.len() == fed.len(),
        forall|i: int|
            0 <= i < fed.len() ==> completed(#[trigger] results[i]) == nec_decoded(
                resolution,
                before + fed.take(i + 1),
            ),
    ensures
        messages_of_edges(resolution, before, fed) == published(results),
    decreases fed.len(),
{
    if fed.len() > 0 {
        let n = fed.len() - 1;
        assert(fed.take(n + 1) =~= fed);
        assert(completed(results[n]) == nec_decoded(resolution, before + fed.take(n + 1)));
        assert forall|i: int| 0 <= i < n implies completed(#[trigger] results.drop_last()[i])
            == nec_decoded(resolution, before + fed.drop_last().take(i + 1)) by {
            assert(fed.drop_last().take(i + 1) =~= fed.take(i + 1));
            assert(results.drop_last()[i] == results[i]);
        }
        law_messages_of_edges(resolution, before, fed.drop_last(), results.drop_last());
    }
}

/// How often in a second the sender looks whether the carrier has to change.
pub const FREQUENCY: u32 = 20000;

/// Whether a sender is at work, and if so, whether its carrier is on.
#[derive(Clone, Copy, Debug, PartialEq, Eq, Structural)]
pub enum SenderStatus {
    Idle,
    Transmit(bool),
    Error,
}

/// `infrared::sender::PulsedataSender`: a list of pulses, and how far it has been sent.
#[verifier::external_type_specification]
#[verifier::external_body]
pub struct ExPulsedataSender<const S: usize>(infrared::sender::PulsedataSender<S>);

/// The mathematical content of a sender.
#[verifier::ext_equal]
pub struct SenderState {
    /// How long the carrier stays as it is before each change, in ticks.
    pub pulses: Seq<u32>,
    /// How many changes have been made.
    pub changes: int,
    /// What the sender is doing.
    pub status: SenderStatus,
    /// When the last change was made.
    pub last_change: u32,
}

/// The content of a sender.
pub uninterp spec fn sender_state(
    sender: infrared::sender::PulsedataSender<128>,
) -> SenderState;

/// The carrier after one more change.
pub open spec fn flipped(status: SenderStatus) -> SenderStatus {
    match status {
        SenderStatus::Idle | SenderStatus::Transmit(false) => SenderStatus::Transmit(true),
        _ => SenderStatus::Transmit(false),
    }
}

/// How many ticks lie between two readings of a clock that wraps around.
pub open spec fn elapsed(from: u32, to: u32) -> int {
    (to - from) % 0x1_0000_0000
}

impl SenderState {
    /// A sender after it looked at its pulses at the time `now`: it changes the carrier
    /// where the next pulse is due, and is idle once there is none left.
    pub open spec fn ticked(self, now: u32) -> SenderState {
        if self.changes >= self.pulses.len() {
            SenderState { status: SenderStatus::Idle, ..self }
        } else if elapsed(self.last_change, now) >= self.pulses[self.changes] {
            SenderState {
                pulses: self.pulses,
                changes: self.changes + 1,
                status: flipped(self.status),
                last_change: now,
            }
        } else {
            self
        }
    }
}

/// Bit `k` of a NEC message: the address, its complement, the command, and its
/// complement, each from the lowest bit up.
pub open spec fn nec_bit(addr: u8, cmd: u8, k: int) -> bool {
    let byte = if k < 8 {
        addr as int
    } else if k < 16 {
        255 - addr
    } else if k < 24 {
        cmd as int
    } else {
        255 - cmd
    };
    (byte / crate::float::two_to((k % 8) as nat) as int) % 2 == 1
}

/// A duration in ticks of a clock with `freq` ticks in a second: the frequency is taken in
/// whole kilohertz, and what is left of a tick is dropped.
pub open spec fn in_ticks(microseconds: int, freq: int) -> u32 {
    (freq / 1000 * microseconds / 1000) as u32
}

/// The pulses of a NEC message in ticks of a clock with `freq` ticks in a second: the
/// carrier comes on at once, stays for nine milliseconds, pauses for four and a half, and
/// then gives for each bit a short pulse and a pause, which is longer for a one.
pub open spec fn nec_pulses(addr: u8, cmd: u8, freq: int) -> Seq<u32> {
    Seq::new(
        67,
        |i: int|
            if i == 0 {
                0
            } else if i == 1 {
                in_ticks(9000, freq)
            } else if i == 2 {
                in_ticks(4500, freq)
            } else if i % 2 == 0 && nec_bit(addr, cmd, (i - 4) / 2) {
                in_ticks(1690, freq)
            } else {
                in_ticks(560, freq)
            },
    )
}

/// `infrared::sender::PulsedataSender::new` with room for 128 pulses: all of them are
/// zero, and nothing has been sent.
#[verifier::external_body]
fn empty_sender() -> (sender: infrared::sender::PulsedataSender<128>)
    ensures
        sender_state(sender) == (SenderState {
            pulses: Seq::new(128, |i: int| 0u32),
            changes: 0,
            status: SenderStatus::Idle,
            last_change: 0,
        }),
{
    infrared::sender::PulsedataSender::new()
}

/// `infrared::sender::PulsedataSender::load_command` for the NEC protocol and `F` ticks in
/// a second: it puts the pulses of the message in front, leaves the others as they are, and
/// starts over. The repeat flag makes no difference.
#[verifier::external_body]
fn load_nec<const F: u32>(
    sender: &mut infrared::sender::PulsedataSender<128>,
    addr: u8,
    cmd: u8,
    repeat: bool,
)
    requires
        1000 < F <= 1_000_000,
    ensures
        sender_state(*final(sender)) == (SenderState {
            pulses: nec_pulses(addr, cmd, F as int) + sender_state(*old(sender)).pulses.skip(67),
            changes: 0,
            status: SenderStatus::Idle,
            last_change: 0,
        }),
{
    let command = infrared::protocol::nec::NecCommand { addr, cmd, repeat };
    sender.load_command::<infrared::protocol::Nec, F>(&command);
}

/// `infrared::sender::PulsedataSender::tick`: the sender looks at its pulses, and tells
/// what it is doing then.
#[verifier::external_body]
fn tick_sender(sender: &mut infrared::sender::PulsedataSender<128>, now: u32) -> (status:
    SenderStatus)
    ensures
        sender_state(*final(sender)) == sender_state(*old(sender)).ticked(now),
        status == sender_state(*final(sender)).status,
{
    match sender.tick(now) {
        infrared::sender::Status::Idle => SenderStatus::Idle,
        infrared::sender::Status::Transmit(on) => SenderStatus::Transmit(on),
        infrared::sender::Status::Error => SenderStatus::Error,
    }
}

/// What the infrared task has to do next.
#[derive(Clone, Copy, Debug, PartialEq, Eq, Structural)]
pub enum BlasterStep {
    /// Turn the carrier on or off, and go on at the next tick.
    Carrier(bool),
    /// Turn the carrier off: the transmission is over.
    Done,
    /// Turn the carrier off: the sender has failed, which ends the transmission too.
    Failed,
}

/// What is to be done when the sender has told what it is doing: an idle sender and one
/// that has failed both end the transmission.
pub open spec fn step_of(status: SenderStatus) -> BlasterStep {
    match status {
        SenderStatus::Transmit(on) => BlasterStep::Carrier(on),
        SenderStatus::Idle => BlasterStep::Done,
        SenderStatus::Error => BlasterStep::Failed,
    }
}

/// What is to be done when the sender has told what it is doing.
pub fn blaster_step(status: SenderStatus) -> (step: BlasterStep)
    ensures
        step == step_of(status),
{
    match status {
        SenderStatus::Transmit(on) => BlasterStep::Carrier(on),
        SenderStatus::Idle => BlasterStep::Done,
        SenderStatus::Error => BlasterStep::Failed,
    }
}

/// A transmission.
pub struct IrBlaster {
    pub sender: infrared::sender::PulsedataSender<128>,
    /// How many ticks there have been, modulo two to the thirty-two.
    pub counter: u32,
}

/// All the pulses of a transmission: what is left of the sender's room gives changes at
/// every tick.
pub open spec fn transmission(addr: u8, cmd: u8) -> Seq<u32> {
    nec_pulses(addr, cmd, FREQUENCY as int) + Seq::new(61, |i: int| 0u32)
}

impl IrBlaster {
    /// The content of the sender.
    pub open spec fn state(self) -> SenderState {
        sender_state(self.sender)
    }

    /// Whether this is a transmission of these pulses after so many ticks.
    pub open spec fn has_ticked(self, pulses: Seq<u32>, ticks: nat) -> bool {
        self.state() == after_ticks(pulses, ticks) && self.counter == ticks % 0x1_0000_0000
    }

    /// Prepares a transmission.
    pub fn start(addr: u8, cmd: u8, repeat: bool) -> (blaster: Self)
        ensures
            blaster.counter == 0,
            blaster.state() == beginning(transmission(addr, cmd)),
            blaster.has_ticked(transmission(addr, cmd), 0),
    {
        let mut sender = empty_sender();
        load_nec::<FREQUENCY>(&mut sender, addr, cmd, repeat);
        assert(sender_state(sender).pulses =~= transmission(addr, cmd));
        IrBlaster { sender, counter: 0 }
    }

    /// Goes on by one tick.
    pub fn tick(&mut self) -> (step: BlasterStep)
        ensures
            final(self).state() == old(self).state().ticked(old(self).counter),
            final(self).counter == (old(self).counter + 1) % 0x1_0000_0000,
            step == step_of(final(self).state().status),
            forall|pulses: Seq<u32>, ticks: nat| #[trigger]
                old(self).has_ticked(pulses, ticks) ==> final(self).has_ticked(pulses, ticks + 1),
    {
        let status = tick_sender(&mut self.sender, self.counter);
        self.counter = self.counter.wrapping_add(1);
        blaster_step(status)
    }
}

/// A sender that is about to send pulses.
pub open spec fn beginning(pulses: Seq<u32>) -> SenderState {
    SenderState { pulses, changes: 0, status: SenderStatus::Idle, last_change: 0 }
}

/// A sender of these pulses after so many ticks, counted from zero.
pub open spec fn after_ticks(pulses: Seq<u32>, ticks: nat) -> SenderState
    decreases ticks,
{
    if ticks == 0 {
        beginning(pulses)
    } else {
        after_ticks(pulses, (ticks - 1) as nat).ticked(((ticks - 1) % 0x1_0000_0000) as u32)
    }
}

/// The tick of change number `k`: each change waits for its pulse, and at least for the
/// next tick.
pub open spec fn change_time(pulses: Seq<u32>, k: nat) -> nat
    decreases k,
{
    if k == 0 {
        0
    } else if pulses[k as int] == 0 {
        change_time(pulses, (k - 1) as nat) + 1
    } else {
        change_time(pulses, (k - 1) as nat) + pulses[k as int] as nat
    }
}

/// The carrier follows the pulses: from change `k` until the next one it is on if `k` is
/// even and off if `k` is odd, and it is never idle until the tick after the last change.
pub proof fn law_carrier_follows_pulses(pulses: Seq<u32>, tick: nat, k: nat)
    requires
        0 <= k < pulses.len(),
        pulses[0] == 0,
        tick < 0xffff_ffff,
        change_time(pulses, k) <= tick,
        k + 1 < pulses.len() ==> tick < change_time(pulses, k + 1),
    ensures
        after_ticks(pulses, tick + 1).pulses == pulses,
        after_ticks(pulses, tick + 1).changes == k + 1,
        after_ticks(pulses, tick + 1).last_change == change_time(pulses, k),
        after_ticks(pulses, tick + 1).status == if k + 1 < pulses.len() || tick == change_time(
            pulses,
            k,
        ) {
            SenderStatus::Transmit(k % 2 == 0)
        } else {
            SenderStatus::Idle
        },
    decreases tick,
{
    let before = after_ticks(pulses, tick);
    assert(after_ticks(pulses, tick + 1) == before.ticked(tick as u32));
    if tick == change_time(pulses, k) {
        if k == 0 {
            assert(before == beginning(pulses));
        } else {
            law_carrier_follows_pulses(pulses, (tick - 1) as nat, (k - 1) as nat);
            assert(elapsed(before.last_change, tick as u32) == tick - change_time(
                pulses,
                (k - 1) as nat,
            ));
        }
    } else {
        law_carrier_follows_pulses(pulses, (tick - 1) as nat, k);
        assert(elapsed(before.last_change, tick as u32) == tick - change_time(pulses, k));
    }
}

/// A bit and its complement differ.
proof fn lemma_complement_differs(byte: u8, j: nat)
    requires
        j < 8,
    ensures
        (byte as int / crate::float::two_to(j) as int) % 2 + ((255 - byte)
            / crate::float::two_to(j) as int) % 2 == 1,
{
    reveal_with_fuel(crate::float::two_to, 8);
    assert((byte / 1) % 2 + ((255 - byte) as u8 / 1) % 2 == 1) by (bit_vector);
    assert((byte / 2) % 2 + ((255 - byte) as u8 / 2) % 2 == 1) by (bit_vector);
    assert((byte / 4) % 2 + ((255 - byte) as u8 / 4) % 2 == 1) by (bit_vector);
    assert((byte / 8) % 2 + ((255 - byte) as u8 / 8) % 2 == 1) by (bit_vector);
    assert((byte / 16) % 2 + ((255 - byte) as u8 / 16) % 2 == 1) by (bit_vector);
    assert((byte / 32) % 2 + ((255 - byte) as u8 / 32) % 2 == 1) by (bit_vector);
    assert((byte / 64) % 2 + ((255 - byte) as u8 / 64) % 2 == 1) by (bit_vector);
    assert((byte / 128) % 2 + ((255 - byte) as u8 / 128) % 2 == 1) by (bit_vector);
}

/// How many ticks the pause after bit `k` takes.
#[verifier::opaque]
pub open spec fn pause(addr: u8, cmd: u8, k: int) -> nat {
    if nec_bit(addr, cmd, k) {
        33
    } else {
        11
    }
}

/// How many ticks the pauses of the first `n` bits take.
pub open spec fn pauses(addr: u8, cmd: u8, n: nat) -> nat
    decreases n,
{
    if n == 0 {
        0
    } else {
        pauses(addr, cmd, (n - 1) as nat) + pause(addr, cmd, n - 1)
    }
}

/// The pauses after a bit and after its complement are a long one and a short one.
proof fn lemma_pause_pair(addr: u8, cmd: u8, j: int)
    requires
        0 <= j < 8,
    ensures
        pause(addr, cmd, j) + pause(addr, cmd, j + 8) == 44,
        pause(addr, cmd, j + 16) + pause(addr, cmd, j + 24) == 44,
{
    reveal(pause);
    lemma_complement_differs(addr, j as nat);
    lemma_complement_differs(cmd, j as nat);
}

/// Half of the pauses are long.
proof fn lemma_pauses(addr: u8, cmd: u8)
    ensures
        pauses(addr, cmd, 32) == 16 * 33 + 16 * 11,
{
    reveal_with_fuel(pauses, 33);
    lemma_pause_pair(addr, cmd, 0);
    lemma_pause_pair(addr, cmd, 1);
    lemma_pause_pair(addr, cmd, 2);
    lemma_pause_pair(addr, cmd, 3);
    lemma_pause_pair(addr, cmd, 4);
    lemma_pause_pair(addr, cmd, 5);
    lemma_pause_pair(addr, cmd, 6);
    lemma_pause_pair(addr, cmd, 7);
}

/// When the pause after bit `n - 1` of a message is over.
proof fn lemma_bit_time(addr: u8, cmd: u8, n: nat)
    requires
        n <= 32,
    ensures
        change_time(transmission(addr, cmd), 2 + 2 * n) == 270 + 11 * n + pauses(addr, cmd, n),
    decreases n,
{
    let pulses = transmission(addr, cmd);
    reveal_with_fuel(change_time, 3);
    if n > 0 {
        lemma_bit_time(addr, cmd, (n - 1) as nat);
        let i = 2 + 2 * n;
        assert(pulses[i - 1] == nec_pulses(addr, cmd, FREQUENCY as int)[i - 1]);
        assert(pulses[i as int] == nec_pulses(addr, cmd, FREQUENCY as int)[i as int]);
        assert((i - 4) / 2 == n - 1);
        assert(pulses[i as int] == pause(addr, cmd, n - 1)) by {
            reveal(pause);
        }
    } else {
        assert(pulses[1] == nec_pulses(addr, cmd, FREQUENCY as int)[1]);
        assert(pulses[2] == nec_pulses(addr, cmd, FREQUENCY as int)[2]);
    }
}

/// The changes that follow the message come at every tick.
proof fn lemma_tail_time(addr: u8, cmd: u8, n: nat)
    requires
        n <= 61,
    ensures
        change_time(transmission(addr, cmd), 66 + n) == change_time(transmission(addr, cmd), 66)
            + n,
    decreases n,
{
    if n > 0 {
        lemma_tail_time(addr, cmd, (n - 1) as nat);
        assert(transmission(addr, cmd)[(66 + n) as int] == 0);
    }
}

/// A transmission lasts 1387 ticks, whatever is sent: after so many ticks and one more the
/// last change has been made, and the next tick finds the sender idle and ends the
/// transmission.
pub proof fn law_transmission_ends(addr: u8, cmd: u8, ticks: nat)
    requires
        1 <= ticks <= 1389,
    ensures
        after_ticks(transmission(addr, cmd), ticks).status is Transmit <==> ticks <= 1388,
        after_ticks(transmission(addr, cmd), ticks).status is Idle <==> ticks == 1389,
{
    let pulses = transmission(addr, cmd);
    lemma_pauses(addr, cmd);
    lemma_bit_time(addr, cmd, 32);
    lemma_tail_time(addr, cmd, 61);
    assert(pulses[0] == nec_pulses(addr, cmd, FREQUENCY as int)[0]);
    let tick = (ticks - 1) as nat;
    let k = lemma_current_change(pulses, tick);
    if k + 1 < 128 {
        lemma_change_time_monotone(pulses, k + 1, 127);
    }
    law_carrier_follows_pulses(pulses, tick, k);
}

/// A later change comes at a later tick, or at the same.
proof fn lemma_change_time_monotone(pulses: Seq<u32>, a: nat, b: nat)
    requires
        a <= b,
    ensures
        change_time(pulses, a) <= change_time(pulses, b),
    decreases b,
{
    if a < b {
        lemma_change_time_monotone(pulses, a, (b - 1) as nat);
    }
}

/// Finds the last change that a tick has seen.
proof fn lemma_current_change(pulses: Seq<u32>, tick: nat) -> (k: nat)
    requires
        pulses.len() > 0,
    ensures
        k < pulses.len(),
        change_time(pulses, k) <= tick,
        k + 1 < pulses.len() ==> tick < change_time(pulses, k + 1),
    decreases tick,
{
    if tick == 0 {
        0
    } else {
        let k = lemma_current_change(pulses, (tick - 1) as nat);
        if k + 1 < pulses.len() && tick >= change_time(pulses, k + 1) {
            k + 1
        } else {
            k
        }
    }
}

/// A completed command is told with its own address, command and repeat flag; an unfinished
/// one and an error are not told at all.
pub proof fn law_completed_commands_are_told(
    addr: u8,
    cmd: u8,
    repeat: bool,
    error: infrared::receiver::DecodingError,
)
    ensures
        received(completed(Ok(Some((addr, cmd, repeat))))) matches Some(
            TaskCommandView::IrCommand(a, c, r),
        ) && a == addr && c == cmd && r == repeat,
        received(completed(Ok(None))) is None,
        received(completed(Err(error))) is None,
{
}

/// What a sender tells decides alone what is to be done: a carrier that is to be on or off
/// is set so, and a transmission goes on as long as the sender transmits. Only a sender that
/// has failed makes the transmission fail.
pub proof fn law_steps_follow_the_sender(status: SenderStatus, on: bool)
    ensures
        step_of(SenderStatus::Transmit(on)) matches BlasterStep::Carrier(v) && v == on,
        step_of(status) is Carrier <==> status is Transmit,
        step_of(status) is Done <==> status is Idle,
        step_of(status) is Failed <==> status is Error,
{
}

/// A transmission begins with nine milliseconds of carrier and a pause of half of that. Then
/// each bit is a short pulse and a pause, which is three times as long for a one as for a
/// zero: the bits of the address from the lowest up, their complements, the bits of the
/// command, and their complements. The rest of the sender's room is zero.
pub proof fn law_pulses_spell_the_command(addr: u8, cmd: u8, k: int)
    requires
        0 <= k < 8,
    ensures
        ({
            let pulses = transmission(addr, cmd);
            let weight = crate::float::two_to(k as nat) as int;
            let address_bit = (addr as int / weight) % 2 == 1;
            let command_bit = (cmd as int / weight) % 2 == 1;
            // twenty ticks make a millisecond
            &&& FREQUENCY == 20 * 1000
            &&& pulses.len() == 128
            &&& pulses[0] == 0 && pulses[1] == 9 * 20 && 2 * pulses[2] == pulses[1]
            &&& pulses[4 + 2 * k] == if address_bit { 33u32 } else { 11 }
            &&& pulses[20 + 2 * k] == if address_bit { 11u32 } else { 33 }
            &&& pulses[36 + 2 * k] == if command_bit { 33u32 } else { 11 }
            &&& pulses[52 + 2 * k] == if command_bit { 11u32 } else { 33 }
            &&& pulses[3 + 2 * k] == 11 && pulses[19 + 2 * k] == 11 && pulses[35 + 2 * k] == 11
                && pulses[51 + 2 * k] == 11
            &&& forall|i: int| 67 <= i < 128 ==> #[trigger] pulses[i] == 0
        }),
{
    let pulses = transmission(addr, cmd);
    let message = nec_pulses(addr, cmd, FREQUENCY as int);
    lemma_complement_differs(addr, k as nat);
    lemma_complement_differs(cmd, k as nat);
    assert forall|i: int| 0 <= i < 67 implies #[trigger] pulses[i] == message[i] by {}
    assert((4 + 2 * k - 4) / 2 == k);
    assert((20 + 2 * k - 4) / 2 == k + 8);
    assert((36 + 2 * k - 4) / 2 == k + 16);
    assert((52 + 2 * k - 4) / 2 == k + 24);
    assert((k + 8) % 8 == k && (k + 16) % 8 == k && (k + 24) % 8 == k && k % 8 == k);
}

/// Two transmissions with the same pulses carry the same address and the same command.
pub proof fn law_transmissions_are_distinct(addr: u8, cmd: u8, other_addr: u8, other_cmd: u8)
    requires
        transmission(addr, cmd) == transmission(other_addr, other_cmd),
    ensures
        addr == other_addr,
        cmd == other_cmd,
{
    assert forall|k: int| 0 <= k < 8 implies (addr as int / crate::float::two_to(
        k as nat,
    ) as int) % 2 == (other_addr as int / #[trigger] crate::float::two_to(k as nat) as int) % 2 && (
    cmd as int / crate::float::two_to(k as nat) as int) % 2 == (other_cmd as int
        / crate::float::two_to(k as nat) as int) % 2 by {
        law_pulses_spell_the_command(addr, cmd, k);
        law_pulses_spell_the_command(other_addr, other_cmd, k);
    }
    lemma_same_bits(addr, other_addr);
    lemma_same_bits(cmd, other_cmd);
}

/// Bytes with the same bits are the same.
proof fn lemma_same_bits(a: u8, b: u8)
    requires
        forall|k: int|
            0 <= k < 8 ==> (a as int / crate::float::two_to(k as nat) as int) % 2 == (b as int
                / #[trigger] crate::float::two_to(k as nat) as int) % 2,
    ensures
        a == b,
{
    assert(crate::float::two_to(0) == 1 && crate::float::two_to(1) == 2 && crate::float::two_to(2)
        == 4 && crate::float::two_to(3) == 8 && crate::float::two_to(4) == 16
        && crate::float::two_to(5) == 32 && crate::float::two_to(6) == 64 && crate::float::two_to(7)
        == 128) by {
        reveal_with_fuel(crate::float::two_to, 8);
    }
    assert((a / 1) % 2 == (b / 1) % 2);
    assert((a / 2) % 2 == (b / 2) % 2);
    assert((a / 4) % 2 == (b / 4) % 2);
    assert((a / 8) % 2 == (b / 8) % 2);
    assert((a / 16) % 2 == (b / 16) % 2);
    assert((a / 32) % 2 == (b / 32) % 2);
    assert((a / 64) % 2 == (b / 64) % 2);
    assert((a as int / crate::float::two_to(7int as nat) as int) % 2 == (b as int
        / crate::float::two_to(7int as nat) as int) % 2);
    assert((a / 128) % 2 == (b / 128) % 2);
    assert(a == b) by (bit_vector)
        requires
            (a / 1) % 2 == (b / 1) % 2,
            (a / 2) % 2 == (b / 2) % 2,
            (a / 4) % 2 == (b / 4) % 2,
            (a / 8) % 2 == (b / 8) % 2,
            (a / 16) % 2 == (b / 16) % 2,
            (a / 32) % 2 == (b / 32) % 2,
            (a / 64) % 2 == (b / 64) % 2,
            (a / 128) % 2 == (b / 128) % 2,
    ;
}

} // verus!
