use antani_sw::blaster::{carrier_writes, carry_out, to_send, Duties, HardwareWrite, IrTask};
use antani_sw::button::{release, ButtonEvent, ButtonState};
use antani_sw::command::TaskCommand;
use antani_sw::float::F32;
use antani_sw::ir::{
    blaster_step, edge_message, received_message, BlasterStep, EdgeDecoder, IrBlaster, SenderStatus,
};
use antani_sw::thermal::{on_reading, throttle, throttle_message};
use infrared::receiver::DecodingError;

fn floating_point_throttle(reading: u16) -> Option<u32> {
    let adc_voltage = (3.3 / 4096.0) * reading as f64;
    let temp_degrees_c = 27.0 - (adc_voltage - 0.706) / 0.001721;
    if temp_degrees_c > 50.0 {
        let gain: f64 = 1.0 - 0.9 * (temp_degrees_c - 55.0) / 10.0;
        let gain = gain.clamp(0.0, 1.0);
        Some((gain as f32).to_bits())
    } else {
        None
    }
}

#[test]
fn throttle_agrees_with_floating_point_on_every_reading() {
    for reading in 0..=u16::MAX {
        let bits = throttle(reading).map(|gain| gain.bits);
        assert_eq!(bits, floating_point_throttle(reading), "{}", reading);
    }
}

#[test]
fn exact_throttling() {
    assert_eq!(throttle(876), None);
    assert_eq!(throttle(828), None);
    assert_eq!(throttle(827), Some(F32 { bits: 1.0f32.to_bits() }));
    assert_eq!(throttle(817), Some(F32 { bits: 1.0f32.to_bits() }));
    assert_eq!(throttle(816), Some(F32 { bits: 0x3f7a_c6f5 }));
    assert_eq!(throttle(796), Some(F32 { bits: 0x3e0c_3d00 }));
    assert_eq!(throttle(795), Some(F32 { bits: 0x3dc2_3084 }));
    assert_eq!(throttle(794), Some(F32 { bits: 0x3d57_ce11 }));
    assert_eq!(throttle(793), Some(F32 { bits: 0x3c2c_ec68 }));
    assert_eq!(throttle(792), Some(F32 { bits: 0 }));
    assert_eq!(throttle(0), Some(F32 { bits: 0 }));
}

#[test]
fn throttle_messages() {
    assert!(throttle_message(900).is_none());
    match throttle_message(800) {
        Some(TaskCommand::ThermalThrottleMultiplier(gain)) => {
            assert_eq!(gain, F32 { bits: 0x3e9c_67fc })
        }
        other => panic!("{:?}", other),
    }
}

#[test]
fn readings_of_the_temperature() {
    let failed = on_reading(None);
    assert!(failed.message.is_none());
    assert!(!failed.wait);
    let cool = on_reading(Some(900));
    assert!(cool.message.is_none());
    assert!(cool.wait);
    let hot = on_reading(Some(800));
    assert!(matches!(
        hot.message,
        Some(TaskCommand::ThermalThrottleMultiplier(F32 { bits: 0x3e9c_67fc }))
    ));
    assert!(hot.wait);
}

#[test]
fn a_tenth_is_left_at_65_degrees() {
    // 65 degrees lie between these two readings
    let hotter = f32::from_bits(throttle(795).unwrap().bits);
    let cooler = f32::from_bits(throttle(796).unwrap().bits);
    assert!(hotter < 0.1 && 0.1 < cooler);
}

#[test]
fn hotter_is_never_throttled_less() {
    for reading in 0..827u16 {
        let hotter = f32::from_bits(throttle(reading).unwrap().bits);
        let cooler = f32::from_bits(throttle(reading + 1).unwrap().bits);
        assert!(0.0 <= hotter && hotter <= cooler && cooler <= 1.0);
    }
}

#[test]
fn durations_of_presses() {
    assert!(release(0).is_none());
    assert!(release(49_999).is_none());
    assert!(matches!(release(50_000), Some(TaskCommand::ShortButtonPress)));
    assert!(matches!(release(999_999), Some(TaskCommand::ShortButtonPress)));
    assert!(release(1_000_000).is_none());
}

#[test]
fn a_short_press() {
    let mut button = ButtonState::Up;
    assert!(button.step(ButtonEvent::Pressed(7_000)).is_none());
    assert_eq!(button, ButtonState::Down(7_000));
    let message = button.step(ButtonEvent::Released(307_000));
    assert!(matches!(message, Some(TaskCommand::ShortButtonPress)));
    assert_eq!(button, ButtonState::Up);
}

#[test]
fn a_bounce() {
    let mut button = ButtonState::Up;
    assert!(button.step(ButtonEvent::Pressed(7_000)).is_none());
    assert!(button.step(ButtonEvent::Released(47_000)).is_none());
    assert_eq!(button, ButtonState::Up);
}

#[test]
fn a_long_press() {
    let mut button = ButtonState::Up;
    assert!(button.step(ButtonEvent::Pressed(7_000)).is_none());
    let message = button.step(ButtonEvent::TimedOut);
    assert!(matches!(message, Some(TaskCommand::LongButtonPress)));
    assert_eq!(button, ButtonState::Held(7_000));
    assert!(button.step(ButtonEvent::Released(5_007_000)).is_none());
    assert_eq!(button, ButtonState::Up);
}

#[test]
fn unexpected_events_of_the_button() {
    let mut button = ButtonState::Up;
    assert!(button.step(ButtonEvent::Released(1)).is_none());
    assert!(button.step(ButtonEvent::TimedOut).is_none());
    assert_eq!(button, ButtonState::Up);
    assert!(button.step(ButtonEvent::Pressed(1)).is_none());
    assert!(button.step(ButtonEvent::Pressed(9)).is_none());
    assert_eq!(button, ButtonState::Down(1));
}

#[test]
fn messages_of_the_receiver() {
    assert!(received_message(None).is_none());
    assert!(matches!(
        received_message(Some((3, 9, true))),
        Some(TaskCommand::IrCommand(3, 9, true))
    ));
}

#[test]
fn messages_of_a_series_of_edges() {
    let results = [
        Ok(None),
        Ok(Some((0, 70, false))),
        Err(DecodingError::Data),
        Ok(None),
        Err(DecodingError::Address),
        Ok(Some((3, 9, true))),
        Ok(Some((3, 9, true))),
        Ok(None),
    ];
    let mut published = Vec::new();
    for result in results {
        if let Some(message) = edge_message(result) {
            published.push(message);
        }
    }
    assert!(matches!(
        published[..],
        [
            TaskCommand::IrCommand(0, 70, false),
            TaskCommand::IrCommand(3, 9, true),
            TaskCommand::IrCommand(3, 9, true)
        ]
    ));
}

#[test]
fn orders_for_the_sender() {
    assert_eq!(to_send(&TaskCommand::SendIr(1, 2, true)), Some((1, 2, true)));
    assert_eq!(to_send(&TaskCommand::IrCommand(1, 2, true)), None);
    assert_eq!(to_send(&TaskCommand::IrTxDone), None);
}

#[test]
fn writes_of_the_carrier() {
    assert_eq!(
        carrier_writes(true),
        [
            HardwareWrite::Pwm { enable: true, top: 3289, compare_b: 1644 },
            HardwareWrite::Pin { register: 0x4001405c, function: 4 },
        ]
    );
    assert_eq!(
        carrier_writes(false),
        [
            HardwareWrite::Pwm { enable: false, top: 3289, compare_b: 1644 },
            HardwareWrite::Pin { register: 0x4001405c, function: 0x1f },
        ]
    );
}

/// Whether the carrier is on after these writes.
fn carrier_after(duties: &Duties) -> bool {
    match duties.writes {
        [HardwareWrite::Pwm { enable, .. }, HardwareWrite::Pin { function, .. }] => {
            assert_eq!(function, if enable { 4 } else { 0x1f });
            enable
        }
        other => panic!("{:?}", other),
    }
}

#[test]
fn a_sender_that_fails_or_is_idle_ends_the_transmission() {
    for last in [SenderStatus::Error, SenderStatus::Idle] {
        let mut flags = Vec::new();
        let mut published = Vec::new();
        for status in [SenderStatus::Transmit(true), last] {
            let duties = carry_out(blaster_step(status));
            flags.push(carrier_after(&duties));
            if let Some(report) = duties.report {
                assert_eq!(report.writes, carrier_writes(false));
                assert_eq!(report.failed, last == SenderStatus::Error);
                published.push(report.message);
            }
        }
        assert_eq!(flags, [true, false]);
        assert!(matches!(published[..], [TaskCommand::IrTxDone]));
    }
    assert_eq!(blaster_step(SenderStatus::Transmit(false)), BlasterStep::Carrier(false));
    assert_eq!(blaster_step(SenderStatus::Idle), BlasterStep::Done);
    assert_eq!(blaster_step(SenderStatus::Error), BlasterStep::Failed);
}

#[test]
fn each_order_is_reported_once() {
    let messages = [
        TaskCommand::NextPattern,
        TaskCommand::SendIr(0, 66, false),
        TaskCommand::IrTxDone,
        TaskCommand::SendIr(90, 165, true),
        TaskCommand::IrCommand(1, 2, false),
    ];
    let mut task = IrTask::new();
    let mut events = Vec::new();
    for message in messages {
        if task.on_message(&message) {
            events.push("start");
        }
        let mut on = true;
        while task.sending.is_some() {
            let duties = task.on_tick();
            on = carrier_after(&duties);
            if let Some(report) = duties.report {
                assert!(matches!(report.message, TaskCommand::IrTxDone));
                assert_eq!(report.writes, carrier_writes(false));
                assert!(!report.failed);
                assert!(!on);
                assert!(task.sending.is_none());
                events.push("done");
            }
        }
        assert_eq!(on, to_send(&message).is_none());
    }
    assert_eq!(events, ["start", "done", "start", "done"]);
}

/// The carrier at each tick until the transmission is over.
fn carrier(addr: u8, cmd: u8, repeat: bool) -> Vec<bool> {
    let mut blaster = IrBlaster::start(addr, cmd, repeat);
    let mut levels = Vec::new();
    loop {
        match blaster.tick() {
            BlasterStep::Carrier(on) => levels.push(on),
            BlasterStep::Done => return levels,
            BlasterStep::Failed => panic!(),
        }
    }
}

#[test]
fn a_transmission_begins_with_the_header() {
    let levels = carrier(0, 66, false);
    assert!(levels[..180].iter().all(|on| *on));
    assert!(levels[180..270].iter().all(|on| !*on));
    assert!(levels[270..281].iter().all(|on| *on));
    // the lowest bit of the address is a zero
    assert!(levels[281..292].iter().all(|on| !*on));
    assert!(levels[292]);
}

#[test]
fn every_transmission_lasts_equally_long() {
    for addr in 0..=255u8 {
        for cmd in [0u8, 1, 66, 127, 200, 255] {
            assert_eq!(carrier(addr, cmd, false).len(), 1388);
        }
    }
}

#[test]
fn a_transmission_agrees_with_the_pulses() {
    for (addr, cmd) in [(0u8, 66u8), (0, 70), (170, 85), (255, 0), (1, 128)] {
        let bits = (addr as u32)
            | ((!addr) as u32) << 8
            | (cmd as u32) << 16
            | ((!cmd) as u32) << 24;
        let mut expected = Vec::new();
        expected.extend(vec![true; 180]);
        expected.extend(vec![false; 90]);
        for i in 0..32 {
            expected.extend(vec![true; 11]);
            let pause = if (bits >> i) & 1 == 1 { 33 } else { 11 };
            expected.extend(vec![false; pause]);
        }
        for i in 0..62 {
            expected.push(i % 2 == 0);
        }
        assert_eq!(carrier(addr, cmd, false), expected);
        assert_eq!(carrier(addr, cmd, true), expected);
    }
}

/// Feeds the carrier of one badge to the receiver of another.
fn receive(decoder: &mut EdgeDecoder, levels: &[bool], start: u64) -> Vec<TaskCommand> {
    let mut messages = Vec::new();
    let mut on = false;
    for i in 0..levels.len() {
        if levels[i] != on {
            on = levels[i];
            if let Some(message) = decoder.on_edge(start + 50 * i as u64, on) {
                messages.push(message);
            }
        }
    }
    messages
}

#[test]
fn one_badge_receives_what_another_sends() {
    for (addr, cmd) in [(0u8, 66u8), (0, 67), (0, 68), (0, 69), (0, 70), (90, 165)] {
        let mut decoder = EdgeDecoder::new();
        let messages = receive(&mut decoder, &carrier(addr, cmd, false), 1_000_000);
        assert_eq!(messages.len(), 1);
        match messages[0] {
            TaskCommand::IrCommand(a, c, repeat) => assert_eq!((a, c, repeat), (addr, cmd, false)),
            _ => panic!("{:?}", messages),
        }
    }
}

#[test]
fn the_clock_of_the_receiver_wraps() {
    let mut decoder = EdgeDecoder::new();
    let messages = receive(&mut decoder, &carrier(0, 66, false), 0x5_0000_0000);
    assert!(matches!(messages[..], [TaskCommand::IrCommand(0, 66, false)]));
}

#[test]
fn noise_is_no_command() {
    let mut decoder = EdgeDecoder::new();
    for i in 0..200u64 {
        assert!(decoder.on_edge(3_000 * i, i % 2 == 0).is_none());
    }
}

#[test]
fn a_spoiled_transmission_is_no_command() {
    let mut levels = carrier(0, 66, false);
    for i in 400..700 {
        levels[i] = false;
    }
    let mut decoder = EdgeDecoder::new();
    assert!(receive(&mut decoder, &levels, 1_000_000).is_empty());
}

#[test]
fn noise_between_commands_takes_none_away() {
    let mut decoder = EdgeDecoder::new();
    let mut messages = receive(&mut decoder, &carrier(0, 66, false), 1_000_000);
    for i in 0..41u64 {
        let noise = decoder.on_edge(2_000_000 + 3_000 * i, i % 2 == 0);
        assert!(noise.is_none());
    }
    messages.extend(receive(&mut decoder, &carrier(0, 70, false), 3_000_000));
    messages.extend(receive(&mut decoder, &carrier(0, 70, false), 4_000_000));
    assert!(matches!(
        messages[..],
        [TaskCommand::IrCommand(0, 66, false), .., TaskCommand::IrCommand(0, 70, false)]
    ));
}
