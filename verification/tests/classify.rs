//! Classification and size-validation properties: every covered
//! discriminant reaches its concrete kind, every uncovered one is a
//! conversion error carrying the rejected code, and every mis-sized
//! buffer is a size error carrying both bit counts.

use midi_2_protocol::message::system::common::Common;
use midi_2_protocol::message::system::common::MIDITimeCode;
use midi_2_protocol::message::system::real_time::RealTime;
use midi_2_protocol::message::system::real_time::TimingClock;
use midi_2_protocol::message::system::System;
use midi_2_protocol::message::voice::Note;
use midi_2_protocol::message::voice::NoteOn;
use midi_2_protocol::message::voice::Velocity;
use midi_2_protocol::message::voice::Voice;
use midi_2_protocol::message::Message;
use midi_2_protocol::Error;

fn classify(words: Vec<u32>) -> Result<Message, Error> {
    Message::try_from_packet(words)
}

#[test]
fn every_covered_system_status_classifies() {
    let cases: Vec<(u32, fn(&RealTime) -> bool)> = vec![
        (0xf8, |rt| matches!(rt, RealTime::TimingClock(_))),
        (0xfa, |rt| matches!(rt, RealTime::Start(_))),
        (0xfb, |rt| matches!(rt, RealTime::Continue(_))),
        (0xfc, |rt| matches!(rt, RealTime::Stop(_))),
        (0xfe, |rt| matches!(rt, RealTime::ActiveSensing(_))),
        (0xff, |rt| matches!(rt, RealTime::Reset(_))),
    ];
    for (status, check) in cases {
        let word = 0x10000000u32 | (status << 16);
        match classify(vec![word]).unwrap() {
            Message::System(System::RealTime(ref rt)) => assert!(check(rt)),
            _ => panic!("status {status:#x} classified wrongly"),
        }
    }
    match classify(vec![0x10f10000]).unwrap() {
        Message::System(System::Common(Common::MIDITimeCode(_))) => {},
        _ => panic!("MIDI Time Code classified wrongly"),
    }
}

#[test]
fn uncovered_common_statuses_are_conversion_errors() {
    // defined Common statuses whose kinds the codec does not cover
    for status in [0xf2u32, 0xf3, 0xf6] {
        let word = 0x10000000u32 | (status << 16);
        assert_eq!(classify(vec![word]).unwrap_err(), Error::Conversion(status as u8));
    }
}

#[test]
fn undefined_system_statuses_are_conversion_errors() {
    for status in [0x00u32, 0x42, 0xf0, 0xf4, 0xf5, 0xf7, 0xf9, 0xfd] {
        let word = 0x10000000u32 | (status << 16);
        assert_eq!(classify(vec![word]).unwrap_err(), Error::Conversion(status as u8));
    }
}

#[test]
fn every_covered_opcode_classifies() {
    let cases: Vec<(u32, fn(&Voice) -> bool)> = vec![
        (0x0, |v| matches!(v, Voice::RegisteredPerNoteController(_))),
        (0x1, |v| matches!(v, Voice::AssignablePerNoteController(_))),
        (0x2, |v| matches!(v, Voice::RegisteredController(_))),
        (0x3, |v| matches!(v, Voice::AssignableController(_))),
        (0x4, |v| matches!(v, Voice::RelativeRegisteredController(_))),
        (0x5, |v| matches!(v, Voice::RelativeAssignableController(_))),
        (0x6, |v| matches!(v, Voice::PerNotePitchBend(_))),
        (0x8, |v| matches!(v, Voice::NoteOff(_))),
        (0x9, |v| matches!(v, Voice::NoteOn(_))),
    ];
    for (op, check) in cases {
        let word = 0x40000000u32 | (op << 20);
        match classify(vec![word, 0]).unwrap() {
            Message::Voice(ref v) => assert!(check(v)),
            _ => panic!("opcode {op:#x} classified wrongly"),
        }
    }
}

#[test]
fn undefined_opcode_is_a_conversion_error() {
    assert_eq!(classify(vec![0x40700000, 0]).unwrap_err(), Error::Conversion(0x7));
}

#[test]
fn uncovered_opcodes_are_conversion_errors() {
    for op in [0xau32, 0xb, 0xc, 0xd, 0xe, 0xf] {
        let word = 0x40000000u32 | (op << 20);
        assert_eq!(classify(vec![word, 0]).unwrap_err(), Error::Conversion(op as u8));
    }
}

#[test]
fn uncovered_message_types_are_conversion_errors() {
    // 0x2 is undefined; the rest are defined types without covered kinds
    for mt in [0x0u32, 0x2, 0x3, 0x5, 0xd, 0xf] {
        let word = mt << 28;
        assert_eq!(classify(vec![word]).unwrap_err(), Error::Conversion(mt as u8));
    }
}

#[test]
fn classification_validates_the_size_after_the_discriminant() {
    // right status, wrong word count
    assert_eq!(classify(vec![0x10f80000, 0]).unwrap_err(), Error::Size(32, 64));
    assert_eq!(classify(vec![0x40900000]).unwrap_err(), Error::Size(64, 32));
    assert_eq!(
        classify(vec![0x40900000, 0, 0, 0]).unwrap_err(),
        Error::Size(64, 128)
    );
}

#[test]
fn construction_rejects_shorter_and_longer_buffers() {
    assert_eq!(
        TimingClock::try_from_packet(vec![]).unwrap_err(),
        Error::Size(32, 0)
    );
    assert_eq!(
        TimingClock::try_from_packet(vec![0, 0]).unwrap_err(),
        Error::Size(32, 64)
    );
    assert_eq!(
        MIDITimeCode::try_from_packet(vec![0, 0, 0]).unwrap_err(),
        Error::Size(32, 96)
    );
    assert_eq!(NoteOn::try_from_packet(vec![0]).unwrap_err(), Error::Size(64, 32));
    assert_eq!(
        NoteOn::try_from_packet(vec![0, 0, 0]).unwrap_err(),
        Error::Size(64, 96)
    );
}

#[test]
fn init_rejects_shorter_and_longer_buffers() {
    assert_eq!(TimingClock::try_init(vec![]).unwrap_err(), Error::Size(32, 0));
    assert_eq!(
        NoteOn::try_init(vec![0], Note::new(0), Velocity::new(0)).unwrap_err(),
        Error::Size(64, 32)
    );
}

#[test]
fn empty_buffer_classification_returns_a_size_error() {
    assert_eq!(classify(vec![]).unwrap_err(), Error::Size(32, 0));
    assert_eq!(System::try_from_packet(vec![]).unwrap_err(), Error::Size(32, 0));
    assert_eq!(Common::try_from_packet(vec![]).unwrap_err(), Error::Size(32, 0));
    assert_eq!(RealTime::try_from_packet(vec![]).unwrap_err(), Error::Size(32, 0));
    assert_eq!(Voice::try_from_packet(vec![]).unwrap_err(), Error::Size(64, 0));
}

#[test]
fn classification_errors_carry_the_innermost_code() {
    // a Voice buffer with a bad opcode reports the opcode, not the type
    assert_eq!(classify(vec![0x47700000, 0]).unwrap_err(), Error::Conversion(0x7));
    // a System buffer with a bad status reports the status byte
    assert_eq!(classify(vec![0x1ab30000]).unwrap_err(), Error::Conversion(0xb3));
}
