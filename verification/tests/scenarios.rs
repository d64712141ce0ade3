//! End-to-end scenarios: building, initializing and classifying packets
//! against exact expected words.

use midi_2_protocol::message::system::common::Data;
use midi_2_protocol::message::system::common::MIDITimeCode;
use midi_2_protocol::message::system::common::QuarterFrame;
use midi_2_protocol::message::system::common::Significance;
use midi_2_protocol::message::system::common::Type;
use midi_2_protocol::message::system::real_time::RealTime;
use midi_2_protocol::message::system::real_time::TimingClock;
use midi_2_protocol::message::system::System;
use midi_2_protocol::message::voice::Channel;
use midi_2_protocol::message::voice::Note;
use midi_2_protocol::message::voice::NoteOff;
use midi_2_protocol::message::voice::NoteOn;
use midi_2_protocol::message::voice::Velocity;
use midi_2_protocol::message::Group;
use midi_2_protocol::message::Message;
use midi_2_protocol::Error;

#[test]
fn note_off_builder_yields_exact_words() {
    let packet = NoteOff::packet();
    assert_eq!(packet, vec![0u32, 0u32]);
    let m = NoteOff::try_init(packet, Note::new(64), Velocity::new(32745)).unwrap();
    let m = m.set_group(Group::G4).set_channel(Channel::C6);
    assert_eq!(m.into_packet(), vec![0x43854000u32, 0x7fe90000u32]);
}

#[test]
fn note_on_builder_yields_exact_words() {
    let packet = NoteOn::packet();
    let m = NoteOn::try_init(packet, Note::new(64), Velocity::new(32745)).unwrap();
    let m = m.set_group(Group::G4).set_channel(Channel::C6);
    assert_eq!(m.into_packet(), vec![0x43954000u32, 0x7fe90000u32]);
}

#[test]
fn timing_clock_init_yields_exact_word() {
    let packet = TimingClock::packet();
    assert_eq!(packet, vec![0u32]);
    let m = TimingClock::try_init(packet).unwrap();
    assert_eq!(m.into_packet(), vec![0x10f80000u32]);
}

#[test]
fn classify_timing_clock_word() {
    let r = Message::try_from_packet(vec![0x10f80000u32]).unwrap();
    match r {
        Message::System(System::RealTime(RealTime::TimingClock(m))) => {
            assert_eq!(m.into_packet(), vec![0x10f80000u32]);
        },
        _ => panic!("wrong classification"),
    }
}

#[test]
fn classify_reset_word_succeeds() {
    let r = Message::try_from_packet(vec![0x1fff0000u32]).unwrap();
    assert!(matches!(r, Message::System(System::RealTime(RealTime::Reset(_)))));
}

#[test]
fn classify_undefined_system_status_fails_with_conversion() {
    let r = Message::try_from_packet(vec![0x10000000u32]);
    assert_eq!(r.unwrap_err(), Error::Conversion(0x00));
}

#[test]
fn note_try_new_200_overflows() {
    assert_eq!(Note::try_new(200).unwrap_err(), Error::Overflow(200, 7));
}

#[test]
fn midi_time_code_init_yields_exact_word() {
    let packet = MIDITimeCode::packet();
    let qf = QuarterFrame(Data::new(9), Type::Seconds(Significance::Most));
    let m = MIDITimeCode::try_init(packet, qf).unwrap();
    assert_eq!(m.into_packet(), vec![0x10f13900u32]);
}
