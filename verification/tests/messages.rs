//! Message lifecycle properties: initialization writes the discriminants,
//! reset clears the packet, re-initialization reproduces the exact bit
//! pattern, and every wire code maps to its value and back.

use midi_2_protocol::message::system::common::MIDITimeCode;
use midi_2_protocol::message::system::common::QuarterFrame;
use midi_2_protocol::message::system::common::Significance;
use midi_2_protocol::message::system::common::Type;
use midi_2_protocol::message::system::real_time::Start;
use midi_2_protocol::message::system::real_time::TimingClock;
use midi_2_protocol::message::system::Status;
use midi_2_protocol::message::voice::Attribute;
use midi_2_protocol::message::voice::AssignableController;
use midi_2_protocol::message::voice::AssignablePerNoteController;
use midi_2_protocol::message::voice::Bank;
use midi_2_protocol::message::voice::Channel;
use midi_2_protocol::message::voice::Controller;
use midi_2_protocol::message::voice::Note;
use midi_2_protocol::message::voice::NoteOff;
use midi_2_protocol::message::voice::NoteOn;
use midi_2_protocol::message::voice::Opcode;
use midi_2_protocol::message::voice::PerNoteController;
use midi_2_protocol::message::voice::PerNotePitchBend;
use midi_2_protocol::message::voice::RegisteredPerNoteController;
use midi_2_protocol::message::voice::RelativeAssignableController;
use midi_2_protocol::message::voice::RelativeRegisteredController;
use midi_2_protocol::message::voice::Velocity;
use midi_2_protocol::message::voice::Voice;
use midi_2_protocol::message::Group;
use midi_2_protocol::message::Message;
use midi_2_protocol::message::MessageType;
use midi_2_protocol::Error;

#[test]
fn reset_then_reinit_reproduces_the_bit_pattern() {
    let m = NoteOn::try_init(NoteOn::packet(), Note::new(64), Velocity::new(32745)).unwrap();
    let first = m.into_packet();

    let m = NoteOn::try_init(first.clone(), Note::new(64), Velocity::new(32745)).unwrap();
    let m = m.reset();
    let zeroed = m.into_packet();
    assert_eq!(zeroed, vec![0u32, 0u32]);

    let again = NoteOn::try_init(zeroed, Note::new(64), Velocity::new(32745)).unwrap();
    assert_eq!(again.into_packet(), first);
}

#[test]
fn reset_then_reinit_reproduces_a_system_pattern() {
    let m = TimingClock::try_init(TimingClock::packet()).unwrap();
    let first = m.into_packet();
    let m = TimingClock::try_init(first.clone()).unwrap().reset();
    let again = TimingClock::try_init(m.into_packet()).unwrap();
    assert_eq!(again.into_packet(), first);
}

#[test]
fn init_is_independent_of_prior_buffer_contents() {
    let from_ones =
        NoteOn::try_init(vec![0xffffffff, 0xffffffff], Note::new(5), Velocity::new(6)).unwrap();
    let from_zeros = NoteOn::try_init(NoteOn::packet(), Note::new(5), Velocity::new(6)).unwrap();
    assert_eq!(from_ones.into_packet(), from_zeros.into_packet());
}

#[test]
fn getters_after_voice_init() {
    let m = NoteOff::try_init(NoteOff::packet(), Note::new(7), Velocity::new(8)).unwrap();
    assert_eq!(m.message_type().unwrap(), MessageType::Voice);
    assert_eq!(m.group().unwrap(), Group::G1);
    assert_eq!(m.opcode().unwrap(), Opcode::NoteOff);
    assert_eq!(m.channel().unwrap(), Channel::C1);
    assert_eq!(m.note().unwrap(), Note::new(7));
    assert_eq!(m.velocity().unwrap(), Velocity::new(8));
    assert_eq!(m.attribute().unwrap(), Attribute::NoAttribute);
}

#[test]
fn getters_after_system_init() {
    let m = Start::try_init(Start::packet()).unwrap();
    assert_eq!(m.message_type().unwrap(), MessageType::System);
    assert_eq!(m.group().unwrap(), Group::G1);
    assert_eq!(m.status().unwrap(), Status::Start);
}

#[test]
fn getters_after_midi_time_code_init() {
    let qf = QuarterFrame(
        midi_2_protocol::message::system::common::Data::new(3),
        Type::Frames(Significance::Most),
    );
    let m = MIDITimeCode::try_init(MIDITimeCode::packet(), qf).unwrap();
    assert_eq!(m.status().unwrap(), Status::MIDITimeCode);
    assert_eq!(
        m.quarter_frame().unwrap(),
        QuarterFrame(
            midi_2_protocol::message::system::common::Data::new(3),
            Type::Frames(Significance::Most),
        )
    );
}

#[test]
fn every_voice_init_writes_its_opcode_and_fields() {
    let m = RegisteredPerNoteController::try_init(
        RegisteredPerNoteController::packet(),
        Note::new(1),
        PerNoteController::new(2),
    )
    .unwrap();
    assert_eq!(m.into_packet(), vec![0x40000102u32, 0u32]);

    let m = AssignablePerNoteController::try_init(
        AssignablePerNoteController::packet(),
        Note::new(0x7f),
        PerNoteController::new(0xff),
    )
    .unwrap();
    assert_eq!(m.into_packet(), vec![0x40107fffu32, 0u32]);

    let m = AssignableController::try_init(
        AssignableController::packet(),
        Bank::new(0x10),
        Controller::new(0x20),
    )
    .unwrap();
    assert_eq!(m.into_packet(), vec![0x40301020u32, 0u32]);

    let m = RelativeRegisteredController::try_init(
        RelativeRegisteredController::packet(),
        Bank::new(1),
        Controller::new(1),
    )
    .unwrap();
    assert_eq!(m.into_packet(), vec![0x40400101u32, 0u32]);

    let m = RelativeAssignableController::try_init(
        RelativeAssignableController::packet(),
        Bank::new(0),
        Controller::new(0x7f),
    )
    .unwrap();
    assert_eq!(m.into_packet(), vec![0x4050007fu32, 0u32]);

    let m = PerNotePitchBend::try_init(PerNotePitchBend::packet(), Note::new(0x33)).unwrap();
    assert_eq!(m.into_packet(), vec![0x40603300u32, 0u32]);
}

#[test]
fn setters_overwrite_their_own_field_only() {
    let m = TimingClock::try_init(TimingClock::packet()).unwrap();
    let m = m.set_group(Group::G4);
    assert_eq!(m.group().unwrap(), Group::G4);
    let packet = m.into_packet();
    assert_eq!(packet, vec![0x13f80000u32]);

    let m = TimingClock::try_from_packet(packet).unwrap();
    let m = m.set_status(Status::Reset);
    assert_eq!(m.status().unwrap(), Status::Reset);
    assert_eq!(m.into_packet(), vec![0x13ff0000u32]);
}

#[test]
fn all_group_codes_round_trip() {
    let groups = [
        Group::G1,
        Group::G2,
        Group::G3,
        Group::G4,
        Group::G5,
        Group::G6,
        Group::G7,
        Group::G8,
        Group::G9,
        Group::G10,
        Group::G11,
        Group::G12,
        Group::G13,
        Group::G14,
        Group::G15,
        Group::G16,
    ];
    for (i, g) in groups.iter().enumerate() {
        assert_eq!(g.code(), i as u8);
        assert_eq!(Group::try_from_code(i as u8).unwrap(), groups[i]);
    }
    assert!(Group::try_from_code(16).is_err());
}

#[test]
fn all_channel_codes_round_trip() {
    for code in 0u8..16 {
        let c = Channel::try_from_code(code).unwrap();
        assert_eq!(c.code(), code);
    }
    assert!(Channel::try_from_code(16).is_err());
}

#[test]
fn all_status_codes_round_trip() {
    for code in [0xf1u8, 0xf2, 0xf3, 0xf6, 0xf8, 0xfa, 0xfb, 0xfc, 0xfe, 0xff] {
        let s = Status::try_from_code(code).unwrap();
        assert_eq!(s.code(), code);
    }
    assert_eq!(
        Status::try_from_code(0xf0).unwrap_err(),
        midi_2_protocol::Error::Conversion(0xf0)
    );
}

#[test]
fn all_quarter_frame_type_codes_round_trip() {
    for code in 0u8..8 {
        let t = Type::try_from_code(code).unwrap();
        assert_eq!(t.code(), code);
    }
    assert_eq!(
        Type::try_from_code(8).unwrap_err(),
        midi_2_protocol::Error::Conversion(8)
    );
}

#[test]
fn all_opcode_codes_round_trip() {
    for code in (0u8..7).chain(8..16) {
        let o = Opcode::try_from_code(code).unwrap();
        assert_eq!(o.code(), code);
    }
    assert_eq!(
        Opcode::try_from_code(7).unwrap_err(),
        midi_2_protocol::Error::Conversion(7)
    );
}

#[test]
fn all_message_type_codes_round_trip() {
    for code in [0x0u8, 0x1, 0x3, 0x4, 0x5, 0xd, 0xf] {
        let t = MessageType::try_from_code(code).unwrap();
        assert_eq!(t.code(), code);
    }
    assert_eq!(
        MessageType::try_from_code(0x2).unwrap_err(),
        midi_2_protocol::Error::Conversion(0x2)
    );
}

#[test]
fn error_constructors_build_the_variants() {
    assert_eq!(Error::conversion(5), Error::Conversion(5));
    assert_eq!(Error::overflow(200, 7), Error::Overflow(200, 7));
    assert_eq!(Error::size(32, 64), Error::Size(32, 64));
}

#[test]
fn built_packet_classifies_back_to_its_kind() {
    let m = NoteOn::try_init(NoteOn::packet(), Note::new(64), Velocity::new(32745)).unwrap();
    let words = m.into_packet();
    match Message::try_from_packet(words.clone()).unwrap() {
        Message::Voice(Voice::NoteOn(back)) => {
            assert_eq!(back.into_packet(), words);
        },
        _ => panic!("a built Note On must classify as a Note On"),
    }
}

#[test]
fn set_message_type_changes_only_its_nibble() {
    let m = TimingClock::try_init(TimingClock::packet()).unwrap();
    let m = m.set_message_type(MessageType::Voice);
    assert_eq!(m.into_packet(), vec![0x40f80000u32]);
}

#[test]
fn set_opcode_and_channel_change_only_their_nibbles() {
    let m = NoteOn::try_init(NoteOn::packet(), Note::new(0), Velocity::new(0)).unwrap();
    let m = m.set_opcode(Opcode::NoteOff).set_channel(Channel::C16);
    assert_eq!(m.into_packet(), vec![0x408f0000u32, 0u32]);
}

#[test]
fn boundary_velocity_round_trips() {
    let m = NoteOn::try_init(NoteOn::packet(), Note::new(0), Velocity::new(0xffff)).unwrap();
    assert_eq!(m.velocity().unwrap(), Velocity::new(0xffff));
    assert_eq!(m.into_packet(), vec![0x40900000u32, 0xffff0000u32]);
}
