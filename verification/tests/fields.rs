//! Field-level properties: round trips through a packet, width rejection
//! on construction and on read, and frame isolation (writing a field
//! leaves every bit outside its range untouched).

use midi_2_protocol::message::system::common::Data;
use midi_2_protocol::message::system::common::MIDITimeCode;
use midi_2_protocol::message::system::common::QuarterFrame;
use midi_2_protocol::message::system::common::Significance;
use midi_2_protocol::message::system::common::Type;
use midi_2_protocol::message::voice::Attribute;
use midi_2_protocol::message::voice::Bank;
use midi_2_protocol::message::voice::Controller;
use midi_2_protocol::message::voice::Fractional;
use midi_2_protocol::message::voice::Manufacturer;
use midi_2_protocol::message::voice::Note;
use midi_2_protocol::message::voice::NoteOn;
use midi_2_protocol::message::voice::PerNoteController;
use midi_2_protocol::message::voice::Pitch;
use midi_2_protocol::message::voice::Profile;
use midi_2_protocol::message::voice::RegisteredController;
use midi_2_protocol::message::voice::RegisteredPerNoteController;
use midi_2_protocol::message::voice::Velocity;
use midi_2_protocol::Error;

#[test]
fn note_round_trips_through_all_ones_buffer() {
    let m = NoteOn::try_from_packet(vec![0xffffffffu32, 0xffffffffu32]).unwrap();
    let m = m.set_note(Note::new(64));
    assert_eq!(m.note().unwrap(), Note::new(64));
    // bits outside the note's 8-bit slot are still all ones
    assert_eq!(m.into_packet(), vec![0xffff40ffu32, 0xffffffffu32]);
}

#[test]
fn velocity_round_trips_through_all_ones_buffer() {
    let m = NoteOn::try_from_packet(vec![0xffffffffu32, 0xffffffffu32]).unwrap();
    let m = m.set_velocity(Velocity::new(32745));
    assert_eq!(m.velocity().unwrap(), Velocity::new(32745));
    assert_eq!(m.into_packet(), vec![0xffffffffu32, 0x7fe9ffffu32]);
}

#[test]
fn group_write_touches_only_its_nibble() {
    let m = NoteOn::try_from_packet(vec![0xffffffffu32, 0xffffffffu32]).unwrap();
    let m = m.set_group(midi_2_protocol::message::Group::G1);
    assert_eq!(m.into_packet(), vec![0xf0ffffffu32, 0xffffffffu32]);
}

#[test]
fn data_round_trips_exact_value() {
    let packet = RegisteredController::packet();
    let m = RegisteredController::try_init(packet, Bank::new(3), Controller::new(4)).unwrap();
    let m = m.set_data(midi_2_protocol::message::voice::Data::new(0xdeadbeef));
    assert_eq!(
        m.data().unwrap(),
        midi_2_protocol::message::voice::Data::new(0xdeadbeef)
    );
    assert_eq!(m.into_packet(), vec![0x40200304u32, 0xdeadbeefu32]);
}

#[test]
fn per_note_controller_round_trips() {
    let packet = RegisteredPerNoteController::packet();
    let m =
        RegisteredPerNoteController::try_init(packet, Note::new(1), PerNoteController::new(255))
            .unwrap();
    assert_eq!(m.per_note_controller().unwrap(), PerNoteController::new(255));
    assert_eq!(m.into_packet(), vec![0x400001ffu32, 0u32]);
}

#[test]
fn attribute_manufacturer_round_trips() {
    let packet = NoteOn::packet();
    let m = NoteOn::try_init(packet, Note::new(1), Velocity::new(2)).unwrap();
    let m = m.set_attribute(Attribute::Manufacturer(Manufacturer::new(4353)));
    assert_eq!(
        m.attribute().unwrap(),
        Attribute::Manufacturer(Manufacturer::new(4353))
    );
    assert_eq!(m.into_packet(), vec![0x40900101u32, 0x00021101u32]);
}

#[test]
fn attribute_profile_round_trips() {
    let packet = NoteOn::packet();
    let m = NoteOn::try_init(packet, Note::new(0), Velocity::new(0)).unwrap();
    let m = m.set_attribute(Attribute::Profile(Profile::new(0xffff)));
    assert_eq!(m.attribute().unwrap(), Attribute::Profile(Profile::new(0xffff)));
    assert_eq!(m.into_packet(), vec![0x40900002u32, 0x0000ffffu32]);
}

#[test]
fn attribute_pitch_round_trips() {
    let packet = NoteOn::packet();
    let m = NoteOn::try_init(packet, Note::new(0), Velocity::new(0)).unwrap();
    let m = m.set_attribute(Attribute::Pitch(Pitch::new(5), Fractional::new(511)));
    assert_eq!(
        m.attribute().unwrap(),
        Attribute::Pitch(Pitch::new(5), Fractional::new(511))
    );
    // low half of word 1: 5 * 0x200 + 511 = 0x0bff
    assert_eq!(m.into_packet(), vec![0x40900003u32, 0x00000bffu32]);
}

#[test]
fn attribute_none_leaves_payload_range_alone() {
    let m = NoteOn::try_from_packet(vec![0x409000ffu32, 0xffffffffu32]).unwrap();
    let m = m.set_attribute(Attribute::NoAttribute);
    assert_eq!(m.attribute().unwrap(), Attribute::NoAttribute);
    assert_eq!(m.into_packet(), vec![0x40900000u32, 0xffffffffu32]);
}

#[test]
fn attribute_undefined_type_code_is_conversion_error() {
    let m = NoteOn::try_from_packet(vec![0x40900004u32, 0u32]).unwrap();
    assert_eq!(m.attribute().unwrap_err(), Error::Conversion(4));
}

#[test]
fn quarter_frame_round_trips() {
    let packet = MIDITimeCode::packet();
    let qf = QuarterFrame(Data::new(15), Type::Hours(Significance::Least));
    let m = MIDITimeCode::try_init(packet, qf).unwrap();
    assert_eq!(
        m.quarter_frame().unwrap(),
        QuarterFrame(Data::new(15), Type::Hours(Significance::Least))
    );
    // type code 6, data 15: 0x10f10000 + 6 * 0x1000 + 15 * 0x100
    assert_eq!(m.into_packet(), vec![0x10f16f00u32]);
}

#[test]
fn width_rejection_on_construction() {
    assert_eq!(Note::try_new(128).unwrap_err(), Error::Overflow(128, 7));
    assert_eq!(Note::try_new(255).unwrap_err(), Error::Overflow(255, 7));
    assert_eq!(Bank::try_new(200).unwrap_err(), Error::Overflow(200, 7));
    assert_eq!(Controller::try_new(128).unwrap_err(), Error::Overflow(128, 7));
    assert_eq!(Pitch::try_new(130).unwrap_err(), Error::Overflow(130, 7));
    assert_eq!(Fractional::try_new(512).unwrap_err(), Error::Overflow(512, 9));
    assert_eq!(Fractional::try_new(0xffff).unwrap_err(), Error::Overflow(0xffff, 9));
    assert_eq!(Data::try_new(16).unwrap_err(), Error::Overflow(16, 4));
}

#[test]
fn width_acceptance_at_the_boundary() {
    assert_eq!(Note::try_new(127).unwrap(), Note::new(127));
    assert_eq!(Bank::try_new(0).unwrap(), Bank::new(0));
    assert_eq!(Fractional::try_new(511).unwrap(), Fractional::new(511));
    assert_eq!(Data::try_new(15).unwrap(), Data::new(15));
}

#[test]
fn out_of_width_bits_on_the_wire_fail_the_read() {
    // note slot holds 0xff, outside the 7-bit width
    let m = NoteOn::try_from_packet(vec![0x0000ff00u32, 0u32]).unwrap();
    assert_eq!(m.note().unwrap_err(), Error::Overflow(255, 7));
    // controller slot holds 0x80
    let m = RegisteredController::try_from_packet(vec![0x00000080u32, 0u32]).unwrap();
    assert_eq!(m.controller().unwrap_err(), Error::Overflow(128, 7));
}

#[test]
fn field_value_accessors_return_the_raw_value() {
    assert_eq!(Note::new(64).value(), 64);
    assert_eq!(Velocity::new(65535).value(), 65535);
    assert_eq!(midi_2_protocol::message::voice::Data::new(7).value(), 7);
    assert_eq!(Data::new(9).value(), 9);
}
