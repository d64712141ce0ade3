//! MIDI 2.0 Channel Voice messages: two-word messages discriminated by a
//! 4-bit Opcode.
//!
//! Every Voice message is two 32-bit words whose Message Type code is
//! `0x4`; the Opcode at bits 8 to 11 names the concrete kind and the
//! Channel at bits 12 to 15 addresses one of sixteen channels.

use crate::message::Group;
use crate::message::MessageType;
use crate::packet::bit_get;
use crate::packet::field_bits;
use crate::packet::lemma_field_bits_bound;
use crate::packet::unchanged_outside2;
use crate::packet::load_field;
use crate::packet::store_field;
use crate::packet::unchanged_outside;
use crate::Error;
use vstd::arithmetic::power2::lemma2_to64;
use vstd::prelude::*;

verus! {

/// The Opcode field: the 4-bit discriminant of a Voice message at bits 8
/// to 11. Code `0x7` is the one 4-bit code with no defined opcode; reading
/// it is a conversion error.
#[derive(Debug, PartialEq, Eq, Structural)]
pub enum Opcode {
    RegisteredPerNoteController,
    AssignablePerNoteController,
    RegisteredController,
    AssignableController,
    RelativeRegisteredController,
    RelativeAssignableController,
    PerNotePitchBend,
    NoteOff,
    NoteOn,
    PolyPressure,
    ControlChange,
    ProgramChange,
    ChannelPressure,
    PitchBend,
    PerNoteManagement,
}

impl Opcode {
    /// The wire code of this opcode.
    pub open spec fn spec_code(self) -> u8 {
        match self {
            Opcode::RegisteredPerNoteController => 0x0,
            Opcode::AssignablePerNoteController => 0x1,
            Opcode::RegisteredController => 0x2,
            Opcode::AssignableController => 0x3,
            Opcode::RelativeRegisteredController => 0x4,
            Opcode::RelativeAssignableController => 0x5,
            Opcode::PerNotePitchBend => 0x6,
            Opcode::NoteOff => 0x8,
            Opcode::NoteOn => 0x9,
            Opcode::PolyPressure => 0xa,
            Opcode::ControlChange => 0xb,
            Opcode::ProgramChange => 0xc,
            Opcode::ChannelPressure => 0xd,
            Opcode::PitchBend => 0xe,
            Opcode::PerNoteManagement => 0xf,
        }
    }

    /// The opcode a wire code decodes to, or the conversion error the code
    /// is rejected with.
    pub open spec fn spec_from_code(code: u8) -> Result<Opcode, Error> {
        if code == 0x0 {
            Ok(Opcode::RegisteredPerNoteController)
        } else if code == 0x1 {
            Ok(Opcode::AssignablePerNoteController)
        } else if code == 0x2 {
            Ok(Opcode::RegisteredController)
        } else if code == 0x3 {
            Ok(Opcode::AssignableController)
        } else if code == 0x4 {
            Ok(Opcode::RelativeRegisteredController)
        } else if code == 0x5 {
            Ok(Opcode::RelativeAssignableController)
        } else if code == 0x6 {
            Ok(Opcode::PerNotePitchBend)
        } else if code == 0x8 {
            Ok(Opcode::NoteOff)
        } else if code == 0x9 {
            Ok(Opcode::NoteOn)
        } else if code == 0xa {
            Ok(Opcode::PolyPressure)
        } else if code == 0xb {
            Ok(Opcode::ControlChange)
        } else if code == 0xc {
            Ok(Opcode::ProgramChange)
        } else if code == 0xd {
            Ok(Opcode::ChannelPressure)
        } else if code == 0xe {
            Ok(Opcode::PitchBend)
        } else if code == 0xf {
            Ok(Opcode::PerNoteManagement)
        } else {
            Err(Error::Conversion(code))
        }
    }

    pub fn code(&self) -> (r: u8)
        ensures
            r == self.spec_code(),
    {
        match self {
            Opcode::RegisteredPerNoteController => 0x0,
            Opcode::AssignablePerNoteController => 0x1,
            Opcode::RegisteredController => 0x2,
            Opcode::AssignableController => 0x3,
            Opcode::RelativeRegisteredController => 0x4,
            Opcode::RelativeAssignableController => 0x5,
            Opcode::PerNotePitchBend => 0x6,
            Opcode::NoteOff => 0x8,
            Opcode::NoteOn => 0x9,
            Opcode::PolyPressure => 0xa,
            Opcode::ControlChange => 0xb,
            Opcode::ProgramChange => 0xc,
            Opcode::ChannelPressure => 0xd,
            Opcode::PitchBend => 0xe,
            Opcode::PerNoteManagement => 0xf,
        }
    }

    pub fn try_from_code(code: u8) -> (r: Result<Opcode, Error>)
        ensures
            r == Opcode::spec_from_code(code),
    {
        match code {
            0x0 => Ok(Opcode::RegisteredPerNoteController),
            0x1 => Ok(Opcode::AssignablePerNoteController),
            0x2 => Ok(Opcode::RegisteredController),
            0x3 => Ok(Opcode::AssignableController),
            0x4 => Ok(Opcode::RelativeRegisteredController),
            0x5 => Ok(Opcode::RelativeAssignableController),
            0x6 => Ok(Opcode::PerNotePitchBend),
            0x8 => Ok(Opcode::NoteOff),
            0x9 => Ok(Opcode::NoteOn),
            0xa => Ok(Opcode::PolyPressure),
            0xb => Ok(Opcode::ControlChange),
            0xc => Ok(Opcode::ProgramChange),
            0xd => Ok(Opcode::ChannelPressure),
            0xe => Ok(Opcode::PitchBend),
            0xf => Ok(Opcode::PerNoteManagement),
            _ => Err(Error::conversion(code)),
        }
    }

    pub(crate) fn read(words: &Vec<u32>) -> (r: Result<Opcode, Error>)
        requires
            words@.len() >= 1,
        ensures
            r == Opcode::spec_from_code(field_bits(words@, 8, 4) as u8),
    {
        proof {
            lemma_field_bits_bound(words@, 8, 4);
            lemma2_to64();
        }
        let code = load_field(words, 8, 4) as u8;
        Opcode::try_from_code(code)
    }

    pub(crate) fn write(self, words: &mut Vec<u32>)
        requires
            old(words)@.len() >= 1,
        ensures
            final(words)@.len() == old(words)@.len(),
            field_bits(final(words)@, 8, 4) == self.spec_code() as nat,
            unchanged_outside(old(words)@, final(words)@, 8, 4),
    {
        proof {
            lemma2_to64();
        }
        let code = self.code();
        store_field(words, 8, 4, code as u32);
    }
}

/// Decoding an opcode inverts encoding it: the code an opcode is written
/// as reads back as exactly that opcode.
pub proof fn lemma_opcode_round_trip(o: Opcode)
    ensures
        Opcode::spec_from_code(o.spec_code()) == Ok::<Opcode, Error>(o),
{
}

/// The Channel field: the 4-bit channel of a Voice message at bits 12 to
/// 15. All sixteen codes are defined, so reading a channel never fails.
#[derive(Debug, Default, PartialEq, Eq, Structural)]
pub enum Channel {
    #[default]
    C1,
    C2,
    C3,
    C4,
    C5,
    C6,
    C7,
    C8,
    C9,
    C10,
    C11,
    C12,
    C13,
    C14,
    C15,
    C16,
}

impl Channel {
    /// The wire code of this channel.
    pub open spec fn spec_code(self) -> u8 {
        match self {
            Channel::C1 => 0x0,
            Channel::C2 => 0x1,
            Channel::C3 => 0x2,
            Channel::C4 => 0x3,
            Channel::C5 => 0x4,
            Channel::C6 => 0x5,
            Channel::C7 => 0x6,
            Channel::C8 => 0x7,
            Channel::C9 => 0x8,
            Channel::C10 => 0x9,
            Channel::C11 => 0xa,
            Channel::C12 => 0xb,
            Channel::C13 => 0xc,
            Channel::C14 => 0xd,
            Channel::C15 => 0xe,
            Channel::C16 => 0xf,
        }
    }

    /// The channel a wire code decodes to. Every code below sixteen is a
    /// channel; anything else is a conversion error.
    pub open spec fn spec_from_code(code: u8) -> Result<Channel, Error> {
        if code == 0x0 {
            Ok(Channel::C1)
        } else if code == 0x1 {
            Ok(Channel::C2)
        } else if code == 0x2 {
            Ok(Channel::C3)
        } else if code == 0x3 {
            Ok(Channel::C4)
        } else if code == 0x4 {
            Ok(Channel::C5)
        } else if code == 0x5 {
            Ok(Channel::C6)
        } else if code == 0x6 {
            Ok(Channel::C7)
        } else if code == 0x7 {
            Ok(Channel::C8)
        } else if code == 0x8 {
            Ok(Channel::C9)
        } else if code == 0x9 {
            Ok(Channel::C10)
        } else if code == 0xa {
            Ok(Channel::C11)
        } else if code == 0xb {
            Ok(Channel::C12)
        } else if code == 0xc {
            Ok(Channel::C13)
        } else if code == 0xd {
            Ok(Channel::C14)
        } else if code == 0xe {
            Ok(Channel::C15)
        } else if code == 0xf {
            Ok(Channel::C16)
        } else {
            Err(Error::Conversion(code))
        }
    }

    pub fn code(&self) -> (r: u8)
        ensures
            r == self.spec_code(),
    {
        match self {
            Channel::C1 => 0x0,
            Channel::C2 => 0x1,
            Channel::C3 => 0x2,
            Channel::C4 => 0x3,
            Channel::C5 => 0x4,
            Channel::C6 => 0x5,
            Channel::C7 => 0x6,
            Channel::C8 => 0x7,
            Channel::C9 => 0x8,
            Channel::C10 => 0x9,
            Channel::C11 => 0xa,
            Channel::C12 => 0xb,
            Channel::C13 => 0xc,
            Channel::C14 => 0xd,
            Channel::C15 => 0xe,
            Channel::C16 => 0xf,
        }
    }

    pub fn try_from_code(code: u8) -> (r: Result<Channel, Error>)
        ensures
            r == Channel::spec_from_code(code),
    {
        match code {
            0x0 => Ok(Channel::C1),
            0x1 => Ok(Channel::C2),
            0x2 => Ok(Channel::C3),
            0x3 => Ok(Channel::C4),
            0x4 => Ok(Channel::C5),
            0x5 => Ok(Channel::C6),
            0x6 => Ok(Channel::C7),
            0x7 => Ok(Channel::C8),
            0x8 => Ok(Channel::C9),
            0x9 => Ok(Channel::C10),
            0xa => Ok(Channel::C11),
            0xb => Ok(Channel::C12),
            0xc => Ok(Channel::C13),
            0xd => Ok(Channel::C14),
            0xe => Ok(Channel::C15),
            0xf => Ok(Channel::C16),
            _ => Err(Error::conversion(code)),
        }
    }

    pub(crate) fn read(words: &Vec<u32>) -> (r: Result<Channel, Error>)
        requires
            words@.len() >= 1,
        ensures
            r == Channel::spec_from_code(field_bits(words@, 12, 4) as u8),
    {
        proof {
            lemma_field_bits_bound(words@, 12, 4);
            lemma2_to64();
        }
        let code = load_field(words, 12, 4) as u8;
        Channel::try_from_code(code)
    }

    pub(crate) fn write(self, words: &mut Vec<u32>)
        requires
            old(words)@.len() >= 1,
        ensures
            final(words)@.len() == old(words)@.len(),
            field_bits(final(words)@, 12, 4) == self.spec_code() as nat,
            unchanged_outside(old(words)@, final(words)@, 12, 4),
    {
        proof {
            lemma2_to64();
        }
        let code = self.code();
        store_field(words, 12, 4, code as u32);
    }
}

/// Decoding a channel inverts encoding it: the code a channel is written
/// as reads back as exactly that channel. A channel read from a 4-bit
/// field can moreover never fail, since every 4-bit code names a channel.
pub proof fn lemma_channel_round_trip(c: Channel)
    ensures
        Channel::spec_from_code(c.spec_code()) == Ok::<Channel, Error>(c),
{
}

/// The Note field: a 7-bit note number in the 8-bit slot at bits 16 to
/// 23 of a Voice message.
#[derive(Debug, Default, PartialEq, Eq, PartialOrd, Ord, Structural)]
pub struct Note(u8);

impl View for Note {
    type V = u8;

    closed spec fn view(&self) -> u8 {
        self.0
    }
}

impl Note {
    #[verifier::type_invariant]
    pub open spec fn inv(self) -> bool {
        self@ < 0x80
    }

    /// The value a raw integer wraps to. Used only to state contracts.
    pub closed spec fn spec_new(value: u8) -> Note {
        Note(value)
    }

    /// Wraps a raw value known to fit the declared 7-bit width.
    pub fn new(value: u8) -> (r: Self)
        requires
            value < 0x80,
        ensures
            r@ == value,
    {
        Note(value)
    }

    /// Validates a raw value against the declared 7-bit width: values of
    /// `0x80` and above are rejected with an overflow error carrying the
    /// value and the width.
    pub fn try_new(value: u8) -> (r: Result<Self, Error>)
        ensures
            r == Note::spec_try_new(value),
    {
        if value < 0x80 {
            Ok(Note(value))
        } else {
            Err(Error::overflow(value as u64, 7))
        }
    }

    /// What validating a raw value returns: the wrapped value exactly when
    /// it fits the declared width, the overflow error otherwise.
    pub open spec fn spec_try_new(value: u8) -> Result<Note, Error> {
        if value < 0x80 {
            Ok(Note::spec_new(value))
        } else {
            Err(Error::Overflow(value as u64, 7))
        }
    }

    /// The raw value back out of the field value; always possible.
    pub fn value(&self) -> (r: u8)
        ensures
            r == self@,
    {
        self.0
    }

    /// What reading the field's range returns: the loaded value exactly
    /// when it fits the declared width, the overflow error otherwise.
    pub open spec fn spec_read(words: Seq<u32>) -> Result<Note, Error> {
        Note::spec_try_new(field_bits(words, 16, 8) as u8)
    }

    pub(crate) fn read(words: &Vec<u32>) -> (r: Result<Note, Error>)
        requires
            words@.len() >= 2,
        ensures
            r == Note::spec_read(words@),
    {
        proof {
            lemma_field_bits_bound(words@, 16, 8);
            lemma2_to64();
        }
        let raw = load_field(words, 16, 8) as u8;
        Note::try_new(raw)
    }

    pub(crate) fn write(self, words: &mut Vec<u32>)
        requires
            old(words)@.len() >= 2,
        ensures
            final(words)@.len() == old(words)@.len(),
            field_bits(final(words)@, 16, 8) == self@ as nat,
            unchanged_outside(old(words)@, final(words)@, 16, 8),
    {
        proof {
            use_type_invariant(&self);
            lemma2_to64();
        }
        store_field(words, 16, 8, self.0 as u32);
    }
}

/// The view of a wrapped raw value is that value: what [`Note::spec_new`]
/// wraps, the view reads back.
pub proof fn lemma_note_wraps(value: u8)
    ensures
        (Note::spec_new(value))@ == value,
{
}

/// Decoding a note value inverts encoding it.
pub proof fn lemma_note_round_trip(w: Seq<u32>, v: Note)
    requires
        v.inv(),
        field_bits(w, 16, 8) == v@ as nat,
    ensures
        Note::spec_read(w) == Ok::<Note, Error>(v),
{
}

/// The Bank field: a 7-bit bank number in the 8-bit slot at bits 16 to
/// 23 of a controller Voice message.
#[derive(Debug, Default, PartialEq, Eq, PartialOrd, Ord, Structural)]
pub struct Bank(u8);

impl View for Bank {
    type V = u8;

    closed spec fn view(&self) -> u8 {
        self.0
    }
}

impl Bank {
    #[verifier::type_invariant]
    pub open spec fn inv(self) -> bool {
        self@ < 0x80
    }

    /// The value a raw integer wraps to. Used only to state contracts.
    pub closed spec fn spec_new(value: u8) -> Bank {
        Bank(value)
    }

    /// Wraps a raw value known to fit the declared 7-bit width.
    pub fn new(value: u8) -> (r: Self)
        requires
            value < 0x80,
        ensures
            r@ == value,
    {
        Bank(value)
    }

    /// Validates a raw value against the declared 7-bit width: values of
    /// `0x80` and above are rejected with an overflow error carrying the
    /// value and the width.
    pub fn try_new(value: u8) -> (r: Result<Self, Error>)
        ensures
            r == Bank::spec_try_new(value),
    {
        if value < 0x80 {
            Ok(Bank(value))
        } else {
            Err(Error::overflow(value as u64, 7))
        }
    }

    /// What validating a raw value returns: the wrapped value exactly when
    /// it fits the declared width, the overflow error otherwise.
    pub open spec fn spec_try_new(value: u8) -> Result<Bank, Error> {
        if value < 0x80 {
            Ok(Bank::spec_new(value))
        } else {
            Err(Error::Overflow(value as u64, 7))
        }
    }

    /// The raw value back out of the field value; always possible.
    pub fn value(&self) -> (r: u8)
        ensures
            r == self@,
    {
        self.0
    }

    /// What reading the field's range returns: the loaded value exactly
    /// when it fits the declared width, the overflow error otherwise.
    pub open spec fn spec_read(words: Seq<u32>) -> Result<Bank, Error> {
        Bank::spec_try_new(field_bits(words, 16, 8) as u8)
    }

    pub(crate) fn read(words: &Vec<u32>) -> (r: Result<Bank, Error>)
        requires
            words@.len() >= 2,
        ensures
            r == Bank::spec_read(words@),
    {
        proof {
            lemma_field_bits_bound(words@, 16, 8);
            lemma2_to64();
        }
        let raw = load_field(words, 16, 8) as u8;
        Bank::try_new(raw)
    }

    pub(crate) fn write(self, words: &mut Vec<u32>)
        requires
            old(words)@.len() >= 2,
        ensures
            final(words)@.len() == old(words)@.len(),
            field_bits(final(words)@, 16, 8) == self@ as nat,
            unchanged_outside(old(words)@, final(words)@, 16, 8),
    {
        proof {
            use_type_invariant(&self);
            lemma2_to64();
        }
        store_field(words, 16, 8, self.0 as u32);
    }
}

/// The view of a wrapped raw value is that value: what [`Bank::spec_new`]
/// wraps, the view reads back.
pub proof fn lemma_bank_wraps(value: u8)
    ensures
        (Bank::spec_new(value))@ == value,
{
}

/// Decoding a bank value inverts encoding it.
pub proof fn lemma_bank_round_trip(w: Seq<u32>, v: Bank)
    requires
        v.inv(),
        field_bits(w, 16, 8) == v@ as nat,
    ensures
        Bank::spec_read(w) == Ok::<Bank, Error>(v),
{
}

/// The Controller field: a 7-bit controller index in the 8-bit slot at
/// bits 24 to 31 of a controller Voice message.
#[derive(Debug, Default, PartialEq, Eq, PartialOrd, Ord, Structural)]
pub struct Controller(u8);

impl View for Controller {
    type V = u8;

    closed spec fn view(&self) -> u8 {
        self.0
    }
}

impl Controller {
    #[verifier::type_invariant]
    pub open spec fn inv(self) -> bool {
        self@ < 0x80
    }

    /// The value a raw integer wraps to. Used only to state contracts.
    pub closed spec fn spec_new(value: u8) -> Controller {
        Controller(value)
    }

    /// Wraps a raw value known to fit the declared 7-bit width.
    pub fn new(value: u8) -> (r: Self)
        requires
            value < 0x80,
        ensures
            r@ == value,
    {
        Controller(value)
    }

    /// Validates a raw value against the declared 7-bit width: values of
    /// `0x80` and above are rejected with an overflow error carrying the
    /// value and the width.
    pub fn try_new(value: u8) -> (r: Result<Self, Error>)
        ensures
            r == Controller::spec_try_new(value),
    {
        if value < 0x80 {
            Ok(Controller(value))
        } else {
            Err(Error::overflow(value as u64, 7))
        }
    }

    /// What validating a raw value returns: the wrapped value exactly when
    /// it fits the declared width, the overflow error otherwise.
    pub open spec fn spec_try_new(value: u8) -> Result<Controller, Error> {
        if value < 0x80 {
            Ok(Controller::spec_new(value))
        } else {
            Err(Error::Overflow(value as u64, 7))
        }
    }

    /// The raw value back out of the field value; always possible.
    pub fn value(&self) -> (r: u8)
        ensures
            r == self@,
    {
        self.0
    }

    /// What reading the field's range returns: the loaded value exactly
    /// when it fits the declared width, the overflow error otherwise.
    pub open spec fn spec_read(words: Seq<u32>) -> Result<Controller, Error> {
        Controller::spec_try_new(field_bits(words, 24, 8) as u8)
    }

    pub(crate) fn read(words: &Vec<u32>) -> (r: Result<Controller, Error>)
        requires
            words@.len() >= 2,
        ensures
            r == Controller::spec_read(words@),
    {
        proof {
            lemma_field_bits_bound(words@, 24, 8);
            lemma2_to64();
        }
        let raw = load_field(words, 24, 8) as u8;
        Controller::try_new(raw)
    }

    pub(crate) fn write(self, words: &mut Vec<u32>)
        requires
            old(words)@.len() >= 2,
        ensures
            final(words)@.len() == old(words)@.len(),
            field_bits(final(words)@, 24, 8) == self@ as nat,
            unchanged_outside(old(words)@, final(words)@, 24, 8),
    {
        proof {
            use_type_invariant(&self);
            lemma2_to64();
        }
        store_field(words, 24, 8, self.0 as u32);
    }
}

/// The view of a wrapped raw value is that value: what [`Controller::spec_new`]
/// wraps, the view reads back.
pub proof fn lemma_controller_wraps(value: u8)
    ensures
        (Controller::spec_new(value))@ == value,
{
}

/// Decoding a controller value inverts encoding it.
pub proof fn lemma_controller_round_trip(w: Seq<u32>, v: Controller)
    requires
        v.inv(),
        field_bits(w, 24, 8) == v@ as nat,
    ensures
        Controller::spec_read(w) == Ok::<Controller, Error>(v),
{
}

/// The Pitch half of a pitch attribute: a 7-bit note number at bits 48
/// to 54 of a Voice message.
#[derive(Debug, Default, PartialEq, Eq, PartialOrd, Ord, Structural)]
pub struct Pitch(u8);

impl View for Pitch {
    type V = u8;

    closed spec fn view(&self) -> u8 {
        self.0
    }
}

impl Pitch {
    #[verifier::type_invariant]
    pub open spec fn inv(self) -> bool {
        self@ < 0x80
    }

    /// The value a raw integer wraps to. Used only to state contracts.
    pub closed spec fn spec_new(value: u8) -> Pitch {
        Pitch(value)
    }

    /// Wraps a raw value known to fit the declared 7-bit width.
    pub fn new(value: u8) -> (r: Self)
        requires
            value < 0x80,
        ensures
            r@ == value,
    {
        Pitch(value)
    }

    /// Validates a raw value against the declared 7-bit width: values of
    /// `0x80` and above are rejected with an overflow error carrying the
    /// value and the width.
    pub fn try_new(value: u8) -> (r: Result<Self, Error>)
        ensures
            r == Pitch::spec_try_new(value),
    {
        if value < 0x80 {
            Ok(Pitch(value))
        } else {
            Err(Error::overflow(value as u64, 7))
        }
    }

    /// What validating a raw value returns: the wrapped value exactly when
    /// it fits the declared width, the overflow error otherwise.
    pub open spec fn spec_try_new(value: u8) -> Result<Pitch, Error> {
        if value < 0x80 {
            Ok(Pitch::spec_new(value))
        } else {
            Err(Error::Overflow(value as u64, 7))
        }
    }

    /// The raw value back out of the field value; always possible.
    pub fn value(&self) -> (r: u8)
        ensures
            r == self@,
    {
        self.0
    }

    /// What reading the field's range returns: the loaded value exactly
    /// when it fits the declared width, the overflow error otherwise.
    pub open spec fn spec_read(words: Seq<u32>) -> Result<Pitch, Error> {
        Pitch::spec_try_new(field_bits(words, 48, 7) as u8)
    }

    pub(crate) fn read(words: &Vec<u32>) -> (r: Result<Pitch, Error>)
        requires
            words@.len() >= 2,
        ensures
            r == Pitch::spec_read(words@),
    {
        proof {
            lemma_field_bits_bound(words@, 48, 7);
            lemma2_to64();
        }
        let raw = load_field(words, 48, 7) as u8;
        Pitch::try_new(raw)
    }

    pub(crate) fn write(self, words: &mut Vec<u32>)
        requires
            old(words)@.len() >= 2,
        ensures
            final(words)@.len() == old(words)@.len(),
            field_bits(final(words)@, 48, 7) == self@ as nat,
            unchanged_outside(old(words)@, final(words)@, 48, 7),
    {
        proof {
            use_type_invariant(&self);
            lemma2_to64();
        }
        store_field(words, 48, 7, self.0 as u32);
    }
}

/// The view of a wrapped raw value is that value: what [`Pitch::spec_new`]
/// wraps, the view reads back.
pub proof fn lemma_pitch_wraps(value: u8)
    ensures
        (Pitch::spec_new(value))@ == value,
{
}

/// Decoding a pitch value inverts encoding it.
pub proof fn lemma_pitch_round_trip(w: Seq<u32>, v: Pitch)
    requires
        v.inv(),
        field_bits(w, 48, 7) == v@ as nat,
    ensures
        Pitch::spec_read(w) == Ok::<Pitch, Error>(v),
{
}

/// The Fractional half of a pitch attribute: a 9-bit fraction of a
/// semitone at bits 55 to 63 of a Voice message.
#[derive(Debug, Default, PartialEq, Eq, PartialOrd, Ord, Structural)]
pub struct Fractional(u16);

impl View for Fractional {
    type V = u16;

    closed spec fn view(&self) -> u16 {
        self.0
    }
}

impl Fractional {
    #[verifier::type_invariant]
    pub open spec fn inv(self) -> bool {
        self@ < 0x200
    }

    /// The value a raw integer wraps to. Used only to state contracts.
    pub closed spec fn spec_new(value: u16) -> Fractional {
        Fractional(value)
    }

    /// Wraps a raw value known to fit the declared 9-bit width.
    pub fn new(value: u16) -> (r: Self)
        requires
            value < 0x200,
        ensures
            r@ == value,
    {
        Fractional(value)
    }

    /// Validates a raw value against the declared 9-bit width: values of
    /// `0x200` and above are rejected with an overflow error carrying the
    /// value and the width.
    pub fn try_new(value: u16) -> (r: Result<Self, Error>)
        ensures
            r == Fractional::spec_try_new(value),
    {
        if value < 0x200 {
            Ok(Fractional(value))
        } else {
            Err(Error::overflow(value as u64, 9))
        }
    }

    /// What validating a raw value returns: the wrapped value exactly when
    /// it fits the declared width, the overflow error otherwise.
    pub open spec fn spec_try_new(value: u16) -> Result<Fractional, Error> {
        if value < 0x200 {
            Ok(Fractional::spec_new(value))
        } else {
            Err(Error::Overflow(value as u64, 9))
        }
    }

    /// The raw value back out of the field value; always possible.
    pub fn value(&self) -> (r: u16)
        ensures
            r == self@,
    {
        self.0
    }

    /// What reading the field's range returns: the loaded value exactly
    /// when it fits the declared width, the overflow error otherwise.
    pub open spec fn spec_read(words: Seq<u32>) -> Result<Fractional, Error> {
        Fractional::spec_try_new(field_bits(words, 55, 9) as u16)
    }

    pub(crate) fn read(words: &Vec<u32>) -> (r: Result<Fractional, Error>)
        requires
            words@.len() >= 2,
        ensures
            r == Fractional::spec_read(words@),
    {
        proof {
            lemma_field_bits_bound(words@, 55, 9);
            lemma2_to64();
        }
        let raw = load_field(words, 55, 9) as u16;
        Fractional::try_new(raw)
    }

    pub(crate) fn write(self, words: &mut Vec<u32>)
        requires
            old(words)@.len() >= 2,
        ensures
            final(words)@.len() == old(words)@.len(),
            field_bits(final(words)@, 55, 9) == self@ as nat,
            unchanged_outside(old(words)@, final(words)@, 55, 9),
    {
        proof {
            use_type_invariant(&self);
            lemma2_to64();
        }
        store_field(words, 55, 9, self.0 as u32);
    }
}

/// The view of a wrapped raw value is that value: what [`Fractional::spec_new`]
/// wraps, the view reads back.
pub proof fn lemma_fractional_wraps(value: u16)
    ensures
        (Fractional::spec_new(value))@ == value,
{
}

/// Decoding a fractional pitch value inverts encoding it.
pub proof fn lemma_fractional_round_trip(w: Seq<u32>, v: Fractional)
    requires
        v.inv(),
        field_bits(w, 55, 9) == v@ as nat,
    ensures
        Fractional::spec_read(w) == Ok::<Fractional, Error>(v),
{
}

/// The Per-Note Controller field: an 8-bit controller index at bits 24
/// to 31 of a per-note controller Voice message.
#[derive(Debug, Default, PartialEq, Eq, PartialOrd, Ord, Structural)]
pub struct PerNoteController(u8);

impl View for PerNoteController {
    type V = u8;

    closed spec fn view(&self) -> u8 {
        self.0
    }
}

impl PerNoteController {
    /// The value a raw integer wraps to. Used only to state contracts.
    pub closed spec fn spec_new(value: u8) -> PerNoteController {
        PerNoteController(value)
    }

    /// Wraps a raw value; the declared width fills its backing integer, so
    /// every value is valid.
    pub fn new(value: u8) -> (r: Self)
        ensures
            r@ == value,
    {
        PerNoteController(value)
    }

    /// The raw value back out of the field value; always possible.
    pub fn value(&self) -> (r: u8)
        ensures
            r == self@,
    {
        self.0
    }

    /// What reading the field's range returns: the loaded value, always;
    /// the range is as wide as the backing integer, so reading never
    /// fails.
    pub open spec fn spec_read(words: Seq<u32>) -> Result<PerNoteController, Error> {
        Ok(PerNoteController::spec_new(field_bits(words, 24, 8) as u8))
    }

    pub(crate) fn read(words: &Vec<u32>) -> (r: Result<PerNoteController, Error>)
        requires
            words@.len() >= 2,
        ensures
            r == PerNoteController::spec_read(words@),
    {
        proof {
            lemma_field_bits_bound(words@, 24, 8);
            lemma2_to64();
            vstd::arithmetic::power2::lemma_pow2_adds(16, 16);
        }
        let raw = load_field(words, 24, 8) as u8;
        Ok(PerNoteController(raw))
    }

    pub(crate) fn write(self, words: &mut Vec<u32>)
        requires
            old(words)@.len() >= 2,
        ensures
            final(words)@.len() == old(words)@.len(),
            field_bits(final(words)@, 24, 8) == self@ as nat,
            unchanged_outside(old(words)@, final(words)@, 24, 8),
    {
        proof {
            lemma2_to64();
            vstd::arithmetic::power2::lemma_pow2_adds(16, 16);
        }
        store_field(words, 24, 8, self.0 as u32);
    }
}

/// The view of a wrapped raw value is that value: what [`PerNoteController::spec_new`]
/// wraps, the view reads back.
pub proof fn lemma_per_note_controller_wraps(value: u8)
    ensures
        (PerNoteController::spec_new(value))@ == value,
{
}

/// Decoding a per-note controller value inverts encoding it.
pub proof fn lemma_per_note_controller_round_trip(w: Seq<u32>, v: PerNoteController)
    requires
        field_bits(w, 24, 8) == v@ as nat,
    ensures
        PerNoteController::spec_read(w) == Ok::<PerNoteController, Error>(v),
{
}

/// The Velocity field: a 16-bit velocity at bits 32 to 47 of a Note On
/// or Note Off message.
#[derive(Debug, Default, PartialEq, Eq, PartialOrd, Ord, Structural)]
pub struct Velocity(u16);

impl View for Velocity {
    type V = u16;

    closed spec fn view(&self) -> u16 {
        self.0
    }
}

impl Velocity {
    /// The value a raw integer wraps to. Used only to state contracts.
    pub closed spec fn spec_new(value: u16) -> Velocity {
        Velocity(value)
    }

    /// Wraps a raw value; the declared width fills its backing integer, so
    /// every value is valid.
    pub fn new(value: u16) -> (r: Self)
        ensures
            r@ == value,
    {
        Velocity(value)
    }

    /// The raw value back out of the field value; always possible.
    pub fn value(&self) -> (r: u16)
        ensures
            r == self@,
    {
        self.0
    }

    /// What reading the field's range returns: the loaded value, always;
    /// the range is as wide as the backing integer, so reading never
    /// fails.
    pub open spec fn spec_read(words: Seq<u32>) -> Result<Velocity, Error> {
        Ok(Velocity::spec_new(field_bits(words, 32, 16) as u16))
    }

    pub(crate) fn read(words: &Vec<u32>) -> (r: Result<Velocity, Error>)
        requires
            words@.len() >= 2,
        ensures
            r == Velocity::spec_read(words@),
    {
        proof {
            lemma_field_bits_bound(words@, 32, 16);
            lemma2_to64();
            vstd::arithmetic::power2::lemma_pow2_adds(16, 16);
        }
        let raw = load_field(words, 32, 16) as u16;
        Ok(Velocity(raw))
    }

    pub(crate) fn write(self, words: &mut Vec<u32>)
        requires
            old(words)@.len() >= 2,
        ensures
            final(words)@.len() == old(words)@.len(),
            field_bits(final(words)@, 32, 16) == self@ as nat,
            unchanged_outside(old(words)@, final(words)@, 32, 16),
    {
        proof {
            lemma2_to64();
            vstd::arithmetic::power2::lemma_pow2_adds(16, 16);
        }
        store_field(words, 32, 16, self.0 as u32);
    }
}

/// The view of a wrapped raw value is that value: what [`Velocity::spec_new`]
/// wraps, the view reads back.
pub proof fn lemma_velocity_wraps(value: u16)
    ensures
        (Velocity::spec_new(value))@ == value,
{
}

/// Decoding a velocity value inverts encoding it.
pub proof fn lemma_velocity_round_trip(w: Seq<u32>, v: Velocity)
    requires
        field_bits(w, 32, 16) == v@ as nat,
    ensures
        Velocity::spec_read(w) == Ok::<Velocity, Error>(v),
{
}

/// The Data field: the full 32-bit second word of a controller or
/// pitch-bend Voice message.
#[derive(Debug, Default, PartialEq, Eq, PartialOrd, Ord, Structural)]
pub struct Data(u32);

impl View for Data {
    type V = u32;

    closed spec fn view(&self) -> u32 {
        self.0
    }
}

impl Data {
    /// The value a raw integer wraps to. Used only to state contracts.
    pub closed spec fn spec_new(value: u32) -> Data {
        Data(value)
    }

    /// Wraps a raw value; the declared width fills its backing integer, so
    /// every value is valid.
    pub fn new(value: u32) -> (r: Self)
        ensures
            r@ == value,
    {
        Data(value)
    }

    /// The raw value back out of the field value; always possible.
    pub fn value(&self) -> (r: u32)
        ensures
            r == self@,
    {
        self.0
    }

    /// What reading the field's range returns: the loaded value, always;
    /// the range is as wide as the backing integer, so reading never
    /// fails.
    pub open spec fn spec_read(words: Seq<u32>) -> Result<Data, Error> {
        Ok(Data::spec_new(field_bits(words, 32, 32) as u32))
    }

    pub(crate) fn read(words: &Vec<u32>) -> (r: Result<Data, Error>)
        requires
            words@.len() >= 2,
        ensures
            r == Data::spec_read(words@),
    {
        proof {
            lemma_field_bits_bound(words@, 32, 32);
            lemma2_to64();
            vstd::arithmetic::power2::lemma_pow2_adds(16, 16);
        }
        let raw = load_field(words, 32, 32) as u32;
        Ok(Data(raw))
    }

    pub(crate) fn write(self, words: &mut Vec<u32>)
        requires
            old(words)@.len() >= 2,
        ensures
            final(words)@.len() == old(words)@.len(),
            field_bits(final(words)@, 32, 32) == self@ as nat,
            unchanged_outside(old(words)@, final(words)@, 32, 32),
    {
        proof {
            lemma2_to64();
            vstd::arithmetic::power2::lemma_pow2_adds(16, 16);
        }
        store_field(words, 32, 32, self.0 as u32);
    }
}

/// The view of a wrapped raw value is that value: what [`Data::spec_new`]
/// wraps, the view reads back.
pub proof fn lemma_data_wraps(value: u32)
    ensures
        (Data::spec_new(value))@ == value,
{
}

/// Decoding a data value inverts encoding it.
pub proof fn lemma_data_round_trip(w: Seq<u32>, v: Data)
    requires
        field_bits(w, 32, 32) == v@ as nat,
    ensures
        Data::spec_read(w) == Ok::<Data, Error>(v),
{
}

/// The Manufacturer attribute payload: a 16-bit manufacturer-specific
/// value at bits 48 to 63 of a Note On or Note Off message.
#[derive(Debug, Default, PartialEq, Eq, PartialOrd, Ord, Structural)]
pub struct Manufacturer(u16);

impl View for Manufacturer {
    type V = u16;

    closed spec fn view(&self) -> u16 {
        self.0
    }
}

impl Manufacturer {
    /// The value a raw integer wraps to. Used only to state contracts.
    pub closed spec fn spec_new(value: u16) -> Manufacturer {
        Manufacturer(value)
    }

    /// Wraps a raw value; the declared width fills its backing integer, so
    /// every value is valid.
    pub fn new(value: u16) -> (r: Self)
        ensures
            r@ == value,
    {
        Manufacturer(value)
    }

    /// The raw value back out of the field value; always possible.
    pub fn value(&self) -> (r: u16)
        ensures
            r == self@,
    {
        self.0
    }

    /// What reading the field's range returns: the loaded value, always;
    /// the range is as wide as the backing integer, so reading never
    /// fails.
    pub open spec fn spec_read(words: Seq<u32>) -> Result<Manufacturer, Error> {
        Ok(Manufacturer::spec_new(field_bits(words, 48, 16) as u16))
    }

    pub(crate) fn read(words: &Vec<u32>) -> (r: Result<Manufacturer, Error>)
        requires
            words@.len() >= 2,
        ensures
            r == Manufacturer::spec_read(words@),
    {
        proof {
            lemma_field_bits_bound(words@, 48, 16);
            lemma2_to64();
            vstd::arithmetic::power2::lemma_pow2_adds(16, 16);
        }
        let raw = load_field(words, 48, 16) as u16;
        Ok(Manufacturer(raw))
    }

    pub(crate) fn write(self, words: &mut Vec<u32>)
        requires
            old(words)@.len() >= 2,
        ensures
            final(words)@.len() == old(words)@.len(),
            field_bits(final(words)@, 48, 16) == self@ as nat,
            unchanged_outside(old(words)@, final(words)@, 48, 16),
    {
        proof {
            lemma2_to64();
            vstd::arithmetic::power2::lemma_pow2_adds(16, 16);
        }
        store_field(words, 48, 16, self.0 as u32);
    }
}

/// The view of a wrapped raw value is that value: what [`Manufacturer::spec_new`]
/// wraps, the view reads back.
pub proof fn lemma_manufacturer_wraps(value: u16)
    ensures
        (Manufacturer::spec_new(value))@ == value,
{
}

/// Decoding a manufacturer attribute value inverts encoding it.
pub proof fn lemma_manufacturer_round_trip(w: Seq<u32>, v: Manufacturer)
    requires
        field_bits(w, 48, 16) == v@ as nat,
    ensures
        Manufacturer::spec_read(w) == Ok::<Manufacturer, Error>(v),
{
}

/// The Profile attribute payload: a 16-bit profile-specific value at
/// bits 48 to 63 of a Note On or Note Off message.
#[derive(Debug, Default, PartialEq, Eq, PartialOrd, Ord, Structural)]
pub struct Profile(u16);

impl View for Profile {
    type V = u16;

    closed spec fn view(&self) -> u16 {
        self.0
    }
}

impl Profile {
    /// The value a raw integer wraps to. Used only to state contracts.
    pub closed spec fn spec_new(value: u16) -> Profile {
        Profile(value)
    }

    /// Wraps a raw value; the declared width fills its backing integer, so
    /// every value is valid.
    pub fn new(value: u16) -> (r: Self)
        ensures
            r@ == value,
    {
        Profile(value)
    }

    /// The raw value back out of the field value; always possible.
    pub fn value(&self) -> (r: u16)
        ensures
            r == self@,
    {
        self.0
    }

    /// What reading the field's range returns: the loaded value, always;
    /// the range is as wide as the backing integer, so reading never
    /// fails.
    pub open spec fn spec_read(words: Seq<u32>) -> Result<Profile, Error> {
        Ok(Profile::spec_new(field_bits(words, 48, 16) as u16))
    }

    pub(crate) fn read(words: &Vec<u32>) -> (r: Result<Profile, Error>)
        requires
            words@.len() >= 2,
        ensures
            r == Profile::spec_read(words@),
    {
        proof {
            lemma_field_bits_bound(words@, 48, 16);
            lemma2_to64();
            vstd::arithmetic::power2::lemma_pow2_adds(16, 16);
        }
        let raw = load_field(words, 48, 16) as u16;
        Ok(Profile(raw))
    }

    pub(crate) fn write(self, words: &mut Vec<u32>)
        requires
            old(words)@.len() >= 2,
        ensures
            final(words)@.len() == old(words)@.len(),
            field_bits(final(words)@, 48, 16) == self@ as nat,
            unchanged_outside(old(words)@, final(words)@, 48, 16),
    {
        proof {
            lemma2_to64();
            vstd::arithmetic::power2::lemma_pow2_adds(16, 16);
        }
        store_field(words, 48, 16, self.0 as u32);
    }
}

/// The view of a wrapped raw value is that value: what [`Profile::spec_new`]
/// wraps, the view reads back.
pub proof fn lemma_profile_wraps(value: u16)
    ensures
        (Profile::spec_new(value))@ == value,
{
}

/// Decoding a profile attribute value inverts encoding it.
pub proof fn lemma_profile_round_trip(w: Seq<u32>, v: Profile)
    requires
        field_bits(w, 48, 16) == v@ as nat,
    ensures
        Profile::spec_read(w) == Ok::<Profile, Error>(v),
{
}

/// A Note On / Note Off attribute: a composite of the 8-bit attribute
/// type at bits 24 to 31 and a type-dependent payload at bits 48 to 63.
/// Decoding reads the type first and then only the payload fields that
/// type declares; it is atomic, so no partially-read attribute is ever
/// produced.
#[derive(Debug, PartialEq, Eq, Structural)]
pub enum Attribute {
    NoAttribute,
    Manufacturer(Manufacturer),
    Profile(Profile),
    Pitch(Pitch, Fractional),
}

impl Attribute {
    /// The wire code of this attribute's type.
    pub open spec fn spec_type_code(self) -> u8 {
        match self {
            Attribute::NoAttribute => 0x0,
            Attribute::Manufacturer(_) => 0x1,
            Attribute::Profile(_) => 0x2,
            Attribute::Pitch(_, _) => 0x3,
        }
    }

    /// A valid attribute: its payload values fit their declared widths.
    pub open spec fn inv(self) -> bool {
        match self {
            Attribute::Pitch(p, f) => p.inv() && f.inv(),
            _ => true,
        }
    }

    /// What reading the attribute ranges returns: the payload selected by
    /// the attribute type code, or a conversion error carrying an
    /// undefined code.
    pub open spec fn spec_read(words: Seq<u32>) -> Result<Attribute, Error> {
        let code = field_bits(words, 24, 8);
        if code == 0x0 {
            Ok(Attribute::NoAttribute)
        } else if code == 0x1 {
            Ok(Attribute::Manufacturer(Manufacturer::spec_new(field_bits(words, 48, 16) as u16)))
        } else if code == 0x2 {
            Ok(Attribute::Profile(Profile::spec_new(field_bits(words, 48, 16) as u16)))
        } else if code == 0x3 {
            Ok(
                Attribute::Pitch(
                    Pitch::spec_new(field_bits(words, 48, 7) as u8),
                    Fractional::spec_new(field_bits(words, 55, 9) as u16),
                ),
            )
        } else {
            Err(Error::Conversion(code as u8))
        }
    }

    pub(crate) fn read(words: &Vec<u32>) -> (r: Result<Attribute, Error>)
        requires
            words@.len() >= 2,
        ensures
            r == Attribute::spec_read(words@),
    {
        proof {
            lemma_field_bits_bound(words@, 24, 8);
            lemma_field_bits_bound(words@, 48, 7);
            lemma_field_bits_bound(words@, 55, 9);
            lemma2_to64();
        }
        let code = load_field(words, 24, 8) as u8;
        match code {
            0x0 => Ok(Attribute::NoAttribute),
            0x1 => match Manufacturer::read(words) {
                Ok(m) => Ok(Attribute::Manufacturer(m)),
                Err(e) => Err(e),
            },
            0x2 => match Profile::read(words) {
                Ok(p) => Ok(Attribute::Profile(p)),
                Err(e) => Err(e),
            },
            0x3 => {
                let p = match Pitch::read(words) {
                    Ok(p) => p,
                    Err(e) => {
                        return Err(e);
                    },
                };
                let f = match Fractional::read(words) {
                    Ok(f) => f,
                    Err(e) => {
                        return Err(e);
                    },
                };
                Ok(Attribute::Pitch(p, f))
            },
            _ => Err(Error::conversion(code)),
        }
    }

    /// Writes the attribute type code and then the payload the type
    /// declares. A validly constructed attribute always encodes; nothing
    /// outside the type byte and the payload range is touched, and an
    /// attribute without payload leaves the payload range alone.
    pub(crate) fn write(self, words: &mut Vec<u32>)
        requires
            old(words)@.len() >= 2,
        ensures
            final(words)@.len() == old(words)@.len(),
            field_bits(final(words)@, 24, 8) == self.spec_type_code() as nat,
            match self {
                Attribute::NoAttribute => unchanged_outside(old(words)@, final(words)@, 24, 8),
                Attribute::Manufacturer(m) => field_bits(final(words)@, 48, 16) == m@ as nat
                    && unchanged_outside2(old(words)@, final(words)@, 24, 8, 48, 16),
                Attribute::Profile(p) => field_bits(final(words)@, 48, 16) == p@ as nat
                    && unchanged_outside2(old(words)@, final(words)@, 24, 8, 48, 16),
                Attribute::Pitch(p, f) => field_bits(final(words)@, 48, 7) == p@ as nat
                    && field_bits(final(words)@, 55, 9) == f@ as nat && unchanged_outside2(
                    old(words)@,
                    final(words)@,
                    24,
                    8,
                    48,
                    16,
                ),
            },
    {
        proof {
            lemma2_to64();
        }
        let ghost w0 = words@;
        match self {
            Attribute::NoAttribute => {
                store_field(words, 24, 8, 0x0);
            },
            Attribute::Manufacturer(m) => {
                store_field(words, 24, 8, 0x1);
                let ghost w1 = words@;
                m.write(words);
                proof {
                    let w2 = words@;
                    crate::packet::lemma_frame_field(w1, w2, 48, 16, 24, 8);
                    assert forall|j: int|
                        0 <= j < w0.len() * 32 && !(24 <= j < 32) && !(48 <= j < 64) implies #[trigger] bit_get(
                        w2,
                        j,
                    ) == bit_get(w0, j) by {
                        assert(bit_get(w1, j) == bit_get(w0, j));
                        assert(bit_get(w2, j) == bit_get(w1, j));
                    }
                }
            },
            Attribute::Profile(p) => {
                store_field(words, 24, 8, 0x2);
                let ghost w1 = words@;
                p.write(words);
                proof {
                    let w2 = words@;
                    crate::packet::lemma_frame_field(w1, w2, 48, 16, 24, 8);
                    assert forall|j: int|
                        0 <= j < w0.len() * 32 && !(24 <= j < 32) && !(48 <= j < 64) implies #[trigger] bit_get(
                        w2,
                        j,
                    ) == bit_get(w0, j) by {
                        assert(bit_get(w1, j) == bit_get(w0, j));
                        assert(bit_get(w2, j) == bit_get(w1, j));
                    }
                }
            },
            Attribute::Pitch(p, f) => {
                store_field(words, 24, 8, 0x3);
                let ghost w1 = words@;
                p.write(words);
                let ghost w2 = words@;
                f.write(words);
                proof {
                    let w3 = words@;
                    crate::packet::lemma_frame_field(w1, w2, 48, 7, 24, 8);
                    crate::packet::lemma_frame_field(w2, w3, 55, 9, 24, 8);
                    crate::packet::lemma_frame_field(w2, w3, 55, 9, 48, 7);
                    assert forall|j: int|
                        0 <= j < w0.len() * 32 && !(24 <= j < 32) && !(48 <= j < 64) implies #[trigger] bit_get(
                        w3,
                        j,
                    ) == bit_get(w0, j) by {
                        assert(bit_get(w1, j) == bit_get(w0, j));
                        assert(bit_get(w2, j) == bit_get(w1, j));
                        assert(bit_get(w3, j) == bit_get(w2, j));
                    }
                }
            },
        }
    }
}

/// Decoding an attribute inverts encoding it: the type code and payload an
/// attribute is written as read back as exactly that attribute.
pub proof fn lemma_attribute_round_trip(w: Seq<u32>, a: Attribute)
    requires
        a.inv(),
        field_bits(w, 24, 8) == a.spec_type_code() as nat,
        match a {
            Attribute::NoAttribute => true,
            Attribute::Manufacturer(m) => field_bits(w, 48, 16) == m@ as nat,
            Attribute::Profile(p) => field_bits(w, 48, 16) == p@ as nat,
            Attribute::Pitch(p, f) => field_bits(w, 48, 7) == p@ as nat && field_bits(w, 55, 9)
                == f@ as nat,
        },
    ensures
        Attribute::spec_read(w) == Ok::<Attribute, Error>(a),
{
}

/// The anatomy of a Voice message's first word: the word is the weighted
/// sum of its fields, each below its width's bound.
pub proof fn lemma_voice_word0(w: Seq<u32>)
    requires
        w.len() == 2,
    ensures
        w[0] as nat == field_bits(w, 0, 4) * 0x10000000 + field_bits(w, 4, 4) * 0x1000000
            + field_bits(w, 8, 4) * 0x100000 + field_bits(w, 12, 4) * 0x10000 + field_bits(
            w,
            16,
            8,
        ) * 0x100 + field_bits(w, 24, 8),
        field_bits(w, 0, 4) < 0x10,
        field_bits(w, 4, 4) < 0x10,
        field_bits(w, 8, 4) < 0x10,
        field_bits(w, 12, 4) < 0x10,
        field_bits(w, 16, 8) < 0x100,
        field_bits(w, 24, 8) < 0x100,
{
    crate::packet::lemma_word_value(w, 0);
    crate::packet::lemma_field_bits_split(w, 0, 4, 28);
    crate::packet::lemma_field_bits_split(w, 4, 4, 24);
    crate::packet::lemma_field_bits_split(w, 8, 4, 20);
    crate::packet::lemma_field_bits_split(w, 12, 4, 16);
    crate::packet::lemma_field_bits_split(w, 16, 8, 8);
    lemma_field_bits_bound(w, 0, 4);
    lemma_field_bits_bound(w, 4, 4);
    lemma_field_bits_bound(w, 8, 4);
    lemma_field_bits_bound(w, 12, 4);
    lemma_field_bits_bound(w, 16, 8);
    lemma_field_bits_bound(w, 24, 8);
    lemma2_to64();
}

/// The anatomy of a Voice message's second word: the word is the weighted
/// sum of its fields, each below its width's bound. The payload half at
/// bits 48 to 63 is further subdivided as a pitch attribute uses it.
pub proof fn lemma_voice_word1(w: Seq<u32>)
    requires
        w.len() == 2,
    ensures
        w[1] as nat == field_bits(w, 32, 16) * 0x10000 + field_bits(w, 48, 7) * 0x200 + field_bits(
            w,
            55,
            9,
        ),
        field_bits(w, 48, 16) == field_bits(w, 48, 7) * 0x200 + field_bits(w, 55, 9),
        field_bits(w, 32, 32) == w[1] as nat,
        field_bits(w, 32, 16) < 0x10000,
        field_bits(w, 48, 16) < 0x10000,
        field_bits(w, 48, 7) < 0x80,
        field_bits(w, 55, 9) < 0x200,
{
    crate::packet::lemma_word_value(w, 1);
    crate::packet::lemma_field_bits_split(w, 32, 16, 16);
    crate::packet::lemma_field_bits_split(w, 48, 7, 9);
    lemma_field_bits_bound(w, 32, 16);
    lemma_field_bits_bound(w, 48, 16);
    lemma_field_bits_bound(w, 48, 7);
    lemma_field_bits_bound(w, 55, 9);
    lemma2_to64();
}

/// Zeroes a two-word packet and writes the Voice message type code and the
/// given opcode into it, the shared first step of every Voice message's
/// initialization.
pub(crate) fn init_voice_words(words: &mut Vec<u32>, opcode: Opcode)
    requires
        old(words)@.len() == 2,
    ensures
        final(words)@.len() == 2,
        final(words)@[0] as nat == 0x40000000 + opcode.spec_code() * 0x100000,
        final(words)@[1] == 0u32,
{
    crate::packet::zero_fill(words);
    let ghost w0 = words@;
    proof {
        lemma2_to64();
        crate::packet::lemma_zero_field(w0, 0, 4);
    }
    store_field(words, 0, 4, 0x4);
    let ghost w1 = words@;
    proof {
        crate::packet::lemma_store_into_clear(w0, w1, 0, 0, 4, 0x4);
        crate::packet::lemma_zero_field(w0, 8, 4);
        crate::packet::lemma_frame_field(w0, w1, 0, 4, 8, 4);
    }
    let code = opcode.code();
    store_field(words, 8, 4, code as u32);
    proof {
        let w2 = words@;
        crate::packet::lemma_store_into_clear(w1, w2, 0, 8, 4, code as nat);
        assert(w1[0] as nat == 0x40000000) by {
            assert(w0[0] == 0u32);
        }
        assert(w2[1] == 0u32) by {
            assert(w1[1] == w0[1]);
            assert(w0[1] == 0u32);
        }
    }
}

/// The Registered Per-Note Controller message, a Voice message whose Opcode is `0x0`.
#[derive(Debug)]
pub struct RegisteredPerNoteController {
    words: Vec<u32>,
}

impl View for RegisteredPerNoteController {
    type V = Seq<u32>;

    closed spec fn view(&self) -> Seq<u32> {
        self.words@
    }
}

impl RegisteredPerNoteController {
    #[verifier::type_invariant]
    spec fn wf(self) -> bool {
        self.words@.len() == 2
    }

    /// A zero-filled buffer of the exact word count of this message kind.
    pub fn packet() -> (r: Vec<u32>)
        ensures
            r@ == seq![0u32, 0u32],
    {
        let mut v: Vec<u32> = Vec::new();
        v.push(0u32);
        v.push(0u32);
        proof {
            assert(v@ =~= seq![0u32, 0u32]);
        }
        v
    }

    /// Wraps an existing buffer as a message of this kind. The buffer must
    /// be exactly two words; any other length is rejected with a size
    /// error carrying the expected and actual bit counts.
    pub fn try_from_packet(words: Vec<u32>) -> (r: Result<Self, Error>)
        requires
            words@.len() * 32 <= u64::MAX,
        ensures
            match r {
                Ok(m) => words@.len() == 2 && m@ == words@,
                Err(e) => words@.len() != 2 && e == Error::Size(64, (words@.len() * 32) as u64),
            },
    {
        if words.len() == 2 {
            Ok(RegisteredPerNoteController { words })
        } else {
            let actual = (words.len() as u64) * 32;
            Err(Error::size(64, actual))
        }
    }

    /// Hands the backing buffer back.
    pub fn into_packet(self) -> (r: Vec<u32>)
        ensures
            r@ == self@,
    {
        self.words
    }

    /// Zeroes the whole packet in place, discarding every field including
    /// the discriminants.
    pub fn reset(self) -> (r: Self)
        ensures
            r@ == seq![0u32, 0u32],
    {
        proof {
            use_type_invariant(&self);
        }
        let RegisteredPerNoteController { mut words } = self;
        crate::packet::zero_fill(&mut words);
        proof {
            assert(words@ =~= seq![0u32, 0u32]);
        }
        RegisteredPerNoteController { words }
    }

    /// Initializes the buffer as a Registered Per-Note Controller message carrying the given
    /// note and per-note controller: the packet is zeroed, the fixed discriminants are
    /// written, and the two values are encoded, so the resulting words are
    /// a function of the arguments alone, whatever the buffer held before.
    pub fn try_init(packet: Vec<u32>, note: Note, per_note_controller: PerNoteController) -> (r: Result<Self, Error>)
        requires
            packet@.len() * 32 <= u64::MAX,
        ensures
            match r {
                Ok(m) => packet@.len() == 2 && m@.len() == 2 && m@[0] as nat == 0x40000000
                    + note@ * 0x100 + per_note_controller@ && m@[1] == 0u32,
                Err(e) => packet@.len() != 2 && e == Error::Size(64, (packet@.len() * 32) as u64),
            },
    {
        let m = Self::try_from_packet(packet)?;
        let RegisteredPerNoteController { mut words } = m;
        init_voice_words(&mut words, Opcode::RegisteredPerNoteController);
        let ghost w1 = words@;
        proof {
            lemma_voice_word0(w1);
            lemma2_to64();
        }
        note.write(&mut words);
        let ghost w2 = words@;
        proof {
            assert(field_bits(w1, 16, 8) == 0);
            crate::packet::lemma_store_into_clear(w1, w2, 0, 16, 8, note@ as nat);
            assert(w2[0] as nat == w1[0] as nat + note@ * 0x100);
            crate::packet::lemma_frame_field(w1, w2, 16, 8, 24, 8);
            assert(field_bits(w2, 24, 8) == 0);
        }
        per_note_controller.write(&mut words);
        proof {
            let w3 = words@;
            crate::packet::lemma_store_into_clear(w2, w3, 0, 24, 8, per_note_controller@ as nat);
            assert(w3[0] as nat == w2[0] as nat + per_note_controller@ * 1);
            assert(w3[1] == 0u32);
            assert(words@.len() == 2);
        }
        Ok(RegisteredPerNoteController { words })
    }

    /// Reads the Message Type field.
    pub fn message_type(&self) -> (r: Result<MessageType, Error>)
        ensures
            r == MessageType::spec_from_code(field_bits(self@, 0, 4) as u8),
    {
        proof {
            use_type_invariant(&*self);
        }
        MessageType::read(&self.words)
    }

    /// Writes the Message Type field, leaving every other bit unchanged.
    pub fn set_message_type(self, message_type: MessageType) -> (r: Self)
        ensures
            r@.len() == self@.len(),
            field_bits(r@, 0, 4) == message_type.spec_code() as nat,
            unchanged_outside(self@, r@, 0, 4),
    {
        proof {
            use_type_invariant(&self);
        }
        let RegisteredPerNoteController { mut words } = self;
        message_type.write(&mut words);
        RegisteredPerNoteController { words }
    }

    /// Reads the Group field.
    pub fn group(&self) -> (r: Result<Group, Error>)
        ensures
            r == Group::spec_from_code(field_bits(self@, 4, 4) as u8),
    {
        proof {
            use_type_invariant(&*self);
        }
        Group::read(&self.words)
    }

    /// Writes the Group field, leaving every other bit unchanged.
    pub fn set_group(self, group: Group) -> (r: Self)
        ensures
            r@.len() == self@.len(),
            field_bits(r@, 4, 4) == group.spec_code() as nat,
            unchanged_outside(self@, r@, 4, 4),
    {
        proof {
            use_type_invariant(&self);
        }
        let RegisteredPerNoteController { mut words } = self;
        group.write(&mut words);
        RegisteredPerNoteController { words }
    }

    /// Reads the Opcode field.
    pub fn opcode(&self) -> (r: Result<Opcode, Error>)
        ensures
            r == Opcode::spec_from_code(field_bits(self@, 8, 4) as u8),
    {
        proof {
            use_type_invariant(&*self);
        }
        Opcode::read(&self.words)
    }

    /// Writes the Opcode field, leaving every other bit unchanged.
    pub fn set_opcode(self, opcode: Opcode) -> (r: Self)
        ensures
            r@.len() == self@.len(),
            field_bits(r@, 8, 4) == opcode.spec_code() as nat,
            unchanged_outside(self@, r@, 8, 4),
    {
        proof {
            use_type_invariant(&self);
        }
        let RegisteredPerNoteController { mut words } = self;
        opcode.write(&mut words);
        RegisteredPerNoteController { words }
    }

    /// Reads the Channel field.
    pub fn channel(&self) -> (r: Result<Channel, Error>)
        ensures
            r == Channel::spec_from_code(field_bits(self@, 12, 4) as u8),
    {
        proof {
            use_type_invariant(&*self);
        }
        Channel::read(&self.words)
    }

    /// Writes the Channel field, leaving every other bit unchanged.
    pub fn set_channel(self, channel: Channel) -> (r: Self)
        ensures
            r@.len() == self@.len(),
            field_bits(r@, 12, 4) == channel.spec_code() as nat,
            unchanged_outside(self@, r@, 12, 4),
    {
        proof {
            use_type_invariant(&self);
        }
        let RegisteredPerNoteController { mut words } = self;
        channel.write(&mut words);
        RegisteredPerNoteController { words }
    }

    /// Reads the note field.
    pub fn note(&self) -> (r: Result<Note, Error>)
        ensures
            r == Note::spec_read(self@),
    {
        proof {
            use_type_invariant(&*self);
        }
        Note::read(&self.words)
    }

    /// Writes the note field, leaving every other bit unchanged.
    pub fn set_note(self, note: Note) -> (r: Self)
        ensures
            r@.len() == self@.len(),
            field_bits(r@, 16, 8) == note@ as nat,
            unchanged_outside(self@, r@, 16, 8),
    {
        proof {
            use_type_invariant(&self);
        }
        let RegisteredPerNoteController { mut words } = self;
        note.write(&mut words);
        RegisteredPerNoteController { words }
    }

    /// Reads the per-note controller field.
    pub fn per_note_controller(&self) -> (r: Result<PerNoteController, Error>)
        ensures
            r == PerNoteController::spec_read(self@),
    {
        proof {
            use_type_invariant(&*self);
        }
        PerNoteController::read(&self.words)
    }

    /// Writes the per-note controller field, leaving every other bit unchanged.
    pub fn set_per_note_controller(self, per_note_controller: PerNoteController) -> (r: Self)
        ensures
            r@.len() == self@.len(),
            field_bits(r@, 24, 8) == per_note_controller@ as nat,
            unchanged_outside(self@, r@, 24, 8),
    {
        proof {
            use_type_invariant(&self);
        }
        let RegisteredPerNoteController { mut words } = self;
        per_note_controller.write(&mut words);
        RegisteredPerNoteController { words }
    }

    /// Reads the data field.
    pub fn data(&self) -> (r: Result<Data, Error>)
        ensures
            r == Data::spec_read(self@),
    {
        proof {
            use_type_invariant(&*self);
        }
        Data::read(&self.words)
    }

    /// Writes the data field, leaving every other bit unchanged.
    pub fn set_data(self, data: Data) -> (r: Self)
        ensures
            r@.len() == self@.len(),
            field_bits(r@, 32, 32) == data@ as nat,
            unchanged_outside(self@, r@, 32, 32),
    {
        proof {
            use_type_invariant(&self);
        }
        let RegisteredPerNoteController { mut words } = self;
        data.write(&mut words);
        RegisteredPerNoteController { words }
    }

}

/// The Assignable Per-Note Controller message, a Voice message whose Opcode is `0x1`.
#[derive(Debug)]
pub struct AssignablePerNoteController {
    words: Vec<u32>,
}

impl View for AssignablePerNoteController {
    type V = Seq<u32>;

    closed spec fn view(&self) -> Seq<u32> {
        self.words@
    }
}

impl AssignablePerNoteController {
    #[verifier::type_invariant]
    spec fn wf(self) -> bool {
        self.words@.len() == 2
    }

    /// A zero-filled buffer of the exact word count of this message kind.
    pub fn packet() -> (r: Vec<u32>)
        ensures
            r@ == seq![0u32, 0u32],
    {
        let mut v: Vec<u32> = Vec::new();
        v.push(0u32);
        v.push(0u32);
        proof {
            assert(v@ =~= seq![0u32, 0u32]);
        }
        v
    }

    /// Wraps an existing buffer as a message of this kind. The buffer must
    /// be exactly two words; any other length is rejected with a size
    /// error carrying the expected and actual bit counts.
    pub fn try_from_packet(words: Vec<u32>) -> (r: Result<Self, Error>)
        requires
            words@.len() * 32 <= u64::MAX,
        ensures
            match r {
                Ok(m) => words@.len() == 2 && m@ == words@,
                Err(e) => words@.len() != 2 && e == Error::Size(64, (words@.len() * 32) as u64),
            },
    {
        if words.len() == 2 {
            Ok(AssignablePerNoteController { words })
        } else {
            let actual = (words.len() as u64) * 32;
            Err(Error::size(64, actual))
        }
    }

    /// Hands the backing buffer back.
    pub fn into_packet(self) -> (r: Vec<u32>)
        ensures
            r@ == self@,
    {
        self.words
    }

    /// Zeroes the whole packet in place, discarding every field including
    /// the discriminants.
    pub fn reset(self) -> (r: Self)
        ensures
            r@ == seq![0u32, 0u32],
    {
        proof {
            use_type_invariant(&self);
        }
        let AssignablePerNoteController { mut words } = self;
        crate::packet::zero_fill(&mut words);
        proof {
            assert(words@ =~= seq![0u32, 0u32]);
        }
        AssignablePerNoteController { words }
    }

    /// Initializes the buffer as a Assignable Per-Note Controller message carrying the given
    /// note and per-note controller: the packet is zeroed, the fixed discriminants are
    /// written, and the two values are encoded, so the resulting words are
    /// a function of the arguments alone, whatever the buffer held before.
    pub fn try_init(packet: Vec<u32>, note: Note, per_note_controller: PerNoteController) -> (r: Result<Self, Error>)
        requires
            packet@.len() * 32 <= u64::MAX,
        ensures
            match r {
                Ok(m) => packet@.len() == 2 && m@.len() == 2 && m@[0] as nat == 0x40100000
                    + note@ * 0x100 + per_note_controller@ && m@[1] == 0u32,
                Err(e) => packet@.len() != 2 && e == Error::Size(64, (packet@.len() * 32) as u64),
            },
    {
        let m = Self::try_from_packet(packet)?;
        let AssignablePerNoteController { mut words } = m;
        init_voice_words(&mut words, Opcode::AssignablePerNoteController);
        let ghost w1 = words@;
        proof {
            lemma_voice_word0(w1);
            lemma2_to64();
        }
        note.write(&mut words);
        let ghost w2 = words@;
        proof {
            assert(field_bits(w1, 16, 8) == 0);
            crate::packet::lemma_store_into_clear(w1, w2, 0, 16, 8, note@ as nat);
            assert(w2[0] as nat == w1[0] as nat + note@ * 0x100);
            crate::packet::lemma_frame_field(w1, w2, 16, 8, 24, 8);
            assert(field_bits(w2, 24, 8) == 0);
        }
        per_note_controller.write(&mut words);
        proof {
            let w3 = words@;
            crate::packet::lemma_store_into_clear(w2, w3, 0, 24, 8, per_note_controller@ as nat);
            assert(w3[0] as nat == w2[0] as nat + per_note_controller@ * 1);
            assert(w3[1] == 0u32);
            assert(words@.len() == 2);
        }
        Ok(AssignablePerNoteController { words })
    }

    /// Reads the Message Type field.
    pub fn message_type(&self) -> (r: Result<MessageType, Error>)
        ensures
            r == MessageType::spec_from_code(field_bits(self@, 0, 4) as u8),
    {
        proof {
            use_type_invariant(&*self);
        }
        MessageType::read(&self.words)
    }

    /// Writes the Message Type field, leaving every other bit unchanged.
    pub fn set_message_type(self, message_type: MessageType) -> (r: Self)
        ensures
            r@.len() == self@.len(),
            field_bits(r@, 0, 4) == message_type.spec_code() as nat,
            unchanged_outside(self@, r@, 0, 4),
    {
        proof {
            use_type_invariant(&self);
        }
        let AssignablePerNoteController { mut words } = self;
        message_type.write(&mut words);
        AssignablePerNoteController { words }
    }

    /// Reads the Group field.
    pub fn group(&self) -> (r: Result<Group, Error>)
        ensures
            r == Group::spec_from_code(field_bits(self@, 4, 4) as u8),
    {
        proof {
            use_type_invariant(&*self);
        }
        Group::read(&self.words)
    }

    /// Writes the Group field, leaving every other bit unchanged.
    pub fn set_group(self, group: Group) -> (r: Self)
        ensures
            r@.len() == self@.len(),
            field_bits(r@, 4, 4) == group.spec_code() as nat,
            unchanged_outside(self@, r@, 4, 4),
    {
        proof {
            use_type_invariant(&self);
        }
        let AssignablePerNoteController { mut words } = self;
        group.write(&mut words);
        AssignablePerNoteController { words }
    }

    /// Reads the Opcode field.
    pub fn opcode(&self) -> (r: Result<Opcode, Error>)
        ensures
            r == Opcode::spec_from_code(field_bits(self@, 8, 4) as u8),
    {
        proof {
            use_type_invariant(&*self);
        }
        Opcode::read(&self.words)
    }

    /// Writes the Opcode field, leaving every other bit unchanged.
    pub fn set_opcode(self, opcode: Opcode) -> (r: Self)
        ensures
            r@.len() == self@.len(),
            field_bits(r@, 8, 4) == opcode.spec_code() as nat,
            unchanged_outside(self@, r@, 8, 4),
    {
        proof {
            use_type_invariant(&self);
        }
        let AssignablePerNoteController { mut words } = self;
        opcode.write(&mut words);
        AssignablePerNoteController { words }
    }

    /// Reads the Channel field.
    pub fn channel(&self) -> (r: Result<Channel, Error>)
        ensures
            r == Channel::spec_from_code(field_bits(self@, 12, 4) as u8),
    {
        proof {
            use_type_invariant(&*self);
        }
        Channel::read(&self.words)
    }

    /// Writes the Channel field, leaving every other bit unchanged.
    pub fn set_channel(self, channel: Channel) -> (r: Self)
        ensures
            r@.len() == self@.len(),
            field_bits(r@, 12, 4) == channel.spec_code() as nat,
            unchanged_outside(self@, r@, 12, 4),
    {
        proof {
            use_type_invariant(&self);
        }
        let AssignablePerNoteController { mut words } = self;
        channel.write(&mut words);
        AssignablePerNoteController { words }
    }

    /// Reads the note field.
    pub fn note(&self) -> (r: Result<Note, Error>)
        ensures
            r == Note::spec_read(self@),
    {
        proof {
            use_type_invariant(&*self);
        }
        Note::read(&self.words)
    }

    /// Writes the note field, leaving every other bit unchanged.
    pub fn set_note(self, note: Note) -> (r: Self)
        ensures
            r@.len() == self@.len(),
            field_bits(r@, 16, 8) == note@ as nat,
            unchanged_outside(self@, r@, 16, 8),
    {
        proof {
            use_type_invariant(&self);
        }
        let AssignablePerNoteController { mut words } = self;
        note.write(&mut words);
        AssignablePerNoteController { words }
    }

    /// Reads the per-note controller field.
    pub fn per_note_controller(&self) -> (r: Result<PerNoteController, Error>)
        ensures
            r == PerNoteController::spec_read(self@),
    {
        proof {
            use_type_invariant(&*self);
        }
        PerNoteController::read(&self.words)
    }

    /// Writes the per-note controller field, leaving every other bit unchanged.
    pub fn set_per_note_controller(self, per_note_controller: PerNoteController) -> (r: Self)
        ensures
            r@.len() == self@.len(),
            field_bits(r@, 24, 8) == per_note_controller@ as nat,
            unchanged_outside(self@, r@, 24, 8),
    {
        proof {
            use_type_invariant(&self);
        }
        let AssignablePerNoteController { mut words } = self;
        per_note_controller.write(&mut words);
        AssignablePerNoteController { words }
    }

    /// Reads the data field.
    pub fn data(&self) -> (r: Result<Data, Error>)
        ensures
            r == Data::spec_read(self@),
    {
        proof {
            use_type_invariant(&*self);
        }
        Data::read(&self.words)
    }

    /// Writes the data field, leaving every other bit unchanged.
    pub fn set_data(self, data: Data) -> (r: Self)
        ensures
            r@.len() == self@.len(),
            field_bits(r@, 32, 32) == data@ as nat,
            unchanged_outside(self@, r@, 32, 32),
    {
        proof {
            use_type_invariant(&self);
        }
        let AssignablePerNoteController { mut words } = self;
        data.write(&mut words);
        AssignablePerNoteController { words }
    }

}

/// The Registered Controller message, a Voice message whose Opcode is `0x2`.
#[derive(Debug)]
pub struct RegisteredController {
    words: Vec<u32>,
}

impl View for RegisteredController {
    type V = Seq<u32>;

    closed spec fn view(&self) -> Seq<u32> {
        self.words@
    }
}

impl RegisteredController {
    #[verifier::type_invariant]
    spec fn wf(self) -> bool {
        self.words@.len() == 2
    }

    /// A zero-filled buffer of the exact word count of this message kind.
    pub fn packet() -> (r: Vec<u32>)
        ensures
            r@ == seq![0u32, 0u32],
    {
        let mut v: Vec<u32> = Vec::new();
        v.push(0u32);
        v.push(0u32);
        proof {
            assert(v@ =~= seq![0u32, 0u32]);
        }
        v
    }

    /// Wraps an existing buffer as a message of this kind. The buffer must
    /// be exactly two words; any other length is rejected with a size
    /// error carrying the expected and actual bit counts.
    pub fn try_from_packet(words: Vec<u32>) -> (r: Result<Self, Error>)
        requires
            words@.len() * 32 <= u64::MAX,
        ensures
            match r {
                Ok(m) => words@.len() == 2 && m@ == words@,
                Err(e) => words@.len() != 2 && e == Error::Size(64, (words@.len() * 32) as u64),
            },
    {
        if words.len() == 2 {
            Ok(RegisteredController { words })
        } else {
            let actual = (words.len() as u64) * 32;
            Err(Error::size(64, actual))
        }
    }

    /// Hands the backing buffer back.
    pub fn into_packet(self) -> (r: Vec<u32>)
        ensures
            r@ == self@,
    {
        self.words
    }

    /// Zeroes the whole packet in place, discarding every field including
    /// the discriminants.
    pub fn reset(self) -> (r: Self)
        ensures
            r@ == seq![0u32, 0u32],
    {
        proof {
            use_type_invariant(&self);
        }
        let RegisteredController { mut words } = self;
        crate::packet::zero_fill(&mut words);
        proof {
            assert(words@ =~= seq![0u32, 0u32]);
        }
        RegisteredController { words }
    }

    /// Initializes the buffer as a Registered Controller message carrying the given
    /// bank and controller: the packet is zeroed, the fixed discriminants are
    /// written, and the two values are encoded, so the resulting words are
    /// a function of the arguments alone, whatever the buffer held before.
    pub fn try_init(packet: Vec<u32>, bank: Bank, controller: Controller) -> (r: Result<Self, Error>)
        requires
            packet@.len() * 32 <= u64::MAX,
        ensures
            match r {
                Ok(m) => packet@.len() == 2 && m@.len() == 2 && m@[0] as nat == 0x40200000
                    + bank@ * 0x100 + controller@ && m@[1] == 0u32,
                Err(e) => packet@.len() != 2 && e == Error::Size(64, (packet@.len() * 32) as u64),
            },
    {
        let m = Self::try_from_packet(packet)?;
        let RegisteredController { mut words } = m;
        init_voice_words(&mut words, Opcode::RegisteredController);
        let ghost w1 = words@;
        proof {
            lemma_voice_word0(w1);
            lemma2_to64();
        }
        bank.write(&mut words);
        let ghost w2 = words@;
        proof {
            assert(field_bits(w1, 16, 8) == 0);
            crate::packet::lemma_store_into_clear(w1, w2, 0, 16, 8, bank@ as nat);
            assert(w2[0] as nat == w1[0] as nat + bank@ * 0x100);
            crate::packet::lemma_frame_field(w1, w2, 16, 8, 24, 8);
            assert(field_bits(w2, 24, 8) == 0);
        }
        controller.write(&mut words);
        proof {
            let w3 = words@;
            crate::packet::lemma_store_into_clear(w2, w3, 0, 24, 8, controller@ as nat);
            assert(w3[0] as nat == w2[0] as nat + controller@ * 1);
            assert(w3[1] == 0u32);
            assert(words@.len() == 2);
        }
        Ok(RegisteredController { words })
    }

    /// Reads the Message Type field.
    pub fn message_type(&self) -> (r: Result<MessageType, Error>)
        ensures
            r == MessageType::spec_from_code(field_bits(self@, 0, 4) as u8),
    {
        proof {
            use_type_invariant(&*self);
        }
        MessageType::read(&self.words)
    }

    /// Writes the Message Type field, leaving every other bit unchanged.
    pub fn set_message_type(self, message_type: MessageType) -> (r: Self)
        ensures
            r@.len() == self@.len(),
            field_bits(r@, 0, 4) == message_type.spec_code() as nat,
            unchanged_outside(self@, r@, 0, 4),
    {
        proof {
            use_type_invariant(&self);
        }
        let RegisteredController { mut words } = self;
        message_type.write(&mut words);
        RegisteredController { words }
    }

    /// Reads the Group field.
    pub fn group(&self) -> (r: Result<Group, Error>)
        ensures
            r == Group::spec_from_code(field_bits(self@, 4, 4) as u8),
    {
        proof {
            use_type_invariant(&*self);
        }
        Group::read(&self.words)
    }

    /// Writes the Group field, leaving every other bit unchanged.
    pub fn set_group(self, group: Group) -> (r: Self)
        ensures
            r@.len() == self@.len(),
            field_bits(r@, 4, 4) == group.spec_code() as nat,
            unchanged_outside(self@, r@, 4, 4),
    {
        proof {
            use_type_invariant(&self);
        }
        let RegisteredController { mut words } = self;
        group.write(&mut words);
        RegisteredController { words }
    }

    /// Reads the Opcode field.
    pub fn opcode(&self) -> (r: Result<Opcode, Error>)
        ensures
            r == Opcode::spec_from_code(field_bits(self@, 8, 4) as u8),
    {
        proof {
            use_type_invariant(&*self);
        }
        Opcode::read(&self.words)
    }

    /// Writes the Opcode field, leaving every other bit unchanged.
    pub fn set_opcode(self, opcode: Opcode) -> (r: Self)
        ensures
            r@.len() == self@.len(),
            field_bits(r@, 8, 4) == opcode.spec_code() as nat,
            unchanged_outside(self@, r@, 8, 4),
    {
        proof {
            use_type_invariant(&self);
        }
        let RegisteredController { mut words } = self;
        opcode.write(&mut words);
        RegisteredController { words }
    }

    /// Reads the Channel field.
    pub fn channel(&self) -> (r: Result<Channel, Error>)
        ensures
            r == Channel::spec_from_code(field_bits(self@, 12, 4) as u8),
    {
        proof {
            use_type_invariant(&*self);
        }
        Channel::read(&self.words)
    }

    /// Writes the Channel field, leaving every other bit unchanged.
    pub fn set_channel(self, channel: Channel) -> (r: Self)
        ensures
            r@.len() == self@.len(),
            field_bits(r@, 12, 4) == channel.spec_code() as nat,
            unchanged_outside(self@, r@, 12, 4),
    {
        proof {
            use_type_invariant(&self);
        }
        let RegisteredController { mut words } = self;
        channel.write(&mut words);
        RegisteredController { words }
    }

    /// Reads the bank field.
    pub fn bank(&self) -> (r: Result<Bank, Error>)
        ensures
            r == Bank::spec_read(self@),
    {
        proof {
            use_type_invariant(&*self);
        }
        Bank::read(&self.words)
    }

    /// Writes the bank field, leaving every other bit unchanged.
    pub fn set_bank(self, bank: Bank) -> (r: Self)
        ensures
            r@.len() == self@.len(),
            field_bits(r@, 16, 8) == bank@ as nat,
            unchanged_outside(self@, r@, 16, 8),
    {
        proof {
            use_type_invariant(&self);
        }
        let RegisteredController { mut words } = self;
        bank.write(&mut words);
        RegisteredController { words }
    }

    /// Reads the controller field.
    pub fn controller(&self) -> (r: Result<Controller, Error>)
        ensures
            r == Controller::spec_read(self@),
    {
        proof {
            use_type_invariant(&*self);
        }
        Controller::read(&self.words)
    }

    /// Writes the controller field, leaving every other bit unchanged.
    pub fn set_controller(self, controller: Controller) -> (r: Self)
        ensures
            r@.len() == self@.len(),
            field_bits(r@, 24, 8) == controller@ as nat,
            unchanged_outside(self@, r@, 24, 8),
    {
        proof {
            use_type_invariant(&self);
        }
        let RegisteredController { mut words } = self;
        controller.write(&mut words);
        RegisteredController { words }
    }

    /// Reads the data field.
    pub fn data(&self) -> (r: Result<Data, Error>)
        ensures
            r == Data::spec_read(self@),
    {
        proof {
            use_type_invariant(&*self);
        }
        Data::read(&self.words)
    }

    /// Writes the data field, leaving every other bit unchanged.
    pub fn set_data(self, data: Data) -> (r: Self)
        ensures
            r@.len() == self@.len(),
            field_bits(r@, 32, 32) == data@ as nat,
            unchanged_outside(self@, r@, 32, 32),
    {
        proof {
            use_type_invariant(&self);
        }
        let RegisteredController { mut words } = self;
        data.write(&mut words);
        RegisteredController { words }
    }

}

/// The Assignable Controller message, a Voice message whose Opcode is `0x3`.
#[derive(Debug)]
pub struct AssignableController {
    words: Vec<u32>,
}

impl View for AssignableController {
    type V = Seq<u32>;

    closed spec fn view(&self) -> Seq<u32> {
        self.words@
    }
}

impl AssignableController {
    #[verifier::type_invariant]
    spec fn wf(self) -> bool {
        self.words@.len() == 2
    }

    /// A zero-filled buffer of the exact word count of this message kind.
    pub fn packet() -> (r: Vec<u32>)
        ensures
            r@ == seq![0u32, 0u32],
    {
        let mut v: Vec<u32> = Vec::new();
        v.push(0u32);
        v.push(0u32);
        proof {
            assert(v@ =~= seq![0u32, 0u32]);
        }
        v
    }

    /// Wraps an existing buffer as a message of this kind. The buffer must
    /// be exactly two words; any other length is rejected with a size
    /// error carrying the expected and actual bit counts.
    pub fn try_from_packet(words: Vec<u32>) -> (r: Result<Self, Error>)
        requires
            words@.len() * 32 <= u64::MAX,
        ensures
            match r {
                Ok(m) => words@.len() == 2 && m@ == words@,
                Err(e) => words@.len() != 2 && e == Error::Size(64, (words@.len() * 32) as u64),
            },
    {
        if words.len() == 2 {
            Ok(AssignableController { words })
        } else {
            let actual = (words.len() as u64) * 32;
            Err(Error::size(64, actual))
        }
    }

    /// Hands the backing buffer back.
    pub fn into_packet(self) -> (r: Vec<u32>)
        ensures
            r@ == self@,
    {
        self.words
    }

    /// Zeroes the whole packet in place, discarding every field including
    /// the discriminants.
    pub fn reset(self) -> (r: Self)
        ensures
            r@ == seq![0u32, 0u32],
    {
        proof {
            use_type_invariant(&self);
        }
        let AssignableController { mut words } = self;
        crate::packet::zero_fill(&mut words);
        proof {
            assert(words@ =~= seq![0u32, 0u32]);
        }
        AssignableController { words }
    }

    /// Initializes the buffer as a Assignable Controller message carrying the given
    /// bank and controller: the packet is zeroed, the fixed discriminants are
    /// written, and the two values are encoded, so the resulting words are
    /// a function of the arguments alone, whatever the buffer held before.
    pub fn try_init(packet: Vec<u32>, bank: Bank, controller: Controller) -> (r: Result<Self, Error>)
        requires
            packet@.len() * 32 <= u64::MAX,
        ensures
            match r {
                Ok(m) => packet@.len() == 2 && m@.len() == 2 && m@[0] as nat == 0x40300000
                    + bank@ * 0x100 + controller@ && m@[1] == 0u32,
                Err(e) => packet@.len() != 2 && e == Error::Size(64, (packet@.len() * 32) as u64),
            },
    {
        let m = Self::try_from_packet(packet)?;
        let AssignableController { mut words } = m;
        init_voice_words(&mut words, Opcode::AssignableController);
        let ghost w1 = words@;
        proof {
            lemma_voice_word0(w1);
            lemma2_to64();
        }
        bank.write(&mut words);
        let ghost w2 = words@;
        proof {
            assert(field_bits(w1, 16, 8) == 0);
            crate::packet::lemma_store_into_clear(w1, w2, 0, 16, 8, bank@ as nat);
            assert(w2[0] as nat == w1[0] as nat + bank@ * 0x100);
            crate::packet::lemma_frame_field(w1, w2, 16, 8, 24, 8);
            assert(field_bits(w2, 24, 8) == 0);
        }
        controller.write(&mut words);
        proof {
            let w3 = words@;
            crate::packet::lemma_store_into_clear(w2, w3, 0, 24, 8, controller@ as nat);
            assert(w3[0] as nat == w2[0] as nat + controller@ * 1);
            assert(w3[1] == 0u32);
            assert(words@.len() == 2);
        }
        Ok(AssignableController { words })
    }

    /// Reads the Message Type field.
    pub fn message_type(&self) -> (r: Result<MessageType, Error>)
        ensures
            r == MessageType::spec_from_code(field_bits(self@, 0, 4) as u8),
    {
        proof {
            use_type_invariant(&*self);
        }
        MessageType::read(&self.words)
    }

    /// Writes the Message Type field, leaving every other bit unchanged.
    pub fn set_message_type(self, message_type: MessageType) -> (r: Self)
        ensures
            r@.len() == self@.len(),
            field_bits(r@, 0, 4) == message_type.spec_code() as nat,
            unchanged_outside(self@, r@, 0, 4),
    {
        proof {
            use_type_invariant(&self);
        }
        let AssignableController { mut words } = self;
        message_type.write(&mut words);
        AssignableController { words }
    }

    /// Reads the Group field.
    pub fn group(&self) -> (r: Result<Group, Error>)
        ensures
            r == Group::spec_from_code(field_bits(self@, 4, 4) as u8),
    {
        proof {
            use_type_invariant(&*self);
        }
        Group::read(&self.words)
    }

    /// Writes the Group field, leaving every other bit unchanged.
    pub fn set_group(self, group: Group) -> (r: Self)
        ensures
            r@.len() == self@.len(),
            field_bits(r@, 4, 4) == group.spec_code() as nat,
            unchanged_outside(self@, r@, 4, 4),
    {
        proof {
            use_type_invariant(&self);
        }
        let AssignableController { mut words } = self;
        group.write(&mut words);
        AssignableController { words }
    }

    /// Reads the Opcode field.
    pub fn opcode(&self) -> (r: Result<Opcode, Error>)
        ensures
            r == Opcode::spec_from_code(field_bits(self@, 8, 4) as u8),
    {
        proof {
            use_type_invariant(&*self);
        }
        Opcode::read(&self.words)
    }

    /// Writes the Opcode field, leaving every other bit unchanged.
    pub fn set_opcode(self, opcode: Opcode) -> (r: Self)
        ensures
            r@.len() == self@.len(),
            field_bits(r@, 8, 4) == opcode.spec_code() as nat,
            unchanged_outside(self@, r@, 8, 4),
    {
        proof {
            use_type_invariant(&self);
        }
        let AssignableController { mut words } = self;
        opcode.write(&mut words);
        AssignableController { words }
    }

    /// Reads the Channel field.
    pub fn channel(&self) -> (r: Result<Channel, Error>)
        ensures
            r == Channel::spec_from_code(field_bits(self@, 12, 4) as u8),
    {
        proof {
            use_type_invariant(&*self);
        }
        Channel::read(&self.words)
    }

    /// Writes the Channel field, leaving every other bit unchanged.
    pub fn set_channel(self, channel: Channel) -> (r: Self)
        ensures
            r@.len() == self@.len(),
            field_bits(r@, 12, 4) == channel.spec_code() as nat,
            unchanged_outside(self@, r@, 12, 4),
    {
        proof {
            use_type_invariant(&self);
        }
        let AssignableController { mut words } = self;
        channel.write(&mut words);
        AssignableController { words }
    }

    /// Reads the bank field.
    pub fn bank(&self) -> (r: Result<Bank, Error>)
        ensures
            r == Bank::spec_read(self@),
    {
        proof {
            use_type_invariant(&*self);
        }
        Bank::read(&self.words)
    }

    /// Writes the bank field, leaving every other bit unchanged.
    pub fn set_bank(self, bank: Bank) -> (r: Self)
        ensures
            r@.len() == self@.len(),
            field_bits(r@, 16, 8) == bank@ as nat,
            unchanged_outside(self@, r@, 16, 8),
    {
        proof {
            use_type_invariant(&self);
        }
        let AssignableController { mut words } = self;
        bank.write(&mut words);
        AssignableController { words }
    }

    /// Reads the controller field.
    pub fn controller(&self) -> (r: Result<Controller, Error>)
        ensures
            r == Controller::spec_read(self@),
    {
        proof {
            use_type_invariant(&*self);
        }
        Controller::read(&self.words)
    }

    /// Writes the controller field, leaving every other bit unchanged.
    pub fn set_controller(self, controller: Controller) -> (r: Self)
        ensures
            r@.len() == self@.len(),
            field_bits(r@, 24, 8) == controller@ as nat,
            unchanged_outside(self@, r@, 24, 8),
    {
        proof {
            use_type_invariant(&self);
        }
        let AssignableController { mut words } = self;
        controller.write(&mut words);
        AssignableController { words }
    }

    /// Reads the data field.
    pub fn data(&self) -> (r: Result<Data, Error>)
        ensures
            r == Data::spec_read(self@),
    {
        proof {
            use_type_invariant(&*self);
        }
        Data::read(&self.words)
    }

    /// Writes the data field, leaving every other bit unchanged.
    pub fn set_data(self, data: Data) -> (r: Self)
        ensures
            r@.len() == self@.len(),
            field_bits(r@, 32, 32) == data@ as nat,
            unchanged_outside(self@, r@, 32, 32),
    {
        proof {
            use_type_invariant(&self);
        }
        let AssignableController { mut words } = self;
        data.write(&mut words);
        AssignableController { words }
    }

}

/// The Relative Registered Controller message, a Voice message whose Opcode is `0x4`.
#[derive(Debug)]
pub struct RelativeRegisteredController {
    words: Vec<u32>,
}

impl View for RelativeRegisteredController {
    type V = Seq<u32>;

    closed spec fn view(&self) -> Seq<u32> {
        self.words@
    }
}

impl RelativeRegisteredController {
    #[verifier::type_invariant]
    spec fn wf(self) -> bool {
        self.words@.len() == 2
    }

    /// A zero-filled buffer of the exact word count of this message kind.
    pub fn packet() -> (r: Vec<u32>)
        ensures
            r@ == seq![0u32, 0u32],
    {
        let mut v: Vec<u32> = Vec::new();
        v.push(0u32);
        v.push(0u32);
        proof {
            assert(v@ =~= seq![0u32, 0u32]);
        }
        v
    }

    /// Wraps an existing buffer as a message of this kind. The buffer must
    /// be exactly two words; any other length is rejected with a size
    /// error carrying the expected and actual bit counts.
    pub fn try_from_packet(words: Vec<u32>) -> (r: Result<Self, Error>)
        requires
            words@.len() * 32 <= u64::MAX,
        ensures
            match r {
                Ok(m) => words@.len() == 2 && m@ == words@,
                Err(e) => words@.len() != 2 && e == Error::Size(64, (words@.len() * 32) as u64),
            },
    {
        if words.len() == 2 {
            Ok(RelativeRegisteredController { words })
        } else {
            let actual = (words.len() as u64) * 32;
            Err(Error::size(64, actual))
        }
    }

    /// Hands the backing buffer back.
    pub fn into_packet(self) -> (r: Vec<u32>)
        ensures
            r@ == self@,
    {
        self.words
    }

    /// Zeroes the whole packet in place, discarding every field including
    /// the discriminants.
    pub fn reset(self) -> (r: Self)
        ensures
            r@ == seq![0u32, 0u32],
    {
        proof {
            use_type_invariant(&self);
        }
        let RelativeRegisteredController { mut words } = self;
        crate::packet::zero_fill(&mut words);
        proof {
            assert(words@ =~= seq![0u32, 0u32]);
        }
        RelativeRegisteredController { words }
    }

    /// Initializes the buffer as a Relative Registered Controller message carrying the given
    /// bank and controller: the packet is zeroed, the fixed discriminants are
    /// written, and the two values are encoded, so the resulting words are
    /// a function of the arguments alone, whatever the buffer held before.
    pub fn try_init(packet: Vec<u32>, bank: Bank, controller: Controller) -> (r: Result<Self, Error>)
        requires
            packet@.len() * 32 <= u64::MAX,
        ensures
            match r {
                Ok(m) => packet@.len() == 2 && m@.len() == 2 && m@[0] as nat == 0x40400000
                    + bank@ * 0x100 + controller@ && m@[1] == 0u32,
                Err(e) => packet@.len() != 2 && e == Error::Size(64, (packet@.len() * 32) as u64),
            },
    {
        let m = Self::try_from_packet(packet)?;
        let RelativeRegisteredController { mut words } = m;
        init_voice_words(&mut words, Opcode::RelativeRegisteredController);
        let ghost w1 = words@;
        proof {
            lemma_voice_word0(w1);
            lemma2_to64();
        }
        bank.write(&mut words);
        let ghost w2 = words@;
        proof {
            assert(field_bits(w1, 16, 8) == 0);
            crate::packet::lemma_store_into_clear(w1, w2, 0, 16, 8, bank@ as nat);
            assert(w2[0] as nat == w1[0] as nat + bank@ * 0x100);
            crate::packet::lemma_frame_field(w1, w2, 16, 8, 24, 8);
            assert(field_bits(w2, 24, 8) == 0);
        }
        controller.write(&mut words);
        proof {
            let w3 = words@;
            crate::packet::lemma_store_into_clear(w2, w3, 0, 24, 8, controller@ as nat);
            assert(w3[0] as nat == w2[0] as nat + controller@ * 1);
            assert(w3[1] == 0u32);
            assert(words@.len() == 2);
        }
        Ok(RelativeRegisteredController { words })
    }

    /// Reads the Message Type field.
    pub fn message_type(&self) -> (r: Result<MessageType, Error>)
        ensures
            r == MessageType::spec_from_code(field_bits(self@, 0, 4) as u8),
    {
        proof {
            use_type_invariant(&*self);
        }
        MessageType::read(&self.words)
    }

    /// Writes the Message Type field, leaving every other bit unchanged.
    pub fn set_message_type(self, message_type: MessageType) -> (r: Self)
        ensures
            r@.len() == self@.len(),
            field_bits(r@, 0, 4) == message_type.spec_code() as nat,
            unchanged_outside(self@, r@, 0, 4),
    {
        proof {
            use_type_invariant(&self);
        }
        let RelativeRegisteredController { mut words } = self;
        message_type.write(&mut words);
        RelativeRegisteredController { words }
    }

    /// Reads the Group field.
    pub fn group(&self) -> (r: Result<Group, Error>)
        ensures
            r == Group::spec_from_code(field_bits(self@, 4, 4) as u8),
    {
        proof {
            use_type_invariant(&*self);
        }
        Group::read(&self.words)
    }

    /// Writes the Group field, leaving every other bit unchanged.
    pub fn set_group(self, group: Group) -> (r: Self)
        ensures
            r@.len() == self@.len(),
            field_bits(r@, 4, 4) == group.spec_code() as nat,
            unchanged_outside(self@, r@, 4, 4),
    {
        proof {
            use_type_invariant(&self);
        }
        let RelativeRegisteredController { mut words } = self;
        group.write(&mut words);
        RelativeRegisteredController { words }
    }

    /// Reads the Opcode field.
    pub fn opcode(&self) -> (r: Result<Opcode, Error>)
        ensures
            r == Opcode::spec_from_code(field_bits(self@, 8, 4) as u8),
    {
        proof {
            use_type_invariant(&*self);
        }
        Opcode::read(&self.words)
    }

    /// Writes the Opcode field, leaving every other bit unchanged.
    pub fn set_opcode(self, opcode: Opcode) -> (r: Self)
        ensures
            r@.len() == self@.len(),
            field_bits(r@, 8, 4) == opcode.spec_code() as nat,
            unchanged_outside(self@, r@, 8, 4),
    {
        proof {
            use_type_invariant(&self);
        }
        let RelativeRegisteredController { mut words } = self;
        opcode.write(&mut words);
        RelativeRegisteredController { words }
    }

    /// Reads the Channel field.
    pub fn channel(&self) -> (r: Result<Channel, Error>)
        ensures
            r == Channel::spec_from_code(field_bits(self@, 12, 4) as u8),
    {
        proof {
            use_type_invariant(&*self);
        }
        Channel::read(&self.words)
    }

    /// Writes the Channel field, leaving every other bit unchanged.
    pub fn set_channel(self, channel: Channel) -> (r: Self)
        ensures
            r@.len() == self@.len(),
            field_bits(r@, 12, 4) == channel.spec_code() as nat,
            unchanged_outside(self@, r@, 12, 4),
    {
        proof {
            use_type_invariant(&self);
        }
        let RelativeRegisteredController { mut words } = self;
        channel.write(&mut words);
        RelativeRegisteredController { words }
    }

    /// Reads the bank field.
    pub fn bank(&self) -> (r: Result<Bank, Error>)
        ensures
            r == Bank::spec_read(self@),
    {
        proof {
            use_type_invariant(&*self);
        }
        Bank::read(&self.words)
    }

    /// Writes the bank field, leaving every other bit unchanged.
    pub fn set_bank(self, bank: Bank) -> (r: Self)
        ensures
            r@.len() == self@.len(),
            field_bits(r@, 16, 8) == bank@ as nat,
            unchanged_outside(self@, r@, 16, 8),
    {
        proof {
            use_type_invariant(&self);
        }
        let RelativeRegisteredController { mut words } = self;
        bank.write(&mut words);
        RelativeRegisteredController { words }
    }

    /// Reads the controller field.
    pub fn controller(&self) -> (r: Result<Controller, Error>)
        ensures
            r == Controller::spec_read(self@),
    {
        proof {
            use_type_invariant(&*self);
        }
        Controller::read(&self.words)
    }

    /// Writes the controller field, leaving every other bit unchanged.
    pub fn set_controller(self, controller: Controller) -> (r: Self)
        ensures
            r@.len() == self@.len(),
            field_bits(r@, 24, 8) == controller@ as nat,
            unchanged_outside(self@, r@, 24, 8),
    {
        proof {
            use_type_invariant(&self);
        }
        let RelativeRegisteredController { mut words } = self;
        controller.write(&mut words);
        RelativeRegisteredController { words }
    }

    /// Reads the data field.
    pub fn data(&self) -> (r: Result<Data, Error>)
        ensures
            r == Data::spec_read(self@),
    {
        proof {
            use_type_invariant(&*self);
        }
        Data::read(&self.words)
    }

    /// Writes the data field, leaving every other bit unchanged.
    pub fn set_data(self, data: Data) -> (r: Self)
        ensures
            r@.len() == self@.len(),
            field_bits(r@, 32, 32) == data@ as nat,
            unchanged_outside(self@, r@, 32, 32),
    {
        proof {
            use_type_invariant(&self);
        }
        let RelativeRegisteredController { mut words } = self;
        data.write(&mut words);
        RelativeRegisteredController { words }
    }

}

/// The Relative Assignable Controller message, a Voice message whose Opcode is `0x5`.
#[derive(Debug)]
pub struct RelativeAssignableController {
    words: Vec<u32>,
}

impl View for RelativeAssignableController {
    type V = Seq<u32>;

    closed spec fn view(&self) -> Seq<u32> {
        self.words@
    }
}

impl RelativeAssignableController {
    #[verifier::type_invariant]
    spec fn wf(self) -> bool {
        self.words@.len() == 2
    }

    /// A zero-filled buffer of the exact word count of this message kind.
    pub fn packet() -> (r: Vec<u32>)
        ensures
            r@ == seq![0u32, 0u32],
    {
        let mut v: Vec<u32> = Vec::new();
        v.push(0u32);
        v.push(0u32);
        proof {
            assert(v@ =~= seq![0u32, 0u32]);
        }
        v
    }

    /// Wraps an existing buffer as a message of this kind. The buffer must
    /// be exactly two words; any other length is rejected with a size
    /// error carrying the expected and actual bit counts.
    pub fn try_from_packet(words: Vec<u32>) -> (r: Result<Self, Error>)
        requires
            words@.len() * 32 <= u64::MAX,
        ensures
            match r {
                Ok(m) => words@.len() == 2 && m@ == words@,
                Err(e) => words@.len() != 2 && e == Error::Size(64, (words@.len() * 32) as u64),
            },
    {
        if words.len() == 2 {
            Ok(RelativeAssignableController { words })
        } else {
            let actual = (words.len() as u64) * 32;
            Err(Error::size(64, actual))
        }
    }

    /// Hands the backing buffer back.
    pub fn into_packet(self) -> (r: Vec<u32>)
        ensures
            r@ == self@,
    {
        self.words
    }

    /// Zeroes the whole packet in place, discarding every field including
    /// the discriminants.
    pub fn reset(self) -> (r: Self)
        ensures
            r@ == seq![0u32, 0u32],
    {
        proof {
            use_type_invariant(&self);
        }
        let RelativeAssignableController { mut words } = self;
        crate::packet::zero_fill(&mut words);
        proof {
            assert(words@ =~= seq![0u32, 0u32]);
        }
        RelativeAssignableController { words }
    }

    /// Initializes the buffer as a Relative Assignable Controller message carrying the given
    /// bank and controller: the packet is zeroed, the fixed discriminants are
    /// written, and the two values are encoded, so the resulting words are
    /// a function of the arguments alone, whatever the buffer held before.
    pub fn try_init(packet: Vec<u32>, bank: Bank, controller: Controller) -> (r: Result<Self, Error>)
        requires
            packet@.len() * 32 <= u64::MAX,
        ensures
            match r {
                Ok(m) => packet@.len() == 2 && m@.len() == 2 && m@[0] as nat == 0x40500000
                    + bank@ * 0x100 + controller@ && m@[1] == 0u32,
                Err(e) => packet@.len() != 2 && e == Error::Size(64, (packet@.len() * 32) as u64),
            },
    {
        let m = Self::try_from_packet(packet)?;
        let RelativeAssignableController { mut words } = m;
        init_voice_words(&mut words, Opcode::RelativeAssignableController);
        let ghost w1 = words@;
        proof {
            lemma_voice_word0(w1);
            lemma2_to64();
        }
        bank.write(&mut words);
        let ghost w2 = words@;
        proof {
            assert(field_bits(w1, 16, 8) == 0);
            crate::packet::lemma_store_into_clear(w1, w2, 0, 16, 8, bank@ as nat);
            assert(w2[0] as nat == w1[0] as nat + bank@ * 0x100);
            crate::packet::lemma_frame_field(w1, w2, 16, 8, 24, 8);
            assert(field_bits(w2, 24, 8) == 0);
        }
        controller.write(&mut words);
        proof {
            let w3 = words@;
            crate::packet::lemma_store_into_clear(w2, w3, 0, 24, 8, controller@ as nat);
            assert(w3[0] as nat == w2[0] as nat + controller@ * 1);
            assert(w3[1] == 0u32);
            assert(words@.len() == 2);
        }
        Ok(RelativeAssignableController { words })
    }

    /// Reads the Message Type field.
    pub fn message_type(&self) -> (r: Result<MessageType, Error>)
        ensures
            r == MessageType::spec_from_code(field_bits(self@, 0, 4) as u8),
    {
        proof {
            use_type_invariant(&*self);
        }
        MessageType::read(&self.words)
    }

    /// Writes the Message Type field, leaving every other bit unchanged.
    pub fn set_message_type(self, message_type: MessageType) -> (r: Self)
        ensures
            r@.len() == self@.len(),
            field_bits(r@, 0, 4) == message_type.spec_code() as nat,
            unchanged_outside(self@, r@, 0, 4),
    {
        proof {
            use_type_invariant(&self);
        }
        let RelativeAssignableController { mut words } = self;
        message_type.write(&mut words);
        RelativeAssignableController { words }
    }

    /// Reads the Group field.
    pub fn group(&self) -> (r: Result<Group, Error>)
        ensures
            r == Group::spec_from_code(field_bits(self@, 4, 4) as u8),
    {
        proof {
            use_type_invariant(&*self);
        }
        Group::read(&self.words)
    }

    /// Writes the Group field, leaving every other bit unchanged.
    pub fn set_group(self, group: Group) -> (r: Self)
        ensures
            r@.len() == self@.len(),
            field_bits(r@, 4, 4) == group.spec_code() as nat,
            unchanged_outside(self@, r@, 4, 4),
    {
        proof {
            use_type_invariant(&self);
        }
        let RelativeAssignableController { mut words } = self;
        group.write(&mut words);
        RelativeAssignableController { words }
    }

    /// Reads the Opcode field.
    pub fn opcode(&self) -> (r: Result<Opcode, Error>)
        ensures
            r == Opcode::spec_from_code(field_bits(self@, 8, 4) as u8),
    {
        proof {
            use_type_invariant(&*self);
        }
        Opcode::read(&self.words)
    }

    /// Writes the Opcode field, leaving every other bit unchanged.
    pub fn set_opcode(self, opcode: Opcode) -> (r: Self)
        ensures
            r@.len() == self@.len(),
            field_bits(r@, 8, 4) == opcode.spec_code() as nat,
            unchanged_outside(self@, r@, 8, 4),
    {
        proof {
            use_type_invariant(&self);
        }
        let RelativeAssignableController { mut words } = self;
        opcode.write(&mut words);
        RelativeAssignableController { words }
    }

    /// Reads the Channel field.
    pub fn channel(&self) -> (r: Result<Channel, Error>)
        ensures
            r == Channel::spec_from_code(field_bits(self@, 12, 4) as u8),
    {
        proof {
            use_type_invariant(&*self);
        }
        Channel::read(&self.words)
    }

    /// Writes the Channel field, leaving every other bit unchanged.
    pub fn set_channel(self, channel: Channel) -> (r: Self)
        ensures
            r@.len() == self@.len(),
            field_bits(r@, 12, 4) == channel.spec_code() as nat,
            unchanged_outside(self@, r@, 12, 4),
    {
        proof {
            use_type_invariant(&self);
        }
        let RelativeAssignableController { mut words } = self;
        channel.write(&mut words);
        RelativeAssignableController { words }
    }

    /// Reads the bank field.
    pub fn bank(&self) -> (r: Result<Bank, Error>)
        ensures
            r == Bank::spec_read(self@),
    {
        proof {
            use_type_invariant(&*self);
        }
        Bank::read(&self.words)
    }

    /// Writes the bank field, leaving every other bit unchanged.
    pub fn set_bank(self, bank: Bank) -> (r: Self)
        ensures
            r@.len() == self@.len(),
            field_bits(r@, 16, 8) == bank@ as nat,
            unchanged_outside(self@, r@, 16, 8),
    {
        proof {
            use_type_invariant(&self);
        }
        let RelativeAssignableController { mut words } = self;
        bank.write(&mut words);
        RelativeAssignableController { words }
    }

    /// Reads the controller field.
    pub fn controller(&self) -> (r: Result<Controller, Error>)
        ensures
            r == Controller::spec_read(self@),
    {
        proof {
            use_type_invariant(&*self);
        }
        Controller::read(&self.words)
    }

    /// Writes the controller field, leaving every other bit unchanged.
    pub fn set_controller(self, controller: Controller) -> (r: Self)
        ensures
            r@.len() == self@.len(),
            field_bits(r@, 24, 8) == controller@ as nat,
            unchanged_outside(self@, r@, 24, 8),
    {
        proof {
            use_type_invariant(&self);
        }
        let RelativeAssignableController { mut words } = self;
        controller.write(&mut words);
        RelativeAssignableController { words }
    }

    /// Reads the data field.
    pub fn data(&self) -> (r: Result<Data, Error>)
        ensures
            r == Data::spec_read(self@),
    {
        proof {
            use_type_invariant(&*self);
        }
        Data::read(&self.words)
    }

    /// Writes the data field, leaving every other bit unchanged.
    pub fn set_data(self, data: Data) -> (r: Self)
        ensures
            r@.len() == self@.len(),
            field_bits(r@, 32, 32) == data@ as nat,
            unchanged_outside(self@, r@, 32, 32),
    {
        proof {
            use_type_invariant(&self);
        }
        let RelativeAssignableController { mut words } = self;
        data.write(&mut words);
        RelativeAssignableController { words }
    }

}

/// The Per-Note Pitch Bend message, a Voice message whose Opcode is `0x6`.
#[derive(Debug)]
pub struct PerNotePitchBend {
    words: Vec<u32>,
}

impl View for PerNotePitchBend {
    type V = Seq<u32>;

    closed spec fn view(&self) -> Seq<u32> {
        self.words@
    }
}

impl PerNotePitchBend {
    #[verifier::type_invariant]
    spec fn wf(self) -> bool {
        self.words@.len() == 2
    }

    /// A zero-filled buffer of the exact word count of this message kind.
    pub fn packet() -> (r: Vec<u32>)
        ensures
            r@ == seq![0u32, 0u32],
    {
        let mut v: Vec<u32> = Vec::new();
        v.push(0u32);
        v.push(0u32);
        proof {
            assert(v@ =~= seq![0u32, 0u32]);
        }
        v
    }

    /// Wraps an existing buffer as a message of this kind. The buffer must
    /// be exactly two words; any other length is rejected with a size
    /// error carrying the expected and actual bit counts.
    pub fn try_from_packet(words: Vec<u32>) -> (r: Result<Self, Error>)
        requires
            words@.len() * 32 <= u64::MAX,
        ensures
            match r {
                Ok(m) => words@.len() == 2 && m@ == words@,
                Err(e) => words@.len() != 2 && e == Error::Size(64, (words@.len() * 32) as u64),
            },
    {
        if words.len() == 2 {
            Ok(PerNotePitchBend { words })
        } else {
            let actual = (words.len() as u64) * 32;
            Err(Error::size(64, actual))
        }
    }

    /// Hands the backing buffer back.
    pub fn into_packet(self) -> (r: Vec<u32>)
        ensures
            r@ == self@,
    {
        self.words
    }

    /// Zeroes the whole packet in place, discarding every field including
    /// the discriminants.
    pub fn reset(self) -> (r: Self)
        ensures
            r@ == seq![0u32, 0u32],
    {
        proof {
            use_type_invariant(&self);
        }
        let PerNotePitchBend { mut words } = self;
        crate::packet::zero_fill(&mut words);
        proof {
            assert(words@ =~= seq![0u32, 0u32]);
        }
        PerNotePitchBend { words }
    }

    /// Initializes the buffer as a Per-Note Pitch Bend message carrying the given
    /// note: the packet is zeroed, the fixed discriminants are written,
    /// and the note is encoded, so the resulting words are a function of
    /// the note alone, whatever the buffer held before.
    pub fn try_init(packet: Vec<u32>, note: Note) -> (r: Result<Self, Error>)
        requires
            packet@.len() * 32 <= u64::MAX,
        ensures
            match r {
                Ok(m) => packet@.len() == 2 && m@.len() == 2 && m@[0] as nat == 0x40600000
                    + note@ * 0x100 && m@[1] == 0u32,
                Err(e) => packet@.len() != 2 && e == Error::Size(64, (packet@.len() * 32) as u64),
            },
    {
        let m = Self::try_from_packet(packet)?;
        let PerNotePitchBend { mut words } = m;
        init_voice_words(&mut words, Opcode::PerNotePitchBend);
        let ghost w1 = words@;
        proof {
            lemma_voice_word0(w1);
            lemma2_to64();
        }
        note.write(&mut words);
        proof {
            let w2 = words@;
            crate::packet::lemma_store_into_clear(w1, w2, 0, 16, 8, note@ as nat);
        }
        Ok(PerNotePitchBend { words })
    }

    /// Reads the Message Type field.
    pub fn message_type(&self) -> (r: Result<MessageType, Error>)
        ensures
            r == MessageType::spec_from_code(field_bits(self@, 0, 4) as u8),
    {
        proof {
            use_type_invariant(&*self);
        }
        MessageType::read(&self.words)
    }

    /// Writes the Message Type field, leaving every other bit unchanged.
    pub fn set_message_type(self, message_type: MessageType) -> (r: Self)
        ensures
            r@.len() == self@.len(),
            field_bits(r@, 0, 4) == message_type.spec_code() as nat,
            unchanged_outside(self@, r@, 0, 4),
    {
        proof {
            use_type_invariant(&self);
        }
        let PerNotePitchBend { mut words } = self;
        message_type.write(&mut words);
        PerNotePitchBend { words }
    }

    /// Reads the Group field.
    pub fn group(&self) -> (r: Result<Group, Error>)
        ensures
            r == Group::spec_from_code(field_bits(self@, 4, 4) as u8),
    {
        proof {
            use_type_invariant(&*self);
        }
        Group::read(&self.words)
    }

    /// Writes the Group field, leaving every other bit unchanged.
    pub fn set_group(self, group: Group) -> (r: Self)
        ensures
            r@.len() == self@.len(),
            field_bits(r@, 4, 4) == group.spec_code() as nat,
            unchanged_outside(self@, r@, 4, 4),
    {
        proof {
            use_type_invariant(&self);
        }
        let PerNotePitchBend { mut words } = self;
        group.write(&mut words);
        PerNotePitchBend { words }
    }

    /// Reads the Opcode field.
    pub fn opcode(&self) -> (r: Result<Opcode, Error>)
        ensures
            r == Opcode::spec_from_code(field_bits(self@, 8, 4) as u8),
    {
        proof {
            use_type_invariant(&*self);
        }
        Opcode::read(&self.words)
    }

    /// Writes the Opcode field, leaving every other bit unchanged.
    pub fn set_opcode(self, opcode: Opcode) -> (r: Self)
        ensures
            r@.len() == self@.len(),
            field_bits(r@, 8, 4) == opcode.spec_code() as nat,
            unchanged_outside(self@, r@, 8, 4),
    {
        proof {
            use_type_invariant(&self);
        }
        let PerNotePitchBend { mut words } = self;
        opcode.write(&mut words);
        PerNotePitchBend { words }
    }

    /// Reads the Channel field.
    pub fn channel(&self) -> (r: Result<Channel, Error>)
        ensures
            r == Channel::spec_from_code(field_bits(self@, 12, 4) as u8),
    {
        proof {
            use_type_invariant(&*self);
        }
        Channel::read(&self.words)
    }

    /// Writes the Channel field, leaving every other bit unchanged.
    pub fn set_channel(self, channel: Channel) -> (r: Self)
        ensures
            r@.len() == self@.len(),
            field_bits(r@, 12, 4) == channel.spec_code() as nat,
            unchanged_outside(self@, r@, 12, 4),
    {
        proof {
            use_type_invariant(&self);
        }
        let PerNotePitchBend { mut words } = self;
        channel.write(&mut words);
        PerNotePitchBend { words }
    }

    /// Reads the note field.
    pub fn note(&self) -> (r: Result<Note, Error>)
        ensures
            r == Note::spec_read(self@),
    {
        proof {
            use_type_invariant(&*self);
        }
        Note::read(&self.words)
    }

    /// Writes the note field, leaving every other bit unchanged.
    pub fn set_note(self, note: Note) -> (r: Self)
        ensures
            r@.len() == self@.len(),
            field_bits(r@, 16, 8) == note@ as nat,
            unchanged_outside(self@, r@, 16, 8),
    {
        proof {
            use_type_invariant(&self);
        }
        let PerNotePitchBend { mut words } = self;
        note.write(&mut words);
        PerNotePitchBend { words }
    }

    /// Reads the data field.
    pub fn data(&self) -> (r: Result<Data, Error>)
        ensures
            r == Data::spec_read(self@),
    {
        proof {
            use_type_invariant(&*self);
        }
        Data::read(&self.words)
    }

    /// Writes the data field, leaving every other bit unchanged.
    pub fn set_data(self, data: Data) -> (r: Self)
        ensures
            r@.len() == self@.len(),
            field_bits(r@, 32, 32) == data@ as nat,
            unchanged_outside(self@, r@, 32, 32),
    {
        proof {
            use_type_invariant(&self);
        }
        let PerNotePitchBend { mut words } = self;
        data.write(&mut words);
        PerNotePitchBend { words }
    }

}

/// The Note Off message, a Voice message whose Opcode is `0x8`.
#[derive(Debug)]
pub struct NoteOff {
    words: Vec<u32>,
}

impl View for NoteOff {
    type V = Seq<u32>;

    closed spec fn view(&self) -> Seq<u32> {
        self.words@
    }
}

impl NoteOff {
    #[verifier::type_invariant]
    spec fn wf(self) -> bool {
        self.words@.len() == 2
    }

    /// A zero-filled buffer of the exact word count of this message kind.
    pub fn packet() -> (r: Vec<u32>)
        ensures
            r@ == seq![0u32, 0u32],
    {
        let mut v: Vec<u32> = Vec::new();
        v.push(0u32);
        v.push(0u32);
        proof {
            assert(v@ =~= seq![0u32, 0u32]);
        }
        v
    }

    /// Wraps an existing buffer as a message of this kind. The buffer must
    /// be exactly two words; any other length is rejected with a size
    /// error carrying the expected and actual bit counts.
    pub fn try_from_packet(words: Vec<u32>) -> (r: Result<Self, Error>)
        requires
            words@.len() * 32 <= u64::MAX,
        ensures
            match r {
                Ok(m) => words@.len() == 2 && m@ == words@,
                Err(e) => words@.len() != 2 && e == Error::Size(64, (words@.len() * 32) as u64),
            },
    {
        if words.len() == 2 {
            Ok(NoteOff { words })
        } else {
            let actual = (words.len() as u64) * 32;
            Err(Error::size(64, actual))
        }
    }

    /// Hands the backing buffer back.
    pub fn into_packet(self) -> (r: Vec<u32>)
        ensures
            r@ == self@,
    {
        self.words
    }

    /// Zeroes the whole packet in place, discarding every field including
    /// the discriminants.
    pub fn reset(self) -> (r: Self)
        ensures
            r@ == seq![0u32, 0u32],
    {
        proof {
            use_type_invariant(&self);
        }
        let NoteOff { mut words } = self;
        crate::packet::zero_fill(&mut words);
        proof {
            assert(words@ =~= seq![0u32, 0u32]);
        }
        NoteOff { words }
    }

    /// Initializes the buffer as a Note Off message carrying the given
    /// note and velocity: the packet is zeroed, the fixed discriminants
    /// are written, and the two values are encoded, so the resulting words
    /// are a function of the arguments alone, whatever the buffer held
    /// before.
    pub fn try_init(packet: Vec<u32>, note: Note, velocity: Velocity) -> (r: Result<Self, Error>)
        requires
            packet@.len() * 32 <= u64::MAX,
        ensures
            match r {
                Ok(m) => packet@.len() == 2 && m@.len() == 2 && m@[0] as nat == 0x40800000
                    + note@ * 0x100 && m@[1] as nat == velocity@ * 0x10000,
                Err(e) => packet@.len() != 2 && e == Error::Size(64, (packet@.len() * 32) as u64),
            },
    {
        let m = Self::try_from_packet(packet)?;
        let NoteOff { mut words } = m;
        init_voice_words(&mut words, Opcode::NoteOff);
        let ghost w1 = words@;
        proof {
            lemma_voice_word0(w1);
            lemma2_to64();
        }
        note.write(&mut words);
        let ghost w2 = words@;
        proof {
            crate::packet::lemma_store_into_clear(w1, w2, 0, 16, 8, note@ as nat);
            lemma_voice_word1(w2);
        }
        velocity.write(&mut words);
        proof {
            let w3 = words@;
            crate::packet::lemma_store_into_clear(w2, w3, 1, 32, 16, velocity@ as nat);
        }
        Ok(NoteOff { words })
    }

    /// Reads the Message Type field.
    pub fn message_type(&self) -> (r: Result<MessageType, Error>)
        ensures
            r == MessageType::spec_from_code(field_bits(self@, 0, 4) as u8),
    {
        proof {
            use_type_invariant(&*self);
        }
        MessageType::read(&self.words)
    }

    /// Writes the Message Type field, leaving every other bit unchanged.
    pub fn set_message_type(self, message_type: MessageType) -> (r: Self)
        ensures
            r@.len() == self@.len(),
            field_bits(r@, 0, 4) == message_type.spec_code() as nat,
            unchanged_outside(self@, r@, 0, 4),
    {
        proof {
            use_type_invariant(&self);
        }
        let NoteOff { mut words } = self;
        message_type.write(&mut words);
        NoteOff { words }
    }

    /// Reads the Group field.
    pub fn group(&self) -> (r: Result<Group, Error>)
        ensures
            r == Group::spec_from_code(field_bits(self@, 4, 4) as u8),
    {
        proof {
            use_type_invariant(&*self);
        }
        Group::read(&self.words)
    }

    /// Writes the Group field, leaving every other bit unchanged.
    pub fn set_group(self, group: Group) -> (r: Self)
        ensures
            r@.len() == self@.len(),
            field_bits(r@, 4, 4) == group.spec_code() as nat,
            unchanged_outside(self@, r@, 4, 4),
    {
        proof {
            use_type_invariant(&self);
        }
        let NoteOff { mut words } = self;
        group.write(&mut words);
        NoteOff { words }
    }

    /// Reads the Opcode field.
    pub fn opcode(&self) -> (r: Result<Opcode, Error>)
        ensures
            r == Opcode::spec_from_code(field_bits(self@, 8, 4) as u8),
    {
        proof {
            use_type_invariant(&*self);
        }
        Opcode::read(&self.words)
    }

    /// Writes the Opcode field, leaving every other bit unchanged.
    pub fn set_opcode(self, opcode: Opcode) -> (r: Self)
        ensures
            r@.len() == self@.len(),
            field_bits(r@, 8, 4) == opcode.spec_code() as nat,
            unchanged_outside(self@, r@, 8, 4),
    {
        proof {
            use_type_invariant(&self);
        }
        let NoteOff { mut words } = self;
        opcode.write(&mut words);
        NoteOff { words }
    }

    /// Reads the Channel field.
    pub fn channel(&self) -> (r: Result<Channel, Error>)
        ensures
            r == Channel::spec_from_code(field_bits(self@, 12, 4) as u8),
    {
        proof {
            use_type_invariant(&*self);
        }
        Channel::read(&self.words)
    }

    /// Writes the Channel field, leaving every other bit unchanged.
    pub fn set_channel(self, channel: Channel) -> (r: Self)
        ensures
            r@.len() == self@.len(),
            field_bits(r@, 12, 4) == channel.spec_code() as nat,
            unchanged_outside(self@, r@, 12, 4),
    {
        proof {
            use_type_invariant(&self);
        }
        let NoteOff { mut words } = self;
        channel.write(&mut words);
        NoteOff { words }
    }

    /// Reads the note field.
    pub fn note(&self) -> (r: Result<Note, Error>)
        ensures
            r == Note::spec_read(self@),
    {
        proof {
            use_type_invariant(&*self);
        }
        Note::read(&self.words)
    }

    /// Writes the note field, leaving every other bit unchanged.
    pub fn set_note(self, note: Note) -> (r: Self)
        ensures
            r@.len() == self@.len(),
            field_bits(r@, 16, 8) == note@ as nat,
            unchanged_outside(self@, r@, 16, 8),
    {
        proof {
            use_type_invariant(&self);
        }
        let NoteOff { mut words } = self;
        note.write(&mut words);
        NoteOff { words }
    }

    /// Reads the velocity field.
    pub fn velocity(&self) -> (r: Result<Velocity, Error>)
        ensures
            r == Velocity::spec_read(self@),
    {
        proof {
            use_type_invariant(&*self);
        }
        Velocity::read(&self.words)
    }

    /// Writes the velocity field, leaving every other bit unchanged.
    pub fn set_velocity(self, velocity: Velocity) -> (r: Self)
        ensures
            r@.len() == self@.len(),
            field_bits(r@, 32, 16) == velocity@ as nat,
            unchanged_outside(self@, r@, 32, 16),
    {
        proof {
            use_type_invariant(&self);
        }
        let NoteOff { mut words } = self;
        velocity.write(&mut words);
        NoteOff { words }
    }

    /// Reads the attribute composite field.
    pub fn attribute(&self) -> (r: Result<Attribute, Error>)
        ensures
            r == Attribute::spec_read(self@),
    {
        proof {
            use_type_invariant(&*self);
        }
        Attribute::read(&self.words)
    }

    /// Writes the attribute composite field: the type byte and the payload
    /// the type declares, leaving every other bit unchanged.
    pub fn set_attribute(self, attribute: Attribute) -> (r: Self)
        ensures
            r@.len() == self@.len(),
            field_bits(r@, 24, 8) == attribute.spec_type_code() as nat,
            match attribute {
                Attribute::NoAttribute => unchanged_outside(self@, r@, 24, 8),
                Attribute::Manufacturer(m) => field_bits(r@, 48, 16) == m@ as nat
                    && unchanged_outside2(self@, r@, 24, 8, 48, 16),
                Attribute::Profile(p) => field_bits(r@, 48, 16) == p@ as nat
                    && unchanged_outside2(self@, r@, 24, 8, 48, 16),
                Attribute::Pitch(p, f) => field_bits(r@, 48, 7) == p@ as nat && field_bits(
                    r@,
                    55,
                    9,
                ) == f@ as nat && unchanged_outside2(self@, r@, 24, 8, 48, 16),
            },
    {
        proof {
            use_type_invariant(&self);
        }
        let NoteOff { mut words } = self;
        attribute.write(&mut words);
        NoteOff { words }
    }

}

/// The Note On message, a Voice message whose Opcode is `0x9`.
#[derive(Debug)]
pub struct NoteOn {
    words: Vec<u32>,
}

impl View for NoteOn {
    type V = Seq<u32>;

    closed spec fn view(&self) -> Seq<u32> {
        self.words@
    }
}

impl NoteOn {
    #[verifier::type_invariant]
    spec fn wf(self) -> bool {
        self.words@.len() == 2
    }

    /// A zero-filled buffer of the exact word count of this message kind.
    pub fn packet() -> (r: Vec<u32>)
        ensures
            r@ == seq![0u32, 0u32],
    {
        let mut v: Vec<u32> = Vec::new();
        v.push(0u32);
        v.push(0u32);
        proof {
            assert(v@ =~= seq![0u32, 0u32]);
        }
        v
    }

    /// Wraps an existing buffer as a message of this kind. The buffer must
    /// be exactly two words; any other length is rejected with a size
    /// error carrying the expected and actual bit counts.
    pub fn try_from_packet(words: Vec<u32>) -> (r: Result<Self, Error>)
        requires
            words@.len() * 32 <= u64::MAX,
        ensures
            match r {
                Ok(m) => words@.len() == 2 && m@ == words@,
                Err(e) => words@.len() != 2 && e == Error::Size(64, (words@.len() * 32) as u64),
            },
    {
        if words.len() == 2 {
            Ok(NoteOn { words })
        } else {
            let actual = (words.len() as u64) * 32;
            Err(Error::size(64, actual))
        }
    }

    /// Hands the backing buffer back.
    pub fn into_packet(self) -> (r: Vec<u32>)
        ensures
            r@ == self@,
    {
        self.words
    }

    /// Zeroes the whole packet in place, discarding every field including
    /// the discriminants.
    pub fn reset(self) -> (r: Self)
        ensures
            r@ == seq![0u32, 0u32],
    {
        proof {
            use_type_invariant(&self);
        }
        let NoteOn { mut words } = self;
        crate::packet::zero_fill(&mut words);
        proof {
            assert(words@ =~= seq![0u32, 0u32]);
        }
        NoteOn { words }
    }

    /// Initializes the buffer as a Note On message carrying the given
    /// note and velocity: the packet is zeroed, the fixed discriminants
    /// are written, and the two values are encoded, so the resulting words
    /// are a function of the arguments alone, whatever the buffer held
    /// before.
    pub fn try_init(packet: Vec<u32>, note: Note, velocity: Velocity) -> (r: Result<Self, Error>)
        requires
            packet@.len() * 32 <= u64::MAX,
        ensures
            match r {
                Ok(m) => packet@.len() == 2 && m@.len() == 2 && m@[0] as nat == 0x40900000
                    + note@ * 0x100 && m@[1] as nat == velocity@ * 0x10000,
                Err(e) => packet@.len() != 2 && e == Error::Size(64, (packet@.len() * 32) as u64),
            },
    {
        let m = Self::try_from_packet(packet)?;
        let NoteOn { mut words } = m;
        init_voice_words(&mut words, Opcode::NoteOn);
        let ghost w1 = words@;
        proof {
            lemma_voice_word0(w1);
            lemma2_to64();
        }
        note.write(&mut words);
        let ghost w2 = words@;
        proof {
            crate::packet::lemma_store_into_clear(w1, w2, 0, 16, 8, note@ as nat);
            lemma_voice_word1(w2);
        }
        velocity.write(&mut words);
        proof {
            let w3 = words@;
            crate::packet::lemma_store_into_clear(w2, w3, 1, 32, 16, velocity@ as nat);
        }
        Ok(NoteOn { words })
    }

    /// Reads the Message Type field.
    pub fn message_type(&self) -> (r: Result<MessageType, Error>)
        ensures
            r == MessageType::spec_from_code(field_bits(self@, 0, 4) as u8),
    {
        proof {
            use_type_invariant(&*self);
        }
        MessageType::read(&self.words)
    }

    /// Writes the Message Type field, leaving every other bit unchanged.
    pub fn set_message_type(self, message_type: MessageType) -> (r: Self)
        ensures
            r@.len() == self@.len(),
            field_bits(r@, 0, 4) == message_type.spec_code() as nat,
            unchanged_outside(self@, r@, 0, 4),
    {
        proof {
            use_type_invariant(&self);
        }
        let NoteOn { mut words } = self;
        message_type.write(&mut words);
        NoteOn { words }
    }

    /// Reads the Group field.
    pub fn group(&self) -> (r: Result<Group, Error>)
        ensures
            r == Group::spec_from_code(field_bits(self@, 4, 4) as u8),
    {
        proof {
            use_type_invariant(&*self);
        }
        Group::read(&self.words)
    }

    /// Writes the Group field, leaving every other bit unchanged.
    pub fn set_group(self, group: Group) -> (r: Self)
        ensures
            r@.len() == self@.len(),
            field_bits(r@, 4, 4) == group.spec_code() as nat,
            unchanged_outside(self@, r@, 4, 4),
    {
        proof {
            use_type_invariant(&self);
        }
        let NoteOn { mut words } = self;
        group.write(&mut words);
        NoteOn { words }
    }

    /// Reads the Opcode field.
    pub fn opcode(&self) -> (r: Result<Opcode, Error>)
        ensures
            r == Opcode::spec_from_code(field_bits(self@, 8, 4) as u8),
    {
        proof {
            use_type_invariant(&*self);
        }
        Opcode::read(&self.words)
    }

    /// Writes the Opcode field, leaving every other bit unchanged.
    pub fn set_opcode(self, opcode: Opcode) -> (r: Self)
        ensures
            r@.len() == self@.len(),
            field_bits(r@, 8, 4) == opcode.spec_code() as nat,
            unchanged_outside(self@, r@, 8, 4),
    {
        proof {
            use_type_invariant(&self);
        }
        let NoteOn { mut words } = self;
        opcode.write(&mut words);
        NoteOn { words }
    }

    /// Reads the Channel field.
    pub fn channel(&self) -> (r: Result<Channel, Error>)
        ensures
            r == Channel::spec_from_code(field_bits(self@, 12, 4) as u8),
    {
        proof {
            use_type_invariant(&*self);
        }
        Channel::read(&self.words)
    }

    /// Writes the Channel field, leaving every other bit unchanged.
    pub fn set_channel(self, channel: Channel) -> (r: Self)
        ensures
            r@.len() == self@.len(),
            field_bits(r@, 12, 4) == channel.spec_code() as nat,
            unchanged_outside(self@, r@, 12, 4),
    {
        proof {
            use_type_invariant(&self);
        }
        let NoteOn { mut words } = self;
        channel.write(&mut words);
        NoteOn { words }
    }

    /// Reads the note field.
    pub fn note(&self) -> (r: Result<Note, Error>)
        ensures
            r == Note::spec_read(self@),
    {
        proof {
            use_type_invariant(&*self);
        }
        Note::read(&self.words)
    }

    /// Writes the note field, leaving every other bit unchanged.
    pub fn set_note(self, note: Note) -> (r: Self)
        ensures
            r@.len() == self@.len(),
            field_bits(r@, 16, 8) == note@ as nat,
            unchanged_outside(self@, r@, 16, 8),
    {
        proof {
            use_type_invariant(&self);
        }
        let NoteOn { mut words } = self;
        note.write(&mut words);
        NoteOn { words }
    }

    /// Reads the velocity field.
    pub fn velocity(&self) -> (r: Result<Velocity, Error>)
        ensures
            r == Velocity::spec_read(self@),
    {
        proof {
            use_type_invariant(&*self);
        }
        Velocity::read(&self.words)
    }

    /// Writes the velocity field, leaving every other bit unchanged.
    pub fn set_velocity(self, velocity: Velocity) -> (r: Self)
        ensures
            r@.len() == self@.len(),
            field_bits(r@, 32, 16) == velocity@ as nat,
            unchanged_outside(self@, r@, 32, 16),
    {
        proof {
            use_type_invariant(&self);
        }
        let NoteOn { mut words } = self;
        velocity.write(&mut words);
        NoteOn { words }
    }

    /// Reads the attribute composite field.
    pub fn attribute(&self) -> (r: Result<Attribute, Error>)
        ensures
            r == Attribute::spec_read(self@),
    {
        proof {
            use_type_invariant(&*self);
        }
        Attribute::read(&self.words)
    }

    /// Writes the attribute composite field: the type byte and the payload
    /// the type declares, leaving every other bit unchanged.
    pub fn set_attribute(self, attribute: Attribute) -> (r: Self)
        ensures
            r@.len() == self@.len(),
            field_bits(r@, 24, 8) == attribute.spec_type_code() as nat,
            match attribute {
                Attribute::NoAttribute => unchanged_outside(self@, r@, 24, 8),
                Attribute::Manufacturer(m) => field_bits(r@, 48, 16) == m@ as nat
                    && unchanged_outside2(self@, r@, 24, 8, 48, 16),
                Attribute::Profile(p) => field_bits(r@, 48, 16) == p@ as nat
                    && unchanged_outside2(self@, r@, 24, 8, 48, 16),
                Attribute::Pitch(p, f) => field_bits(r@, 48, 7) == p@ as nat && field_bits(
                    r@,
                    55,
                    9,
                ) == f@ as nat && unchanged_outside2(self@, r@, 24, 8, 48, 16),
            },
    {
        proof {
            use_type_invariant(&self);
        }
        let NoteOn { mut words } = self;
        attribute.write(&mut words);
        NoteOn { words }
    }

}

/// The Voice message family: the concrete kind a two-word Voice packet's
/// Opcode selects.
#[derive(Debug)]
pub enum Voice {
    RegisteredPerNoteController(RegisteredPerNoteController),
    AssignablePerNoteController(AssignablePerNoteController),
    RegisteredController(RegisteredController),
    AssignableController(AssignableController),
    RelativeRegisteredController(RelativeRegisteredController),
    RelativeAssignableController(RelativeAssignableController),
    PerNotePitchBend(PerNotePitchBend),
    NoteOff(NoteOff),
    NoteOn(NoteOn),
}

impl Voice {
    /// The dispatch table of the Voice family: which result classifying a
    /// buffer must produce. An empty buffer holds no opcode to read and is
    /// rejected with a size error at once. Otherwise an opcode with a
    /// covered kind selects it, gated by the two-word size check, and any
    /// other opcode -- the one undefined 4-bit code as well as the defined
    /// opcodes whose kinds this family does not cover -- is rejected as a
    /// conversion error carrying that code.
    pub open spec fn classifies(words: Seq<u32>, r: Result<Voice, Error>) -> bool {
        let op = field_bits(words, 8, 4);
        if words.len() == 0 {
            r == Err::<Voice, Error>(Error::Size(64, 0))
        } else if op == 0x0 {
            if words.len() == 2 {
                r matches Ok(Voice::RegisteredPerNoteController(m)) && m@ == words
            } else {
                r == Err::<Voice, Error>(Error::Size(64, (words.len() * 32) as u64))
            }
        } else if op == 0x1 {
            if words.len() == 2 {
                r matches Ok(Voice::AssignablePerNoteController(m)) && m@ == words
            } else {
                r == Err::<Voice, Error>(Error::Size(64, (words.len() * 32) as u64))
            }
        } else if op == 0x2 {
            if words.len() == 2 {
                r matches Ok(Voice::RegisteredController(m)) && m@ == words
            } else {
                r == Err::<Voice, Error>(Error::Size(64, (words.len() * 32) as u64))
            }
        } else if op == 0x3 {
            if words.len() == 2 {
                r matches Ok(Voice::AssignableController(m)) && m@ == words
            } else {
                r == Err::<Voice, Error>(Error::Size(64, (words.len() * 32) as u64))
            }
        } else if op == 0x4 {
            if words.len() == 2 {
                r matches Ok(Voice::RelativeRegisteredController(m)) && m@ == words
            } else {
                r == Err::<Voice, Error>(Error::Size(64, (words.len() * 32) as u64))
            }
        } else if op == 0x5 {
            if words.len() == 2 {
                r matches Ok(Voice::RelativeAssignableController(m)) && m@ == words
            } else {
                r == Err::<Voice, Error>(Error::Size(64, (words.len() * 32) as u64))
            }
        } else if op == 0x6 {
            if words.len() == 2 {
                r matches Ok(Voice::PerNotePitchBend(m)) && m@ == words
            } else {
                r == Err::<Voice, Error>(Error::Size(64, (words.len() * 32) as u64))
            }
        } else if op == 0x8 {
            if words.len() == 2 {
                r matches Ok(Voice::NoteOff(m)) && m@ == words
            } else {
                r == Err::<Voice, Error>(Error::Size(64, (words.len() * 32) as u64))
            }
        } else if op == 0x9 {
            if words.len() == 2 {
                r matches Ok(Voice::NoteOn(m)) && m@ == words
            } else {
                r == Err::<Voice, Error>(Error::Size(64, (words.len() * 32) as u64))
            }
        } else {
            r == Err::<Voice, Error>(Error::Conversion(op as u8))
        }
    }

    /// Classifies a buffer as a concrete Voice message by its Opcode, as
    /// [`Self::classifies`] describes.
    pub fn try_from_packet(words: Vec<u32>) -> (r: Result<Voice, Error>)
        requires
            words@.len() * 32 <= u64::MAX,
        ensures
            Voice::classifies(words@, r),
    {
        if words.len() == 0 {
            return Err(Error::size(64, 0));
        }
        proof {
            lemma_field_bits_bound(words@, 8, 4);
            lemma2_to64();
        }
        let opcode = Opcode::read(&words);
        match opcode {
            Err(e) => Err(e),
            Ok(Opcode::RegisteredPerNoteController) => match RegisteredPerNoteController::try_from_packet(
                words,
            ) {
                Ok(m) => Ok(Voice::RegisteredPerNoteController(m)),
                Err(e) => Err(e),
            },
            Ok(Opcode::AssignablePerNoteController) => match AssignablePerNoteController::try_from_packet(
                words,
            ) {
                Ok(m) => Ok(Voice::AssignablePerNoteController(m)),
                Err(e) => Err(e),
            },
            Ok(Opcode::RegisteredController) => match RegisteredController::try_from_packet(
                words,
            ) {
                Ok(m) => Ok(Voice::RegisteredController(m)),
                Err(e) => Err(e),
            },
            Ok(Opcode::AssignableController) => match AssignableController::try_from_packet(
                words,
            ) {
                Ok(m) => Ok(Voice::AssignableController(m)),
                Err(e) => Err(e),
            },
            Ok(Opcode::RelativeRegisteredController) => match RelativeRegisteredController::try_from_packet(
                words,
            ) {
                Ok(m) => Ok(Voice::RelativeRegisteredController(m)),
                Err(e) => Err(e),
            },
            Ok(Opcode::RelativeAssignableController) => match RelativeAssignableController::try_from_packet(
                words,
            ) {
                Ok(m) => Ok(Voice::RelativeAssignableController(m)),
                Err(e) => Err(e),
            },
            Ok(Opcode::PerNotePitchBend) => match PerNotePitchBend::try_from_packet(words) {
                Ok(m) => Ok(Voice::PerNotePitchBend(m)),
                Err(e) => Err(e),
            },
            Ok(Opcode::NoteOff) => match NoteOff::try_from_packet(words) {
                Ok(m) => Ok(Voice::NoteOff(m)),
                Err(e) => Err(e),
            },
            Ok(Opcode::NoteOn) => match NoteOn::try_from_packet(words) {
                Ok(m) => Ok(Voice::NoteOn(m)),
                Err(e) => Err(e),
            },
            Ok(o) => Err(Error::conversion(o.code())),
        }
    }
}

/// Discriminant exhaustiveness at the Voice level: over a two-word
/// buffer, every opcode with a covered kind classifies to a concrete
/// message, never to an internal failure; every opcode without one -- the
/// one undefined 4-bit code as well as the defined opcodes whose kinds
/// this codec does not cover -- is rejected as a conversion error
/// carrying exactly that code.
pub proof fn lemma_voice_dispatch_exhaustive(words: Seq<u32>, r: Result<Voice, Error>)
    requires
        Voice::classifies(words, r),
        words.len() == 2,
    ensures
        ({
            let op = field_bits(words, 8, 4);
            if op <= 0x6 || op == 0x8 || op == 0x9 {
                r is Ok
            } else {
                r == Err::<Voice, Error>(Error::Conversion(op as u8))
            }
        }),
{
    lemma_field_bits_bound(words, 8, 4);
    lemma2_to64();
}

} // verus!
