//! Typed messages over Universal MIDI Packets.
//!
//! Every message kind is a fixed-word-count wrapper over a packet. A message
//! owns its backing words for its lifetime: it is created either over a
//! fresh zero-filled buffer (`packet()` then `try_init`) or over existing
//! data (`try_from_packet`), and hands the buffer back through
//! `into_packet`. Field accessors come in pairs: a getter that reads and
//! validates a field, and a builder-style setter that consumes the message
//! and returns it with exactly that field rewritten.
//!
//! The fields shared by every message kind live here: the 4-bit Message
//! Type discriminant at bits 0 to 3, and the 4-bit Group at bits 4 to 7.
//! [`Message`] is the top-level discriminated dispatch over a raw buffer.

pub mod system;
pub mod voice;

use crate::packet::field_bits;
use crate::packet::lemma_field_bits_bound;
use crate::packet::load_field;
use crate::packet::store_field;
use crate::packet::unchanged_outside;
use crate::Error;
use vstd::arithmetic::power2::lemma2_to64;
use vstd::prelude::*;

verus! {

/// The Message Type field: the 4-bit top-level discriminant at bits 0 to 3
/// of every message. Only the listed codes are defined; reading any other
/// code is a conversion error.
#[derive(Debug, PartialEq, Eq, Structural)]
pub enum MessageType {
    Utility,
    System,
    SystemExclusiveData,
    Voice,
    Data,
    FlexData,
    Stream,
}

impl MessageType {
    /// The wire code of this message type.
    pub open spec fn spec_code(self) -> u8 {
        match self {
            MessageType::Utility => 0x0,
            MessageType::System => 0x1,
            MessageType::SystemExclusiveData => 0x3,
            MessageType::Voice => 0x4,
            MessageType::Data => 0x5,
            MessageType::FlexData => 0xd,
            MessageType::Stream => 0xf,
        }
    }

    /// The message type a wire code decodes to, or the conversion error the
    /// code is rejected with.
    pub open spec fn spec_from_code(code: u8) -> Result<MessageType, Error> {
        if code == 0x0 {
            Ok(MessageType::Utility)
        } else if code == 0x1 {
            Ok(MessageType::System)
        } else if code == 0x3 {
            Ok(MessageType::SystemExclusiveData)
        } else if code == 0x4 {
            Ok(MessageType::Voice)
        } else if code == 0x5 {
            Ok(MessageType::Data)
        } else if code == 0xd {
            Ok(MessageType::FlexData)
        } else if code == 0xf {
            Ok(MessageType::Stream)
        } else {
            Err(Error::Conversion(code))
        }
    }

    pub fn code(&self) -> (r: u8)
        ensures
            r == self.spec_code(),
    {
        match self {
            MessageType::Utility => 0x0,
            MessageType::System => 0x1,
            MessageType::SystemExclusiveData => 0x3,
            MessageType::Voice => 0x4,
            MessageType::Data => 0x5,
            MessageType::FlexData => 0xd,
            MessageType::Stream => 0xf,
        }
    }

    pub fn try_from_code(code: u8) -> (r: Result<MessageType, Error>)
        ensures
            r == MessageType::spec_from_code(code),
    {
        match code {
            0x0 => Ok(MessageType::Utility),
            0x1 => Ok(MessageType::System),
            0x3 => Ok(MessageType::SystemExclusiveData),
            0x4 => Ok(MessageType::Voice),
            0x5 => Ok(MessageType::Data),
            0xd => Ok(MessageType::FlexData),
            0xf => Ok(MessageType::Stream),
            _ => Err(Error::conversion(code)),
        }
    }

    pub(crate) fn read(words: &Vec<u32>) -> (r: Result<MessageType, Error>)
        requires
            words@.len() >= 1,
        ensures
            r == MessageType::spec_from_code(field_bits(words@, 0, 4) as u8),
    {
        proof {
            lemma_field_bits_bound(words@, 0, 4);
            lemma2_to64();
        }
        let code = load_field(words, 0, 4) as u8;
        MessageType::try_from_code(code)
    }

    pub(crate) fn write(self, words: &mut Vec<u32>)
        requires
            old(words)@.len() >= 1,
        ensures
            final(words)@.len() == old(words)@.len(),
            field_bits(final(words)@, 0, 4) == self.spec_code() as nat,
            unchanged_outside(old(words)@, final(words)@, 0, 4),
    {
        proof {
            lemma2_to64();
        }
        let code = self.code();
        store_field(words, 0, 4, code as u32);
    }
}

/// Decoding a message type inverts encoding it: the code a message type is
/// written as reads back as exactly that message type.
pub proof fn lemma_message_type_round_trip(t: MessageType)
    ensures
        MessageType::spec_from_code(t.spec_code()) == Ok::<MessageType, Error>(t),
{
}

/// The Group field: the 4-bit group at bits 4 to 7. All sixteen codes are
/// defined, so reading a group never fails.
#[derive(Debug, Default, PartialEq, Eq, Structural)]
pub enum Group {
    #[default]
    G1,
    G2,
    G3,
    G4,
    G5,
    G6,
    G7,
    G8,
    G9,
    G10,
    G11,
    G12,
    G13,
    G14,
    G15,
    G16,
}

impl Group {
    /// The wire code of this group.
    pub open spec fn spec_code(self) -> u8 {
        match self {
            Group::G1 => 0x0,
            Group::G2 => 0x1,
            Group::G3 => 0x2,
            Group::G4 => 0x3,
            Group::G5 => 0x4,
            Group::G6 => 0x5,
            Group::G7 => 0x6,
            Group::G8 => 0x7,
            Group::G9 => 0x8,
            Group::G10 => 0x9,
            Group::G11 => 0xa,
            Group::G12 => 0xb,
            Group::G13 => 0xc,
            Group::G14 => 0xd,
            Group::G15 => 0xe,
            Group::G16 => 0xf,
        }
    }

    /// The group a wire code decodes to. Every code below sixteen is a
    /// group; anything else is a conversion error.
    pub open spec fn spec_from_code(code: u8) -> Result<Group, Error> {
        if code == 0x0 {
            Ok(Group::G1)
        } else if code == 0x1 {
            Ok(Group::G2)
        } else if code == 0x2 {
            Ok(Group::G3)
        } else if code == 0x3 {
            Ok(Group::G4)
        } else if code == 0x4 {
            Ok(Group::G5)
        } else if code == 0x5 {
            Ok(Group::G6)
        } else if code == 0x6 {
            Ok(Group::G7)
        } else if code == 0x7 {
            Ok(Group::G8)
        } else if code == 0x8 {
            Ok(Group::G9)
        } else if code == 0x9 {
            Ok(Group::G10)
        } else if code == 0xa {
            Ok(Group::G11)
        } else if code == 0xb {
            Ok(Group::G12)
        } else if code == 0xc {
            Ok(Group::G13)
        } else if code == 0xd {
            Ok(Group::G14)
        } else if code == 0xe {
            Ok(Group::G15)
        } else if code == 0xf {
            Ok(Group::G16)
        } else {
            Err(Error::Conversion(code))
        }
    }

    pub fn code(&self) -> (r: u8)
        ensures
            r == self.spec_code(),
    {
        match self {
            Group::G1 => 0x0,
            Group::G2 => 0x1,
            Group::G3 => 0x2,
            Group::G4 => 0x3,
            Group::G5 => 0x4,
            Group::G6 => 0x5,
            Group::G7 => 0x6,
            Group::G8 => 0x7,
            Group::G9 => 0x8,
            Group::G10 => 0x9,
            Group::G11 => 0xa,
            Group::G12 => 0xb,
            Group::G13 => 0xc,
            Group::G14 => 0xd,
            Group::G15 => 0xe,
            Group::G16 => 0xf,
        }
    }

    pub fn try_from_code(code: u8) -> (r: Result<Group, Error>)
        ensures
            r == Group::spec_from_code(code),
    {
        match code {
            0x0 => Ok(Group::G1),
            0x1 => Ok(Group::G2),
            0x2 => Ok(Group::G3),
            0x3 => Ok(Group::G4),
            0x4 => Ok(Group::G5),
            0x5 => Ok(Group::G6),
            0x6 => Ok(Group::G7),
            0x7 => Ok(Group::G8),
            0x8 => Ok(Group::G9),
            0x9 => Ok(Group::G10),
            0xa => Ok(Group::G11),
            0xb => Ok(Group::G12),
            0xc => Ok(Group::G13),
            0xd => Ok(Group::G14),
            0xe => Ok(Group::G15),
            0xf => Ok(Group::G16),
            _ => Err(Error::conversion(code)),
        }
    }

    pub(crate) fn read(words: &Vec<u32>) -> (r: Result<Group, Error>)
        requires
            words@.len() >= 1,
        ensures
            r == Group::spec_from_code(field_bits(words@, 4, 4) as u8),
    {
        proof {
            lemma_field_bits_bound(words@, 4, 4);
            lemma2_to64();
        }
        let code = load_field(words, 4, 4) as u8;
        Group::try_from_code(code)
    }

    pub(crate) fn write(self, words: &mut Vec<u32>)
        requires
            old(words)@.len() >= 1,
        ensures
            final(words)@.len() == old(words)@.len(),
            field_bits(final(words)@, 4, 4) == self.spec_code() as nat,
            unchanged_outside(old(words)@, final(words)@, 4, 4),
    {
        proof {
            lemma2_to64();
        }
        let code = self.code();
        store_field(words, 4, 4, code as u32);
    }
}

/// Decoding a group inverts encoding it: the code a group is written as
/// reads back as exactly that group. A group read from a 4-bit field can
/// moreover never fail, since every 4-bit code names a group.
pub proof fn lemma_group_round_trip(g: Group)
    ensures
        Group::spec_from_code(g.spec_code()) == Ok::<Group, Error>(g),
{
}

/// The top-level message family: a raw word buffer classified by its
/// Message Type code into a System or a Voice message.
#[derive(Debug)]
pub enum Message {
    System(system::System),
    Voice(voice::Voice),
}

impl Message {
    /// The dispatch table of the top level: an empty buffer holds no
    /// discriminant to read and is rejected with a size error at once;
    /// the System code hands the buffer to the System family and the
    /// Voice code to the Voice family, while every other code -- whether
    /// it is undefined or a defined message type whose kinds this codec
    /// does not cover -- is rejected as a conversion error carrying that
    /// code. Errors of the inner levels propagate unchanged.
    pub open spec fn classifies(words: Seq<u32>, r: Result<Message, Error>) -> bool {
        let mt = field_bits(words, 0, 4);
        if words.len() == 0 {
            r == Err::<Message, Error>(Error::Size(32, 0))
        } else if mt == 0x1 {
            match r {
                Ok(m) => m matches Message::System(s) && system::System::classifies(words, Ok(s)),
                Err(e) => system::System::classifies(words, Err::<system::System, Error>(e)),
            }
        } else if mt == 0x4 {
            match r {
                Ok(m) => m matches Message::Voice(v) && voice::Voice::classifies(words, Ok(v)),
                Err(e) => voice::Voice::classifies(words, Err::<voice::Voice, Error>(e)),
            }
        } else {
            r == Err::<Message, Error>(Error::Conversion(mt as u8))
        }
    }

    /// Classifies a buffer as a Message by its Message Type code, as
    /// [`Self::classifies`] describes.
    pub fn try_from_packet(words: Vec<u32>) -> (r: Result<Message, Error>)
        requires
            words@.len() * 32 <= u64::MAX,
        ensures
            Message::classifies(words@, r),
    {
        if words.len() == 0 {
            return Err(Error::size(32, 0));
        }
        proof {
            lemma_field_bits_bound(words@, 0, 4);
            lemma2_to64();
        }
        let message_type = MessageType::read(&words);
        match message_type {
            Err(e) => Err(e),
            Ok(MessageType::System) => match system::System::try_from_packet(words) {
                Ok(m) => Ok(Message::System(m)),
                Err(e) => Err(e),
            },
            Ok(MessageType::Voice) => match voice::Voice::try_from_packet(words) {
                Ok(m) => Ok(Message::Voice(m)),
                Err(e) => Err(e),
            },
            Ok(t) => Err(Error::conversion(t.code())),
        }
    }
}

/// Discriminant exhaustiveness at the top level: over a buffer of a
/// covered size, every Message Type code with a covered family classifies
/// to a concrete message, never to an internal failure; every code
/// without one is rejected as a conversion error carrying exactly that
/// code; and an empty buffer, which holds no discriminant at all, is
/// rejected with a size error. The sub-family discriminants must in turn
/// be covered, which [`system::lemma_system_dispatch_exhaustive`] and
/// [`voice::lemma_voice_dispatch_exhaustive`] state for their own levels.
pub proof fn lemma_message_dispatch_exhaustive(words: Seq<u32>, r: Result<Message, Error>)
    requires
        Message::classifies(words, r),
    ensures
        ({
            let mt = field_bits(words, 0, 4);
            &&& words.len() == 0 ==> r == Err::<Message, Error>(Error::Size(32, 0))
            &&& (mt == 0x1 && words.len() == 1 && {
                let status = field_bits(words, 8, 8);
                status == 0xf1 || status == 0xf8 || status == 0xfa || status == 0xfb || status
                    == 0xfc || status == 0xfe || status == 0xff
            }) ==> r is Ok
            &&& (mt == 0x4 && words.len() == 2 && {
                let op = field_bits(words, 8, 4);
                op <= 0x6 || op == 0x8 || op == 0x9
            }) ==> r is Ok
            &&& (words.len() >= 1 && mt != 0x1 && mt != 0x4) ==> r == Err::<Message, Error>(
                Error::Conversion(mt as u8),
            )
        }),
{
    lemma_field_bits_bound(words, 0, 4);
    lemma_field_bits_bound(words, 8, 8);
    lemma_field_bits_bound(words, 8, 4);
    lemma2_to64();
}

} // verus!
