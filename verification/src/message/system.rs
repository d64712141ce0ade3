//! System messages: one-word messages discriminated by an 8-bit Status.
//!
//! Every System message is a single 32-bit word whose Message Type code is
//! `0x1` and whose Status byte at bits 8 to 15 names the concrete kind.
//! The kinds split into the System Common family ([`common`]) and the
//! System Real Time family ([`real_time`]); [`System`] dispatches a raw
//! buffer into one of the two.

pub mod common;
pub mod real_time;

use crate::packet::field_bits;
use crate::packet::lemma_field_bits_bound;
use crate::packet::load_field;
use crate::packet::store_field;
use crate::packet::unchanged_outside;
use crate::Error;
use vstd::arithmetic::power2::lemma2_to64;
use vstd::prelude::*;

verus! {

/// The Status field: the 8-bit discriminant of a System message at bits 8
/// to 15. Only the listed codes are defined; reading any other code is a
/// conversion error.
#[derive(Debug, PartialEq, Eq, Structural)]
pub enum Status {
    MIDITimeCode,
    SongPositionPointer,
    SongSelect,
    TuneRequest,
    TimingClock,
    Start,
    Continue,
    Stop,
    ActiveSensing,
    Reset,
}

impl Status {
    /// The wire code of this status.
    pub open spec fn spec_code(self) -> u8 {
        match self {
            Status::MIDITimeCode => 0xf1,
            Status::SongPositionPointer => 0xf2,
            Status::SongSelect => 0xf3,
            Status::TuneRequest => 0xf6,
            Status::TimingClock => 0xf8,
            Status::Start => 0xfa,
            Status::Continue => 0xfb,
            Status::Stop => 0xfc,
            Status::ActiveSensing => 0xfe,
            Status::Reset => 0xff,
        }
    }

    /// The status a wire code decodes to, or the conversion error the code
    /// is rejected with.
    pub open spec fn spec_from_code(code: u8) -> Result<Status, Error> {
        if code == 0xf1 {
            Ok(Status::MIDITimeCode)
        } else if code == 0xf2 {
            Ok(Status::SongPositionPointer)
        } else if code == 0xf3 {
            Ok(Status::SongSelect)
        } else if code == 0xf6 {
            Ok(Status::TuneRequest)
        } else if code == 0xf8 {
            Ok(Status::TimingClock)
        } else if code == 0xfa {
            Ok(Status::Start)
        } else if code == 0xfb {
            Ok(Status::Continue)
        } else if code == 0xfc {
            Ok(Status::Stop)
        } else if code == 0xfe {
            Ok(Status::ActiveSensing)
        } else if code == 0xff {
            Ok(Status::Reset)
        } else {
            Err(Error::Conversion(code))
        }
    }

    pub fn code(&self) -> (r: u8)
        ensures
            r == self.spec_code(),
    {
        match self {
            Status::MIDITimeCode => 0xf1,
            Status::SongPositionPointer => 0xf2,
            Status::SongSelect => 0xf3,
            Status::TuneRequest => 0xf6,
            Status::TimingClock => 0xf8,
            Status::Start => 0xfa,
            Status::Continue => 0xfb,
            Status::Stop => 0xfc,
            Status::ActiveSensing => 0xfe,
            Status::Reset => 0xff,
        }
    }

    pub fn try_from_code(code: u8) -> (r: Result<Status, Error>)
        ensures
            r == Status::spec_from_code(code),
    {
        match code {
            0xf1 => Ok(Status::MIDITimeCode),
            0xf2 => Ok(Status::SongPositionPointer),
            0xf3 => Ok(Status::SongSelect),
            0xf6 => Ok(Status::TuneRequest),
            0xf8 => Ok(Status::TimingClock),
            0xfa => Ok(Status::Start),
            0xfb => Ok(Status::Continue),
            0xfc => Ok(Status::Stop),
            0xfe => Ok(Status::ActiveSensing),
            0xff => Ok(Status::Reset),
            _ => Err(Error::conversion(code)),
        }
    }

    pub(crate) fn read(words: &Vec<u32>) -> (r: Result<Status, Error>)
        requires
            words@.len() >= 1,
        ensures
            r == Status::spec_from_code(field_bits(words@, 8, 8) as u8),
    {
        proof {
            lemma_field_bits_bound(words@, 8, 8);
            lemma2_to64();
        }
        let code = load_field(words, 8, 8) as u8;
        Status::try_from_code(code)
    }

    pub(crate) fn write(self, words: &mut Vec<u32>)
        requires
            old(words)@.len() >= 1,
        ensures
            final(words)@.len() == old(words)@.len(),
            field_bits(final(words)@, 8, 8) == self.spec_code() as nat,
            unchanged_outside(old(words)@, final(words)@, 8, 8),
    {
        proof {
            lemma2_to64();
        }
        let code = self.code();
        store_field(words, 8, 8, code as u32);
    }
}

/// Decoding a status inverts encoding it: the code a status is written as
/// reads back as exactly that status.
pub proof fn lemma_status_round_trip(s: Status)
    ensures
        Status::spec_from_code(s.spec_code()) == Ok::<Status, Error>(s),
{
}

/// The anatomy of a System message's single word: the word is the weighted
/// sum of its fields, each below its width's bound. The byte at bits 16 to
/// 23 is subdivided as the MIDI Time Code message uses it: a spare bit,
/// the 3-bit quarter-frame type, and the 4-bit quarter-frame data.
pub proof fn lemma_system_word(w: Seq<u32>)
    requires
        w.len() == 1,
    ensures
        w[0] as nat == field_bits(w, 0, 4) * 0x10000000 + field_bits(w, 4, 4) * 0x1000000
            + field_bits(w, 8, 8) * 0x10000 + field_bits(w, 16, 1) * 0x8000 + field_bits(w, 17, 3)
            * 0x1000 + field_bits(w, 20, 4) * 0x100 + field_bits(w, 24, 8),
        field_bits(w, 0, 4) < 0x10,
        field_bits(w, 4, 4) < 0x10,
        field_bits(w, 8, 8) < 0x100,
        field_bits(w, 16, 1) < 0x2,
        field_bits(w, 17, 3) < 0x8,
        field_bits(w, 20, 4) < 0x10,
        field_bits(w, 24, 8) < 0x100,
{
    crate::packet::lemma_word_value(w, 0);
    crate::packet::lemma_field_bits_split(w, 0, 4, 28);
    crate::packet::lemma_field_bits_split(w, 4, 4, 24);
    crate::packet::lemma_field_bits_split(w, 8, 8, 16);
    crate::packet::lemma_field_bits_split(w, 16, 1, 15);
    crate::packet::lemma_field_bits_split(w, 17, 3, 12);
    crate::packet::lemma_field_bits_split(w, 20, 4, 8);
    lemma_field_bits_bound(w, 0, 4);
    lemma_field_bits_bound(w, 4, 4);
    lemma_field_bits_bound(w, 8, 8);
    lemma_field_bits_bound(w, 16, 1);
    lemma_field_bits_bound(w, 17, 3);
    lemma_field_bits_bound(w, 20, 4);
    lemma_field_bits_bound(w, 24, 8);
    lemma2_to64();
}

/// Zeroes a one-word packet and writes the System message type code and the
/// given status into it, the shared first step of every System message's
/// initialization.
pub(crate) fn init_system_words(words: &mut Vec<u32>, status: Status)
    requires
        old(words)@.len() == 1,
    ensures
        final(words)@.len() == 1,
        final(words)@[0] as nat == 0x10000000 + status.spec_code() * 0x10000,
{
    crate::packet::zero_fill(words);
    let ghost w0 = words@;
    proof {
        lemma2_to64();
        crate::packet::lemma_zero_field(w0, 0, 4);
    }
    store_field(words, 0, 4, 0x1);
    let ghost w1 = words@;
    proof {
        crate::packet::lemma_store_into_clear(w0, w1, 0, 0, 4, 0x1);
        crate::packet::lemma_zero_field(w0, 8, 8);
        crate::packet::lemma_frame_field(w0, w1, 0, 4, 8, 8);
    }
    let code = status.code();
    store_field(words, 8, 8, code as u32);
    proof {
        let w2 = words@;
        crate::packet::lemma_store_into_clear(w1, w2, 0, 8, 8, code as nat);
        assert(w1[0] as nat == 0x10000000) by {
            assert(w0[0] == 0u32);
        }
    }
}

/// The System message family: a one-word packet classified by its Status
/// byte into the Common or the Real Time sub-family.
#[derive(Debug)]
pub enum System {
    Common(common::Common),
    RealTime(real_time::RealTime),
}

impl System {
    /// The dispatch table of the System family: an empty buffer holds no
    /// status byte to read and is rejected with a size error at once; a
    /// Common status byte hands the buffer to the Common family, a Real
    /// Time status byte to the Real Time family, and any other byte is
    /// rejected as a conversion error carrying that byte. Errors of the
    /// sub-family level -- a size mismatch, or a Common status whose kind
    /// is not covered -- propagate unchanged.
    pub open spec fn classifies(words: Seq<u32>, r: Result<System, Error>) -> bool {
        let status = field_bits(words, 8, 8);
        if words.len() == 0 {
            r == Err::<System, Error>(Error::Size(32, 0))
        } else if status == 0xf1 || status == 0xf2 || status == 0xf3 || status == 0xf6 {
            match r {
                Ok(s) => s matches System::Common(c) && common::Common::classifies(words, Ok(c)),
                Err(e) => common::Common::classifies(words, Err::<common::Common, Error>(e)),
            }
        } else if status == 0xf8 || status == 0xfa || status == 0xfb || status == 0xfc || status
            == 0xfe || status == 0xff {
            match r {
                Ok(s) => s matches System::RealTime(rt) && real_time::RealTime::classifies(
                    words,
                    Ok(rt),
                ),
                Err(e) => real_time::RealTime::classifies(
                    words,
                    Err::<real_time::RealTime, Error>(e),
                ),
            }
        } else {
            r == Err::<System, Error>(Error::Conversion(status as u8))
        }
    }

    /// Classifies a buffer as a System message by its Status byte, as
    /// [`Self::classifies`] describes.
    pub fn try_from_packet(words: Vec<u32>) -> (r: Result<System, Error>)
        requires
            words@.len() * 32 <= u64::MAX,
        ensures
            System::classifies(words@, r),
    {
        if words.len() == 0 {
            return Err(Error::size(32, 0));
        }
        proof {
            lemma_field_bits_bound(words@, 8, 8);
            lemma2_to64();
        }
        let status = Status::read(&words);
        match status {
            Err(e) => Err(e),
            Ok(Status::MIDITimeCode) | Ok(Status::SongPositionPointer) | Ok(Status::SongSelect)
                | Ok(Status::TuneRequest) => match common::Common::try_from_packet(words) {
                Ok(c) => Ok(System::Common(c)),
                Err(e) => Err(e),
            },
            Ok(Status::TimingClock) | Ok(Status::Start) | Ok(Status::Continue) | Ok(Status::Stop)
                | Ok(Status::ActiveSensing) | Ok(Status::Reset) => match real_time::RealTime::try_from_packet(
                words,
            ) {
                Ok(rt) => Ok(System::RealTime(rt)),
                Err(e) => Err(e),
            },
        }
    }
}

/// Discriminant exhaustiveness at the System level: over a one-word
/// buffer, every status byte with a covered kind classifies to a concrete
/// message, never to an internal failure; every status byte without one
/// -- the undefined bytes as well as the defined Common statuses whose
/// kinds this codec does not cover -- is rejected as a conversion error
/// carrying exactly that byte.
pub proof fn lemma_system_dispatch_exhaustive(words: Seq<u32>, r: Result<System, Error>)
    requires
        System::classifies(words, r),
        words.len() == 1,
    ensures
        ({
            let status = field_bits(words, 8, 8);
            if status == 0xf1 || status == 0xf8 || status == 0xfa || status == 0xfb || status
                == 0xfc || status == 0xfe || status == 0xff {
                r is Ok
            } else {
                r == Err::<System, Error>(Error::Conversion(status as u8))
            }
        }),
{
    lemma_field_bits_bound(words, 8, 8);
    lemma2_to64();
}

} // verus!
