//! System Real Time messages: parameterless one-word messages.
//!
//! Each kind carries nothing beyond its discriminants, so initializing one
//! fully determines the packet: the Message Type code `0x1`, the kind's
//! Status byte, and a zero Group.

use crate::message::system;
use crate::message::system::Status;
use crate::message::Group;
use crate::message::MessageType;
use crate::packet;
use crate::packet::field_bits;
use crate::packet::unchanged_outside;
use crate::Error;
use vstd::prelude::*;

verus! {

/// The Timing Clock message, a System Real Time message whose Status code
/// is `0xf8`.
#[derive(Debug)]
pub struct TimingClock {
    words: Vec<u32>,
}

impl View for TimingClock {
    type V = Seq<u32>;

    closed spec fn view(&self) -> Seq<u32> {
        self.words@
    }
}

impl TimingClock {
    #[verifier::type_invariant]
    spec fn wf(self) -> bool {
        self.words@.len() == 1
    }

    /// A zero-filled buffer of the exact word count of this message kind.
    pub fn packet() -> (r: Vec<u32>)
        ensures
            r@ == seq![0u32],
    {
        let mut v: Vec<u32> = Vec::new();
        v.push(0u32);
        proof {
            assert(v@ =~= seq![0u32]);
        }
        v
    }

    /// Wraps an existing buffer as a message of this kind. The buffer must
    /// be exactly one word; any other length is rejected with a size error
    /// carrying the expected and actual bit counts.
    pub fn try_from_packet(words: Vec<u32>) -> (r: Result<Self, Error>)
        requires
            words@.len() * 32 <= u64::MAX,
        ensures
            match r {
                Ok(m) => words@.len() == 1 && m@ == words@,
                Err(e) => words@.len() != 1 && e == Error::Size(32, (words@.len() * 32) as u64),
            },
    {
        if words.len() == 1 {
            Ok(TimingClock { words })
        } else {
            let actual = (words.len() as u64) * 32;
            Err(Error::size(32, actual))
        }
    }

    /// Hands the backing buffer back.
    pub fn into_packet(self) -> (r: Vec<u32>)
        ensures
            r@ == self@,
    {
        self.words
    }

    /// Zeroes the whole packet in place, discarding every field including
    /// the discriminants.
    pub fn reset(self) -> (r: Self)
        ensures
            r@ == seq![0u32],
    {
        proof {
            use_type_invariant(&self);
        }
        let TimingClock { mut words } = self;
        packet::zero_fill(&mut words);
        proof {
            assert(words@ =~= seq![0u32]);
        }
        TimingClock { words }
    }

    /// Initializes the buffer as a Timing Clock message: the packet is
    /// zeroed and the fixed discriminants are written, so the resulting
    /// word is exactly `0x10f80000` whatever the buffer held before.
    pub fn try_init(packet: Vec<u32>) -> (r: Result<Self, Error>)
        requires
            packet@.len() * 32 <= u64::MAX,
        ensures
            match r {
                Ok(m) => packet@.len() == 1 && m@ == seq![0x10f80000u32],
                Err(e) => packet@.len() != 1 && e == Error::Size(32, (packet@.len() * 32) as u64),
            },
    {
        let m = Self::try_from_packet(packet)?;
        let TimingClock { mut words } = m;
        system::init_system_words(&mut words, Status::TimingClock);
        proof {
            assert(words@ =~= seq![0x10f80000u32]);
        }
        Ok(TimingClock { words })
    }

    /// Reads the Message Type field.
    pub fn message_type(&self) -> (r: Result<MessageType, Error>)
        ensures
            r == MessageType::spec_from_code(field_bits(self@, 0, 4) as u8),
    {
        proof {
            use_type_invariant(&*self);
        }
        MessageType::read(&self.words)
    }

    /// Writes the Message Type field, leaving every other bit unchanged.
    pub fn set_message_type(self, message_type: MessageType) -> (r: Self)
        ensures
            r@.len() == self@.len(),
            field_bits(r@, 0, 4) == message_type.spec_code() as nat,
            unchanged_outside(self@, r@, 0, 4),
    {
        proof {
            use_type_invariant(&self);
        }
        let TimingClock { mut words } = self;
        message_type.write(&mut words);
        TimingClock { words }
    }

    /// Reads the Group field.
    pub fn group(&self) -> (r: Result<Group, Error>)
        ensures
            r == Group::spec_from_code(field_bits(self@, 4, 4) as u8),
    {
        proof {
            use_type_invariant(&*self);
        }
        Group::read(&self.words)
    }

    /// Writes the Group field, leaving every other bit unchanged.
    pub fn set_group(self, group: Group) -> (r: Self)
        ensures
            r@.len() == self@.len(),
            field_bits(r@, 4, 4) == group.spec_code() as nat,
            unchanged_outside(self@, r@, 4, 4),
    {
        proof {
            use_type_invariant(&self);
        }
        let TimingClock { mut words } = self;
        group.write(&mut words);
        TimingClock { words }
    }

    /// Reads the Status field.
    pub fn status(&self) -> (r: Result<Status, Error>)
        ensures
            r == Status::spec_from_code(field_bits(self@, 8, 8) as u8),
    {
        proof {
            use_type_invariant(&*self);
        }
        Status::read(&self.words)
    }

    /// Writes the Status field, leaving every other bit unchanged.
    pub fn set_status(self, status: Status) -> (r: Self)
        ensures
            r@.len() == self@.len(),
            field_bits(r@, 8, 8) == status.spec_code() as nat,
            unchanged_outside(self@, r@, 8, 8),
    {
        proof {
            use_type_invariant(&self);
        }
        let TimingClock { mut words } = self;
        status.write(&mut words);
        TimingClock { words }
    }
}

/// The Start message, a System Real Time message whose Status code
/// is `0xfa`.
#[derive(Debug)]
pub struct Start {
    words: Vec<u32>,
}

impl View for Start {
    type V = Seq<u32>;

    closed spec fn view(&self) -> Seq<u32> {
        self.words@
    }
}

impl Start {
    #[verifier::type_invariant]
    spec fn wf(self) -> bool {
        self.words@.len() == 1
    }

    /// A zero-filled buffer of the exact word count of this message kind.
    pub fn packet() -> (r: Vec<u32>)
        ensures
            r@ == seq![0u32],
    {
        let mut v: Vec<u32> = Vec::new();
        v.push(0u32);
        proof {
            assert(v@ =~= seq![0u32]);
        }
        v
    }

    /// Wraps an existing buffer as a message of this kind. The buffer must
    /// be exactly one word; any other length is rejected with a size error
    /// carrying the expected and actual bit counts.
    pub fn try_from_packet(words: Vec<u32>) -> (r: Result<Self, Error>)
        requires
            words@.len() * 32 <= u64::MAX,
        ensures
            match r {
                Ok(m) => words@.len() == 1 && m@ == words@,
                Err(e) => words@.len() != 1 && e == Error::Size(32, (words@.len() * 32) as u64),
            },
    {
        if words.len() == 1 {
            Ok(Start { words })
        } else {
            let actual = (words.len() as u64) * 32;
            Err(Error::size(32, actual))
        }
    }

    /// Hands the backing buffer back.
    pub fn into_packet(self) -> (r: Vec<u32>)
        ensures
            r@ == self@,
    {
        self.words
    }

    /// Zeroes the whole packet in place, discarding every field including
    /// the discriminants.
    pub fn reset(self) -> (r: Self)
        ensures
            r@ == seq![0u32],
    {
        proof {
            use_type_invariant(&self);
        }
        let Start { mut words } = self;
        packet::zero_fill(&mut words);
        proof {
            assert(words@ =~= seq![0u32]);
        }
        Start { words }
    }

    /// Initializes the buffer as a Start message: the packet is
    /// zeroed and the fixed discriminants are written, so the resulting
    /// word is exactly `0x10fa0000` whatever the buffer held before.
    pub fn try_init(packet: Vec<u32>) -> (r: Result<Self, Error>)
        requires
            packet@.len() * 32 <= u64::MAX,
        ensures
            match r {
                Ok(m) => packet@.len() == 1 && m@ == seq![0x10fa0000u32],
                Err(e) => packet@.len() != 1 && e == Error::Size(32, (packet@.len() * 32) as u64),
            },
    {
        let m = Self::try_from_packet(packet)?;
        let Start { mut words } = m;
        system::init_system_words(&mut words, Status::Start);
        proof {
            assert(words@ =~= seq![0x10fa0000u32]);
        }
        Ok(Start { words })
    }

    /// Reads the Message Type field.
    pub fn message_type(&self) -> (r: Result<MessageType, Error>)
        ensures
            r == MessageType::spec_from_code(field_bits(self@, 0, 4) as u8),
    {
        proof {
            use_type_invariant(&*self);
        }
        MessageType::read(&self.words)
    }

    /// Writes the Message Type field, leaving every other bit unchanged.
    pub fn set_message_type(self, message_type: MessageType) -> (r: Self)
        ensures
            r@.len() == self@.len(),
            field_bits(r@, 0, 4) == message_type.spec_code() as nat,
            unchanged_outside(self@, r@, 0, 4),
    {
        proof {
            use_type_invariant(&self);
        }
        let Start { mut words } = self;
        message_type.write(&mut words);
        Start { words }
    }

    /// Reads the Group field.
    pub fn group(&self) -> (r: Result<Group, Error>)
        ensures
            r == Group::spec_from_code(field_bits(self@, 4, 4) as u8),
    {
        proof {
            use_type_invariant(&*self);
        }
        Group::read(&self.words)
    }

    /// Writes the Group field, leaving every other bit unchanged.
    pub fn set_group(self, group: Group) -> (r: Self)
        ensures
            r@.len() == self@.len(),
            field_bits(r@, 4, 4) == group.spec_code() as nat,
            unchanged_outside(self@, r@, 4, 4),
    {
        proof {
            use_type_invariant(&self);
        }
        let Start { mut words } = self;
        group.write(&mut words);
        Start { words }
    }

    /// Reads the Status field.
    pub fn status(&self) -> (r: Result<Status, Error>)
        ensures
            r == Status::spec_from_code(field_bits(self@, 8, 8) as u8),
    {
        proof {
            use_type_invariant(&*self);
        }
        Status::read(&self.words)
    }

    /// Writes the Status field, leaving every other bit unchanged.
    pub fn set_status(self, status: Status) -> (r: Self)
        ensures
            r@.len() == self@.len(),
            field_bits(r@, 8, 8) == status.spec_code() as nat,
            unchanged_outside(self@, r@, 8, 8),
    {
        proof {
            use_type_invariant(&self);
        }
        let Start { mut words } = self;
        status.write(&mut words);
        Start { words }
    }
}

/// The Continue message, a System Real Time message whose Status code
/// is `0xfb`.
#[derive(Debug)]
pub struct Continue {
    words: Vec<u32>,
}

impl View for Continue {
    type V = Seq<u32>;

    closed spec fn view(&self) -> Seq<u32> {
        self.words@
    }
}

impl Continue {
    #[verifier::type_invariant]
    spec fn wf(self) -> bool {
        self.words@.len() == 1
    }

    /// A zero-filled buffer of the exact word count of this message kind.
    pub fn packet() -> (r: Vec<u32>)
        ensures
            r@ == seq![0u32],
    {
        let mut v: Vec<u32> = Vec::new();
        v.push(0u32);
        proof {
            assert(v@ =~= seq![0u32]);
        }
        v
    }

    /// Wraps an existing buffer as a message of this kind. The buffer must
    /// be exactly one word; any other length is rejected with a size error
    /// carrying the expected and actual bit counts.
    pub fn try_from_packet(words: Vec<u32>) -> (r: Result<Self, Error>)
        requires
            words@.len() * 32 <= u64::MAX,
        ensures
            match r {
                Ok(m) => words@.len() == 1 && m@ == words@,
                Err(e) => words@.len() != 1 && e == Error::Size(32, (words@.len() * 32) as u64),
            },
    {
        if words.len() == 1 {
            Ok(Continue { words })
        } else {
            let actual = (words.len() as u64) * 32;
            Err(Error::size(32, actual))
        }
    }

    /// Hands the backing buffer back.
    pub fn into_packet(self) -> (r: Vec<u32>)
        ensures
            r@ == self@,
    {
        self.words
    }

    /// Zeroes the whole packet in place, discarding every field including
    /// the discriminants.
    pub fn reset(self) -> (r: Self)
        ensures
            r@ == seq![0u32],
    {
        proof {
            use_type_invariant(&self);
        }
        let Continue { mut words } = self;
        packet::zero_fill(&mut words);
        proof {
            assert(words@ =~= seq![0u32]);
        }
        Continue { words }
    }

    /// Initializes the buffer as a Continue message: the packet is
    /// zeroed and the fixed discriminants are written, so the resulting
    /// word is exactly `0x10fb0000` whatever the buffer held before.
    pub fn try_init(packet: Vec<u32>) -> (r: Result<Self, Error>)
        requires
            packet@.len() * 32 <= u64::MAX,
        ensures
            match r {
                Ok(m) => packet@.len() == 1 && m@ == seq![0x10fb0000u32],
                Err(e) => packet@.len() != 1 && e == Error::Size(32, (packet@.len() * 32) as u64),
            },
    {
        let m = Self::try_from_packet(packet)?;
        let Continue { mut words } = m;
        system::init_system_words(&mut words, Status::Continue);
        proof {
            assert(words@ =~= seq![0x10fb0000u32]);
        }
        Ok(Continue { words })
    }

    /// Reads the Message Type field.
    pub fn message_type(&self) -> (r: Result<MessageType, Error>)
        ensures
            r == MessageType::spec_from_code(field_bits(self@, 0, 4) as u8),
    {
        proof {
            use_type_invariant(&*self);
        }
        MessageType::read(&self.words)
    }

    /// Writes the Message Type field, leaving every other bit unchanged.
    pub fn set_message_type(self, message_type: MessageType) -> (r: Self)
        ensures
            r@.len() == self@.len(),
            field_bits(r@, 0, 4) == message_type.spec_code() as nat,
            unchanged_outside(self@, r@, 0, 4),
    {
        proof {
            use_type_invariant(&self);
        }
        let Continue { mut words } = self;
        message_type.write(&mut words);
        Continue { words }
    }

    /// Reads the Group field.
    pub fn group(&self) -> (r: Result<Group, Error>)
        ensures
            r == Group::spec_from_code(field_bits(self@, 4, 4) as u8),
    {
        proof {
            use_type_invariant(&*self);
        }
        Group::read(&self.words)
    }

    /// Writes the Group field, leaving every other bit unchanged.
    pub fn set_group(self, group: Group) -> (r: Self)
        ensures
            r@.len() == self@.len(),
            field_bits(r@, 4, 4) == group.spec_code() as nat,
            unchanged_outside(self@, r@, 4, 4),
    {
        proof {
            use_type_invariant(&self);
        }
        let Continue { mut words } = self;
        group.write(&mut words);
        Continue { words }
    }

    /// Reads the Status field.
    pub fn status(&self) -> (r: Result<Status, Error>)
        ensures
            r == Status::spec_from_code(field_bits(self@, 8, 8) as u8),
    {
        proof {
            use_type_invariant(&*self);
        }
        Status::read(&self.words)
    }

    /// Writes the Status field, leaving every other bit unchanged.
    pub fn set_status(self, status: Status) -> (r: Self)
        ensures
            r@.len() == self@.len(),
            field_bits(r@, 8, 8) == status.spec_code() as nat,
            unchanged_outside(self@, r@, 8, 8),
    {
        proof {
            use_type_invariant(&self);
        }
        let Continue { mut words } = self;
        status.write(&mut words);
        Continue { words }
    }
}

/// The Stop message, a System Real Time message whose Status code
/// is `0xfc`.
#[derive(Debug)]
pub struct Stop {
    words: Vec<u32>,
}

impl View for Stop {
    type V = Seq<u32>;

    closed spec fn view(&self) -> Seq<u32> {
        self.words@
    }
}

impl Stop {
    #[verifier::type_invariant]
    spec fn wf(self) -> bool {
        self.words@.len() == 1
    }

    /// A zero-filled buffer of the exact word count of this message kind.
    pub fn packet() -> (r: Vec<u32>)
        ensures
            r@ == seq![0u32],
    {
        let mut v: Vec<u32> = Vec::new();
        v.push(0u32);
        proof {
            assert(v@ =~= seq![0u32]);
        }
        v
    }

    /// Wraps an existing buffer as a message of this kind. The buffer must
    /// be exactly one word; any other length is rejected with a size error
    /// carrying the expected and actual bit counts.
    pub fn try_from_packet(words: Vec<u32>) -> (r: Result<Self, Error>)
        requires
            words@.len() * 32 <= u64::MAX,
        ensures
            match r {
                Ok(m) => words@.len() == 1 && m@ == words@,
                Err(e) => words@.len() != 1 && e == Error::Size(32, (words@.len() * 32) as u64),
            },
    {
        if words.len() == 1 {
            Ok(Stop { words })
        } else {
            let actual = (words.len() as u64) * 32;
            Err(Error::size(32, actual))
        }
    }

    /// Hands the backing buffer back.
    pub fn into_packet(self) -> (r: Vec<u32>)
        ensures
            r@ == self@,
    {
        self.words
    }

    /// Zeroes the whole packet in place, discarding every field including
    /// the discriminants.
    pub fn reset(self) -> (r: Self)
        ensures
            r@ == seq![0u32],
    {
        proof {
            use_type_invariant(&self);
        }
        let Stop { mut words } = self;
        packet::zero_fill(&mut words);
        proof {
            assert(words@ =~= seq![0u32]);
        }
        Stop { words }
    }

    /// Initializes the buffer as a Stop message: the packet is
    /// zeroed and the fixed discriminants are written, so the resulting
    /// word is exactly `0x10fc0000` whatever the buffer held before.
    pub fn try_init(packet: Vec<u32>) -> (r: Result<Self, Error>)
        requires
            packet@.len() * 32 <= u64::MAX,
        ensures
            match r {
                Ok(m) => packet@.len() == 1 && m@ == seq![0x10fc0000u32],
                Err(e) => packet@.len() != 1 && e == Error::Size(32, (packet@.len() * 32) as u64),
            },
    {
        let m = Self::try_from_packet(packet)?;
        let Stop { mut words } = m;
        system::init_system_words(&mut words, Status::Stop);
        proof {
            assert(words@ =~= seq![0x10fc0000u32]);
        }
        Ok(Stop { words })
    }

    /// Reads the Message Type field.
    pub fn message_type(&self) -> (r: Result<MessageType, Error>)
        ensures
            r == MessageType::spec_from_code(field_bits(self@, 0, 4) as u8),
    {
        proof {
            use_type_invariant(&*self);
        }
        MessageType::read(&self.words)
    }

    /// Writes the Message Type field, leaving every other bit unchanged.
    pub fn set_message_type(self, message_type: MessageType) -> (r: Self)
        ensures
            r@.len() == self@.len(),
            field_bits(r@, 0, 4) == message_type.spec_code() as nat,
            unchanged_outside(self@, r@, 0, 4),
    {
        proof {
            use_type_invariant(&self);
        }
        let Stop { mut words } = self;
        message_type.write(&mut words);
        Stop { words }
    }

    /// Reads the Group field.
    pub fn group(&self) -> (r: Result<Group, Error>)
        ensures
            r == Group::spec_from_code(field_bits(self@, 4, 4) as u8),
    {
        proof {
            use_type_invariant(&*self);
        }
        Group::read(&self.words)
    }

    /// Writes the Group field, leaving every other bit unchanged.
    pub fn set_group(self, group: Group) -> (r: Self)
        ensures
            r@.len() == self@.len(),
            field_bits(r@, 4, 4) == group.spec_code() as nat,
            unchanged_outside(self@, r@, 4, 4),
    {
        proof {
            use_type_invariant(&self);
        }
        let Stop { mut words } = self;
        group.write(&mut words);
        Stop { words }
    }

    /// Reads the Status field.
    pub fn status(&self) -> (r: Result<Status, Error>)
        ensures
            r == Status::spec_from_code(field_bits(self@, 8, 8) as u8),
    {
        proof {
            use_type_invariant(&*self);
        }
        Status::read(&self.words)
    }

    /// Writes the Status field, leaving every other bit unchanged.
    pub fn set_status(self, status: Status) -> (r: Self)
        ensures
            r@.len() == self@.len(),
            field_bits(r@, 8, 8) == status.spec_code() as nat,
            unchanged_outside(self@, r@, 8, 8),
    {
        proof {
            use_type_invariant(&self);
        }
        let Stop { mut words } = self;
        status.write(&mut words);
        Stop { words }
    }
}

/// The Active Sensing message, a System Real Time message whose Status code
/// is `0xfe`.
#[derive(Debug)]
pub struct ActiveSensing {
    words: Vec<u32>,
}

impl View for ActiveSensing {
    type V = Seq<u32>;

    closed spec fn view(&self) -> Seq<u32> {
        self.words@
    }
}

impl ActiveSensing {
    #[verifier::type_invariant]
    spec fn wf(self) -> bool {
        self.words@.len() == 1
    }

    /// A zero-filled buffer of the exact word count of this message kind.
    pub fn packet() -> (r: Vec<u32>)
        ensures
            r@ == seq![0u32],
    {
        let mut v: Vec<u32> = Vec::new();
        v.push(0u32);
        proof {
            assert(v@ =~= seq![0u32]);
        }
        v
    }

    /// Wraps an existing buffer as a message of this kind. The buffer must
    /// be exactly one word; any other length is rejected with a size error
    /// carrying the expected and actual bit counts.
    pub fn try_from_packet(words: Vec<u32>) -> (r: Result<Self, Error>)
        requires
            words@.len() * 32 <= u64::MAX,
        ensures
            match r {
                Ok(m) => words@.len() == 1 && m@ == words@,
                Err(e) => words@.len() != 1 && e == Error::Size(32, (words@.len() * 32) as u64),
            },
    {
        if words.len() == 1 {
            Ok(ActiveSensing { words })
        } else {
            let actual = (words.len() as u64) * 32;
            Err(Error::size(32, actual))
        }
    }

    /// Hands the backing buffer back.
    pub fn into_packet(self) -> (r: Vec<u32>)
        ensures
            r@ == self@,
    {
        self.words
    }

    /// Zeroes the whole packet in place, discarding every field including
    /// the discriminants.
    pub fn reset(self) -> (r: Self)
        ensures
            r@ == seq![0u32],
    {
        proof {
            use_type_invariant(&self);
        }
        let ActiveSensing { mut words } = self;
        packet::zero_fill(&mut words);
        proof {
            assert(words@ =~= seq![0u32]);
        }
        ActiveSensing { words }
    }

    /// Initializes the buffer as a Active Sensing message: the packet is
    /// zeroed and the fixed discriminants are written, so the resulting
    /// word is exactly `0x10fe0000` whatever the buffer held before.
    pub fn try_init(packet: Vec<u32>) -> (r: Result<Self, Error>)
        requires
            packet@.len() * 32 <= u64::MAX,
        ensures
            match r {
                Ok(m) => packet@.len() == 1 && m@ == seq![0x10fe0000u32],
                Err(e) => packet@.len() != 1 && e == Error::Size(32, (packet@.len() * 32) as u64),
            },
    {
        let m = Self::try_from_packet(packet)?;
        let ActiveSensing { mut words } = m;
        system::init_system_words(&mut words, Status::ActiveSensing);
        proof {
            assert(words@ =~= seq![0x10fe0000u32]);
        }
        Ok(ActiveSensing { words })
    }

    /// Reads the Message Type field.
    pub fn message_type(&self) -> (r: Result<MessageType, Error>)
        ensures
            r == MessageType::spec_from_code(field_bits(self@, 0, 4) as u8),
    {
        proof {
            use_type_invariant(&*self);
        }
        MessageType::read(&self.words)
    }

    /// Writes the Message Type field, leaving every other bit unchanged.
    pub fn set_message_type(self, message_type: MessageType) -> (r: Self)
        ensures
            r@.len() == self@.len(),
            field_bits(r@, 0, 4) == message_type.spec_code() as nat,
            unchanged_outside(self@, r@, 0, 4),
    {
        proof {
            use_type_invariant(&self);
        }
        let ActiveSensing { mut words } = self;
        message_type.write(&mut words);
        ActiveSensing { words }
    }

    /// Reads the Group field.
    pub fn group(&self) -> (r: Result<Group, Error>)
        ensures
            r == Group::spec_from_code(field_bits(self@, 4, 4) as u8),
    {
        proof {
            use_type_invariant(&*self);
        }
        Group::read(&self.words)
    }

    /// Writes the Group field, leaving every other bit unchanged.
    pub fn set_group(self, group: Group) -> (r: Self)
        ensures
            r@.len() == self@.len(),
            field_bits(r@, 4, 4) == group.spec_code() as nat,
            unchanged_outside(self@, r@, 4, 4),
    {
        proof {
            use_type_invariant(&self);
        }
        let ActiveSensing { mut words } = self;
        group.write(&mut words);
        ActiveSensing { words }
    }

    /// Reads the Status field.
    pub fn status(&self) -> (r: Result<Status, Error>)
        ensures
            r == Status::spec_from_code(field_bits(self@, 8, 8) as u8),
    {
        proof {
            use_type_invariant(&*self);
        }
        Status::read(&self.words)
    }

    /// Writes the Status field, leaving every other bit unchanged.
    pub fn set_status(self, status: Status) -> (r: Self)
        ensures
            r@.len() == self@.len(),
            field_bits(r@, 8, 8) == status.spec_code() as nat,
            unchanged_outside(self@, r@, 8, 8),
    {
        proof {
            use_type_invariant(&self);
        }
        let ActiveSensing { mut words } = self;
        status.write(&mut words);
        ActiveSensing { words }
    }
}

/// The Reset message, a System Real Time message whose Status code
/// is `0xff`.
#[derive(Debug)]
pub struct Reset {
    words: Vec<u32>,
}

impl View for Reset {
    type V = Seq<u32>;

    closed spec fn view(&self) -> Seq<u32> {
        self.words@
    }
}

impl Reset {
    #[verifier::type_invariant]
    spec fn wf(self) -> bool {
        self.words@.len() == 1
    }

    /// A zero-filled buffer of the exact word count of this message kind.
    pub fn packet() -> (r: Vec<u32>)
        ensures
            r@ == seq![0u32],
    {
        let mut v: Vec<u32> = Vec::new();
        v.push(0u32);
        proof {
            assert(v@ =~= seq![0u32]);
        }
        v
    }

    /// Wraps an existing buffer as a message of this kind. The buffer must
    /// be exactly one word; any other length is rejected with a size error
    /// carrying the expected and actual bit counts.
    pub fn try_from_packet(words: Vec<u32>) -> (r: Result<Self, Error>)
        requires
            words@.len() * 32 <= u64::MAX,
        ensures
            match r {
                Ok(m) => words@.len() == 1 && m@ == words@,
                Err(e) => words@.len() != 1 && e == Error::Size(32, (words@.len() * 32) as u64),
            },
    {
        if words.len() == 1 {
            Ok(Reset { words })
        } else {
            let actual = (words.len() as u64) * 32;
            Err(Error::size(32, actual))
        }
    }

    /// Hands the backing buffer back.
    pub fn into_packet(self) -> (r: Vec<u32>)
        ensures
            r@ == self@,
    {
        self.words
    }

    /// Zeroes the whole packet in place, discarding every field including
    /// the discriminants.
    pub fn reset(self) -> (r: Self)
        ensures
            r@ == seq![0u32],
    {
        proof {
            use_type_invariant(&self);
        }
        let Reset { mut words } = self;
        packet::zero_fill(&mut words);
        proof {
            assert(words@ =~= seq![0u32]);
        }
        Reset { words }
    }

    /// Initializes the buffer as a Reset message: the packet is
    /// zeroed and the fixed discriminants are written, so the resulting
    /// word is exactly `0x10ff0000` whatever the buffer held before.
    pub fn try_init(packet: Vec<u32>) -> (r: Result<Self, Error>)
        requires
            packet@.len() * 32 <= u64::MAX,
        ensures
            match r {
                Ok(m) => packet@.len() == 1 && m@ == seq![0x10ff0000u32],
                Err(e) => packet@.len() != 1 && e == Error::Size(32, (packet@.len() * 32) as u64),
            },
    {
        let m = Self::try_from_packet(packet)?;
        let Reset { mut words } = m;
        system::init_system_words(&mut words, Status::Reset);
        proof {
            assert(words@ =~= seq![0x10ff0000u32]);
        }
        Ok(Reset { words })
    }

    /// Reads the Message Type field.
    pub fn message_type(&self) -> (r: Result<MessageType, Error>)
        ensures
            r == MessageType::spec_from_code(field_bits(self@, 0, 4) as u8),
    {
        proof {
            use_type_invariant(&*self);
        }
        MessageType::read(&self.words)
    }

    /// Writes the Message Type field, leaving every other bit unchanged.
    pub fn set_message_type(self, message_type: MessageType) -> (r: Self)
        ensures
            r@.len() == self@.len(),
            field_bits(r@, 0, 4) == message_type.spec_code() as nat,
            unchanged_outside(self@, r@, 0, 4),
    {
        proof {
            use_type_invariant(&self);
        }
        let Reset { mut words } = self;
        message_type.write(&mut words);
        Reset { words }
    }

    /// Reads the Group field.
    pub fn group(&self) -> (r: Result<Group, Error>)
        ensures
            r == Group::spec_from_code(field_bits(self@, 4, 4) as u8),
    {
        proof {
            use_type_invariant(&*self);
        }
        Group::read(&self.words)
    }

    /// Writes the Group field, leaving every other bit unchanged.
    pub fn set_group(self, group: Group) -> (r: Self)
        ensures
            r@.len() == self@.len(),
            field_bits(r@, 4, 4) == group.spec_code() as nat,
            unchanged_outside(self@, r@, 4, 4),
    {
        proof {
            use_type_invariant(&self);
        }
        let Reset { mut words } = self;
        group.write(&mut words);
        Reset { words }
    }

    /// Reads the Status field.
    pub fn status(&self) -> (r: Result<Status, Error>)
        ensures
            r == Status::spec_from_code(field_bits(self@, 8, 8) as u8),
    {
        proof {
            use_type_invariant(&*self);
        }
        Status::read(&self.words)
    }

    /// Writes the Status field, leaving every other bit unchanged.
    pub fn set_status(self, status: Status) -> (r: Self)
        ensures
            r@.len() == self@.len(),
            field_bits(r@, 8, 8) == status.spec_code() as nat,
            unchanged_outside(self@, r@, 8, 8),
    {
        proof {
            use_type_invariant(&self);
        }
        let Reset { mut words } = self;
        status.write(&mut words);
        Reset { words }
    }
}

/// The System Real Time family: the concrete kind a one-word System packet
/// with a Real Time status byte represents.
#[derive(Debug)]
pub enum RealTime {
    TimingClock(TimingClock),
    Start(Start),
    Continue(Continue),
    Stop(Stop),
    ActiveSensing(ActiveSensing),
    Reset(Reset),
}

impl RealTime {
    /// The dispatch table of the Real Time family: which result classifying
    /// a buffer must produce. An empty buffer holds no status byte to read
    /// and is rejected with a size error at once. Otherwise a defined Real
    /// Time status selects its kind, gated by the one-word size check, and
    /// any other status byte is rejected as a conversion error carrying
    /// that byte.
    pub open spec fn classifies(words: Seq<u32>, r: Result<RealTime, Error>) -> bool {
        let status = field_bits(words, 8, 8);
        if words.len() == 0 {
            r == Err::<RealTime, Error>(Error::Size(32, 0))
        } else if status == 0xf8 {
            if words.len() == 1 {
                r matches Ok(RealTime::TimingClock(m)) && m@ == words
            } else {
                r == Err::<RealTime, Error>(Error::Size(32, (words.len() * 32) as u64))
            }
        } else if status == 0xfa {
            if words.len() == 1 {
                r matches Ok(RealTime::Start(m)) && m@ == words
            } else {
                r == Err::<RealTime, Error>(Error::Size(32, (words.len() * 32) as u64))
            }
        } else if status == 0xfb {
            if words.len() == 1 {
                r matches Ok(RealTime::Continue(m)) && m@ == words
            } else {
                r == Err::<RealTime, Error>(Error::Size(32, (words.len() * 32) as u64))
            }
        } else if status == 0xfc {
            if words.len() == 1 {
                r matches Ok(RealTime::Stop(m)) && m@ == words
            } else {
                r == Err::<RealTime, Error>(Error::Size(32, (words.len() * 32) as u64))
            }
        } else if status == 0xfe {
            if words.len() == 1 {
                r matches Ok(RealTime::ActiveSensing(m)) && m@ == words
            } else {
                r == Err::<RealTime, Error>(Error::Size(32, (words.len() * 32) as u64))
            }
        } else if status == 0xff {
            if words.len() == 1 {
                r matches Ok(RealTime::Reset(m)) && m@ == words
            } else {
                r == Err::<RealTime, Error>(Error::Size(32, (words.len() * 32) as u64))
            }
        } else {
            r == Err::<RealTime, Error>(Error::Conversion(status as u8))
        }
    }

    /// Classifies a buffer as a concrete Real Time message by its Status
    /// byte, as [`Self::classifies`] describes.
    pub fn try_from_packet(words: Vec<u32>) -> (r: Result<RealTime, Error>)
        requires
            words@.len() * 32 <= u64::MAX,
        ensures
            RealTime::classifies(words@, r),
    {
        if words.len() == 0 {
            return Err(Error::size(32, 0));
        }
        proof {
            crate::packet::lemma_field_bits_bound(words@, 8, 8);
            vstd::arithmetic::power2::lemma2_to64();
        }
        let status = Status::read(&words);
        match status {
            Err(e) => Err(e),
            Ok(Status::TimingClock) => match TimingClock::try_from_packet(words) {
                Ok(m) => Ok(RealTime::TimingClock(m)),
                Err(e) => Err(e),
            },
            Ok(Status::Start) => match Start::try_from_packet(words) {
                Ok(m) => Ok(RealTime::Start(m)),
                Err(e) => Err(e),
            },
            Ok(Status::Continue) => match Continue::try_from_packet(words) {
                Ok(m) => Ok(RealTime::Continue(m)),
                Err(e) => Err(e),
            },
            Ok(Status::Stop) => match Stop::try_from_packet(words) {
                Ok(m) => Ok(RealTime::Stop(m)),
                Err(e) => Err(e),
            },
            Ok(Status::ActiveSensing) => match ActiveSensing::try_from_packet(words) {
                Ok(m) => Ok(RealTime::ActiveSensing(m)),
                Err(e) => Err(e),
            },
            Ok(Status::Reset) => match Reset::try_from_packet(words) {
                Ok(m) => Ok(RealTime::Reset(m)),
                Err(e) => Err(e),
            },
            Ok(s) => Err(Error::conversion(s.code())),
        }
    }
}

} // verus!
