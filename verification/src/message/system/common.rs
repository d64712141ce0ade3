//! System Common messages and the quarter-frame value types.

use crate::message::system::Status;
use crate::message::Group;
use crate::message::MessageType;
use crate::packet::bit_get;
use crate::packet::field_bits;
use crate::packet::lemma_field_bits_bound;
use crate::packet::load_field;
use crate::packet::store_field;
use crate::packet::unchanged_outside;
use crate::Error;
use vstd::arithmetic::power2::lemma2_to64;
use vstd::prelude::*;

verus! {

/// The 4-bit quarter-frame data nibble of a MIDI Time Code message, at bits
/// 20 to 23.
#[derive(Debug, Default, PartialEq, Eq, PartialOrd, Ord, Structural)]
pub struct Data(u8);

impl View for Data {
    type V = u8;

    closed spec fn view(&self) -> u8 {
        self.0
    }
}

impl Data {
    #[verifier::type_invariant]
    pub open spec fn inv(self) -> bool {
        self@ < 0x10
    }

    /// The value a raw integer wraps to. Used only to state contracts.
    pub closed spec fn spec_new(value: u8) -> Data {
        Data(value)
    }

    /// Wraps a raw value known to fit the declared 4-bit width.
    pub fn new(value: u8) -> (r: Self)
        requires
            value < 0x10,
        ensures
            r@ == value,
    {
        Data(value)
    }

    /// Validates a raw value against the declared 4-bit width: values of 16
    /// and above are rejected with an overflow error carrying the value and
    /// the width.
    pub fn try_new(value: u8) -> (r: Result<Self, Error>)
        ensures
            r == Data::spec_try_new(value),
    {
        if value < 0x10 {
            Ok(Data(value))
        } else {
            Err(Error::overflow(value as u64, 4))
        }
    }

    /// What validating a raw value returns: the wrapped value exactly when
    /// it fits the declared width, the overflow error otherwise.
    pub open spec fn spec_try_new(value: u8) -> Result<Data, Error> {
        if value < 0x10 {
            Ok(Data::spec_new(value))
        } else {
            Err(Error::Overflow(value as u64, 4))
        }
    }

    /// The raw value back out of the field value; always possible.
    pub fn value(&self) -> (r: u8)
        ensures
            r == self@,
    {
        self.0
    }

    pub(crate) fn read(words: &Vec<u32>) -> (r: Result<Data, Error>)
        requires
            words@.len() >= 1,
        ensures
            r == Data::spec_read(words@),
    {
        proof {
            lemma_field_bits_bound(words@, 20, 4);
            lemma2_to64();
        }
        let raw = load_field(words, 20, 4) as u8;
        Data::try_new(raw)
    }

    /// What reading the quarter-frame data range returns: the 4-bit range
    /// always fits the 4-bit width, so reading never fails.
    pub open spec fn spec_read(words: Seq<u32>) -> Result<Data, Error> {
        Data::spec_try_new(field_bits(words, 20, 4) as u8)
    }

    pub(crate) fn write(self, words: &mut Vec<u32>)
        requires
            old(words)@.len() >= 1,
        ensures
            final(words)@.len() == old(words)@.len(),
            field_bits(final(words)@, 20, 4) == self@ as nat,
            unchanged_outside(old(words)@, final(words)@, 20, 4),
    {
        proof {
            use_type_invariant(&self);
            lemma2_to64();
        }
        store_field(words, 20, 4, self.0 as u32);
    }
}

/// The view of a wrapped raw value is that value: what [`Data::spec_new`]
/// wraps, the view reads back.
pub proof fn lemma_data_wraps(value: u8)
    ensures
        (Data::spec_new(value))@ == value,
{
}

/// Decoding a quarter-frame data value inverts encoding it.
pub proof fn lemma_data_round_trip(w: Seq<u32>, d: Data)
    requires
        d.inv(),
        field_bits(w, 20, 4) == d@ as nat,
    ensures
        Data::spec_read(w) == Ok::<Data, Error>(d),
{
}

/// The quarter-frame type of a MIDI Time Code message: which third of the
/// timecode the data nibble carries, and whether it is the least or most
/// significant half. A 3-bit field at bits 17 to 19; every code is defined.
#[derive(Debug, PartialEq, Eq, Structural)]
pub enum Type {
    Frames(Significance),
    Seconds(Significance),
    Minutes(Significance),
    Hours(Significance),
}

/// Whether a quarter-frame data nibble is the least or most significant
/// half of its timecode component.
#[derive(Debug, PartialEq, Eq, Structural)]
pub enum Significance {
    Least,
    Most,
}

impl Significance {
    /// The wire code of this significance: the low bit of the
    /// quarter-frame type code.
    pub open spec fn spec_code(self) -> u8 {
        match self {
            Significance::Least => 0,
            Significance::Most => 1,
        }
    }

    pub fn code(&self) -> (r: u8)
        ensures
            r == self.spec_code(),
    {
        match self {
            Significance::Least => 0,
            Significance::Most => 1,
        }
    }
}

impl Type {
    /// The wire code of this quarter-frame type.
    pub open spec fn spec_code(self) -> u8 {
        match self {
            Type::Frames(s) => s.spec_code(),
            Type::Seconds(s) => (2 + s.spec_code()) as u8,
            Type::Minutes(s) => (4 + s.spec_code()) as u8,
            Type::Hours(s) => (6 + s.spec_code()) as u8,
        }
    }

    /// The quarter-frame type a wire code decodes to. Every 3-bit code is
    /// defined; anything above is a conversion error.
    pub open spec fn spec_from_code(code: u8) -> Result<Type, Error> {
        if code == 0 {
            Ok(Type::Frames(Significance::Least))
        } else if code == 1 {
            Ok(Type::Frames(Significance::Most))
        } else if code == 2 {
            Ok(Type::Seconds(Significance::Least))
        } else if code == 3 {
            Ok(Type::Seconds(Significance::Most))
        } else if code == 4 {
            Ok(Type::Minutes(Significance::Least))
        } else if code == 5 {
            Ok(Type::Minutes(Significance::Most))
        } else if code == 6 {
            Ok(Type::Hours(Significance::Least))
        } else if code == 7 {
            Ok(Type::Hours(Significance::Most))
        } else {
            Err(Error::Conversion(code))
        }
    }

    pub fn code(&self) -> (r: u8)
        ensures
            r == self.spec_code(),
    {
        match self {
            Type::Frames(s) => s.code(),
            Type::Seconds(s) => 2 + s.code(),
            Type::Minutes(s) => 4 + s.code(),
            Type::Hours(s) => 6 + s.code(),
        }
    }

    pub fn try_from_code(code: u8) -> (r: Result<Type, Error>)
        ensures
            r == Type::spec_from_code(code),
    {
        match code {
            0 => Ok(Type::Frames(Significance::Least)),
            1 => Ok(Type::Frames(Significance::Most)),
            2 => Ok(Type::Seconds(Significance::Least)),
            3 => Ok(Type::Seconds(Significance::Most)),
            4 => Ok(Type::Minutes(Significance::Least)),
            5 => Ok(Type::Minutes(Significance::Most)),
            6 => Ok(Type::Hours(Significance::Least)),
            7 => Ok(Type::Hours(Significance::Most)),
            _ => Err(Error::conversion(code)),
        }
    }

    pub(crate) fn read(words: &Vec<u32>) -> (r: Result<Type, Error>)
        requires
            words@.len() >= 1,
        ensures
            r == Type::spec_from_code(field_bits(words@, 17, 3) as u8),
    {
        proof {
            lemma_field_bits_bound(words@, 17, 3);
            lemma2_to64();
        }
        let code = load_field(words, 17, 3) as u8;
        Type::try_from_code(code)
    }

    pub(crate) fn write(self, words: &mut Vec<u32>)
        requires
            old(words)@.len() >= 1,
        ensures
            final(words)@.len() == old(words)@.len(),
            field_bits(final(words)@, 17, 3) == self.spec_code() as nat,
            unchanged_outside(old(words)@, final(words)@, 17, 3),
    {
        proof {
            lemma2_to64();
        }
        let code = self.code();
        store_field(words, 17, 3, code as u32);
    }
}

/// Decoding a quarter-frame type inverts encoding it: the code a type is
/// written as reads back as exactly that type. A type read from the 3-bit
/// field can moreover never fail, since every 3-bit code is defined.
pub proof fn lemma_type_round_trip(t: Type)
    ensures
        Type::spec_from_code(t.spec_code()) == Ok::<Type, Error>(t),
{
}

/// The quarter-frame value of a MIDI Time Code message: a composite of the
/// data nibble and the quarter-frame type that says which timecode
/// component the nibble carries. Decoding is atomic: either both
/// sub-fields decode and the whole value is produced, or the read fails.
#[derive(Debug, PartialEq, Eq, Structural)]
pub struct QuarterFrame(pub Data, pub Type);

impl QuarterFrame {
    /// What reading the quarter-frame ranges returns: the data nibble,
    /// then the type; a failure of either sub-field read is the failure of
    /// the whole composite.
    pub open spec fn spec_read(words: Seq<u32>) -> Result<QuarterFrame, Error> {
        match Data::spec_read(words) {
            Err(e) => Err(e),
            Ok(d) => match Type::spec_from_code(field_bits(words, 17, 3) as u8) {
                Err(e) => Err(e),
                Ok(t) => Ok(QuarterFrame(d, t)),
            },
        }
    }

    pub(crate) fn read(words: &Vec<u32>) -> (r: Result<QuarterFrame, Error>)
        requires
            words@.len() >= 1,
        ensures
            r == QuarterFrame::spec_read(words@),
    {
        let data = match Data::read(words) {
            Ok(d) => d,
            Err(e) => {
                return Err(e);
            },
        };
        let t = match Type::read(words) {
            Ok(t) => t,
            Err(e) => {
                return Err(e);
            },
        };
        Ok(QuarterFrame(data, t))
    }

    /// Writes the data nibble, then the type, into their ranges; a validly
    /// constructed quarter frame always encodes, and nothing outside bits
    /// 17 to 23 is touched.
    pub(crate) fn write(self, words: &mut Vec<u32>)
        requires
            old(words)@.len() >= 1,
        ensures
            final(words)@.len() == old(words)@.len(),
            field_bits(final(words)@, 20, 4) == self.0@ as nat,
            field_bits(final(words)@, 17, 3) == self.1.spec_code() as nat,
            unchanged_outside(old(words)@, final(words)@, 17, 7),
    {
        let ghost w0 = words@;
        let QuarterFrame(data, t) = self;
        data.write(words);
        let ghost w1 = words@;
        t.write(words);
        proof {
            let w2 = words@;
            crate::packet::lemma_frame_field(w1, w2, 17, 3, 20, 4);
            assert forall|j: int|
                0 <= j < w0.len() * 32 && !(17 <= j < 17 + 7) implies #[trigger] bit_get(w2, j)
                == bit_get(w0, j) by {
                assert(bit_get(w1, j) == bit_get(w0, j));
                assert(bit_get(w2, j) == bit_get(w1, j));
            }
        }
    }
}

/// Decoding a quarter frame inverts encoding it: the two sub-fields a
/// quarter frame is written as read back as exactly that quarter frame.
pub proof fn lemma_quarter_frame_round_trip(w: Seq<u32>, qf: QuarterFrame)
    requires
        qf.0.inv(),
        field_bits(w, 20, 4) == qf.0@ as nat,
        field_bits(w, 17, 3) == qf.1.spec_code() as nat,
    ensures
        QuarterFrame::spec_read(w) == Ok::<QuarterFrame, Error>(qf),
{
    lemma_data_round_trip(w, qf.0);
    lemma_type_round_trip(qf.1);
}

/// The MIDI Time Code message, a System Common message whose Status code
/// is `0xf1`, carrying one quarter-frame value.
#[derive(Debug)]
pub struct MIDITimeCode {
    words: Vec<u32>,
}

impl View for MIDITimeCode {
    type V = Seq<u32>;

    closed spec fn view(&self) -> Seq<u32> {
        self.words@
    }
}

impl MIDITimeCode {
    #[verifier::type_invariant]
    spec fn wf(self) -> bool {
        self.words@.len() == 1
    }

    /// A zero-filled buffer of the exact word count of this message kind.
    pub fn packet() -> (r: Vec<u32>)
        ensures
            r@ == seq![0u32],
    {
        let mut v: Vec<u32> = Vec::new();
        v.push(0u32);
        proof {
            assert(v@ =~= seq![0u32]);
        }
        v
    }

    /// Wraps an existing buffer as a message of this kind. The buffer must
    /// be exactly one word; any other length is rejected with a size error
    /// carrying the expected and actual bit counts.
    pub fn try_from_packet(words: Vec<u32>) -> (r: Result<Self, Error>)
        requires
            words@.len() * 32 <= u64::MAX,
        ensures
            match r {
                Ok(m) => words@.len() == 1 && m@ == words@,
                Err(e) => words@.len() != 1 && e == Error::Size(32, (words@.len() * 32) as u64),
            },
    {
        if words.len() == 1 {
            Ok(MIDITimeCode { words })
        } else {
            let actual = (words.len() as u64) * 32;
            Err(Error::size(32, actual))
        }
    }

    /// Hands the backing buffer back.
    pub fn into_packet(self) -> (r: Vec<u32>)
        ensures
            r@ == self@,
    {
        self.words
    }

    /// Zeroes the whole packet in place, discarding every field including
    /// the discriminants.
    pub fn reset(self) -> (r: Self)
        ensures
            r@ == seq![0u32],
    {
        proof {
            use_type_invariant(&self);
        }
        let MIDITimeCode { mut words } = self;
        crate::packet::zero_fill(&mut words);
        proof {
            assert(words@ =~= seq![0u32]);
        }
        MIDITimeCode { words }
    }

    /// Initializes the buffer as a MIDI Time Code message holding the
    /// given quarter frame: the packet is zeroed, the fixed discriminants
    /// are written, and the quarter frame is encoded, so the resulting
    /// word is a function of the quarter frame alone, whatever the buffer
    /// held before.
    pub fn try_init(packet: Vec<u32>, quarter_frame: QuarterFrame) -> (r: Result<Self, Error>)
        requires
            packet@.len() * 32 <= u64::MAX,
        ensures
            match r {
                Ok(m) => packet@.len() == 1 && m@.len() == 1 && m@[0] as nat == 0x10f10000
                    + quarter_frame.1.spec_code() * 0x1000 + quarter_frame.0@ * 0x100,
                Err(e) => packet@.len() != 1 && e == Error::Size(32, (packet@.len() * 32) as u64),
            },
    {
        let m = Self::try_from_packet(packet)?;
        let MIDITimeCode { mut words } = m;
        crate::message::system::init_system_words(&mut words, Status::MIDITimeCode);
        let ghost w1 = words@;
        let m = MIDITimeCode { words };
        let m = m.set_quarter_frame(quarter_frame);
        proof {
            let w2 = m@;
            crate::message::system::lemma_system_word(w1);
            crate::message::system::lemma_system_word(w2);
            crate::packet::lemma_frame_field(w1, w2, 17, 7, 0, 4);
            crate::packet::lemma_frame_field(w1, w2, 17, 7, 4, 4);
            crate::packet::lemma_frame_field(w1, w2, 17, 7, 8, 8);
            crate::packet::lemma_frame_field(w1, w2, 17, 7, 16, 1);
            crate::packet::lemma_frame_field(w1, w2, 17, 7, 24, 8);
        }
        Ok(m)
    }

    /// Reads the Message Type field.
    pub fn message_type(&self) -> (r: Result<MessageType, Error>)
        ensures
            r == MessageType::spec_from_code(field_bits(self@, 0, 4) as u8),
    {
        proof {
            use_type_invariant(&*self);
        }
        MessageType::read(&self.words)
    }

    /// Writes the Message Type field, leaving every other bit unchanged.
    pub fn set_message_type(self, message_type: MessageType) -> (r: Self)
        ensures
            r@.len() == self@.len(),
            field_bits(r@, 0, 4) == message_type.spec_code() as nat,
            unchanged_outside(self@, r@, 0, 4),
    {
        proof {
            use_type_invariant(&self);
        }
        let MIDITimeCode { mut words } = self;
        message_type.write(&mut words);
        MIDITimeCode { words }
    }

    /// Reads the Group field.
    pub fn group(&self) -> (r: Result<Group, Error>)
        ensures
            r == Group::spec_from_code(field_bits(self@, 4, 4) as u8),
    {
        proof {
            use_type_invariant(&*self);
        }
        Group::read(&self.words)
    }

    /// Writes the Group field, leaving every other bit unchanged.
    pub fn set_group(self, group: Group) -> (r: Self)
        ensures
            r@.len() == self@.len(),
            field_bits(r@, 4, 4) == group.spec_code() as nat,
            unchanged_outside(self@, r@, 4, 4),
    {
        proof {
            use_type_invariant(&self);
        }
        let MIDITimeCode { mut words } = self;
        group.write(&mut words);
        MIDITimeCode { words }
    }

    /// Reads the Status field.
    pub fn status(&self) -> (r: Result<Status, Error>)
        ensures
            r == Status::spec_from_code(field_bits(self@, 8, 8) as u8),
    {
        proof {
            use_type_invariant(&*self);
        }
        Status::read(&self.words)
    }

    /// Writes the Status field, leaving every other bit unchanged.
    pub fn set_status(self, status: Status) -> (r: Self)
        ensures
            r@.len() == self@.len(),
            field_bits(r@, 8, 8) == status.spec_code() as nat,
            unchanged_outside(self@, r@, 8, 8),
    {
        proof {
            use_type_invariant(&self);
        }
        let MIDITimeCode { mut words } = self;
        status.write(&mut words);
        MIDITimeCode { words }
    }

    /// Reads the quarter-frame composite field.
    pub fn quarter_frame(&self) -> (r: Result<QuarterFrame, Error>)
        ensures
            r == QuarterFrame::spec_read(self@),
    {
        proof {
            use_type_invariant(&*self);
        }
        QuarterFrame::read(&self.words)
    }

    /// Writes the quarter-frame composite field, leaving every bit outside
    /// bits 17 to 23 unchanged.
    pub fn set_quarter_frame(self, quarter_frame: QuarterFrame) -> (r: Self)
        ensures
            r@.len() == self@.len(),
            field_bits(r@, 20, 4) == quarter_frame.0@ as nat,
            field_bits(r@, 17, 3) == quarter_frame.1.spec_code() as nat,
            unchanged_outside(self@, r@, 17, 7),
    {
        proof {
            use_type_invariant(&self);
        }
        let MIDITimeCode { mut words } = self;
        quarter_frame.write(&mut words);
        MIDITimeCode { words }
    }
}

/// The System Common family: the concrete kind a one-word System packet
/// with a Common status byte represents.
#[derive(Debug)]
pub enum Common {
    MIDITimeCode(MIDITimeCode),
}

impl Common {
    /// The dispatch table of the Common family: which result classifying a
    /// buffer must produce. An empty buffer holds no status byte to read
    /// and is rejected with a size error at once. Otherwise the MIDI Time
    /// Code status selects its kind, gated by the one-word size check;
    /// every other status byte -- including the Common statuses whose
    /// kinds this family does not cover -- is rejected as a conversion
    /// error carrying that byte.
    pub open spec fn classifies(words: Seq<u32>, r: Result<Common, Error>) -> bool {
        let status = field_bits(words, 8, 8);
        if words.len() == 0 {
            r == Err::<Common, Error>(Error::Size(32, 0))
        } else if status == 0xf1 {
            if words.len() == 1 {
                r matches Ok(Common::MIDITimeCode(m)) && m@ == words
            } else {
                r == Err::<Common, Error>(Error::Size(32, (words.len() * 32) as u64))
            }
        } else {
            r == Err::<Common, Error>(Error::Conversion(status as u8))
        }
    }

    /// Classifies a buffer as a concrete Common message by its Status
    /// byte, as [`Self::classifies`] describes.
    pub fn try_from_packet(words: Vec<u32>) -> (r: Result<Common, Error>)
        requires
            words@.len() * 32 <= u64::MAX,
        ensures
            Common::classifies(words@, r),
    {
        if words.len() == 0 {
            return Err(Error::size(32, 0));
        }
        proof {
            lemma_field_bits_bound(words@, 8, 8);
            lemma2_to64();
        }
        let status = Status::read(&words);
        match status {
            Err(e) => Err(e),
            Ok(Status::MIDITimeCode) => match MIDITimeCode::try_from_packet(words) {
                Ok(m) => Ok(Common::MIDITimeCode(m)),
                Err(e) => Err(e),
            },
            Ok(s) => Err(Error::conversion(s.code())),
        }
    }
}

} // verus!
