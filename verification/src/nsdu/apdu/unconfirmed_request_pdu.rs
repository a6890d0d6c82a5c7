//! The unconfirmed services: requests that expect no acknowledgement, such
//! as the Who-Is and I-Am pair by which devices find each other.

use crate::error::Error;
use crate::nsdu::apdu::tag::{Tag, TagClass, TagForm, TagType};
use crate::nsdu::apdu::APDU;
use crate::nsdu::object_type::ObjectType;
use crate::nsdu::{
    be_bytes, decoded, lemma_parse_unsigned_extends, lemma_parse_unsigned_of_be_bytes,
    parse_enumerated, parse_object_id, parse_unsigned, spec_parse_enumerated,
    spec_parse_object_id, spec_parse_unsigned,
};
use vstd::arithmetic::power::pow;
use vstd::prelude::*;
use vstd::std_specs::convert::TryFromSpecImpl;

verus! {

/// How far a device can split a message over several frames.
#[derive(Debug, Clone, Copy, PartialEq, Eq, Structural)]
pub enum Segmentation {
    Both,
    Transmit,
    Receive,
    NoSegmentation,
    /// One past the last value. It marks the end of the range and stands
    /// for no value on the wire: no decoder returns it.
    Max,
}

impl Segmentation {
    /// The value on the wire that stands for `self`; for `Max`, the first
    /// value that stands for nothing.
    pub open spec fn spec_code(&self) -> u32 {
        match self {
            Segmentation::Both => 0,
            Segmentation::Transmit => 1,
            Segmentation::Receive => 2,
            Segmentation::NoSegmentation => 3,
            Segmentation::Max => 4,
        }
    }

    /// The value on the wire that stands for `self`.
    #[verifier::when_used_as_spec(spec_code)]
    pub fn code(&self) -> (r: u32)
        ensures
            r == self.spec_code(),
    {
        match self {
            Segmentation::Both => 0,
            Segmentation::Transmit => 1,
            Segmentation::Receive => 2,
            Segmentation::NoSegmentation => 3,
            Segmentation::Max => 4,
        }
    }

    /// The segmentation that `value` stands for on the wire. The values 0
    /// to 3 stand for one; every other value is invalid.
    pub open spec fn spec_from_code(value: u32) -> Result<Segmentation, Error> {
        match value {
            0 => Ok(Segmentation::Both),
            1 => Ok(Segmentation::Transmit),
            2 => Ok(Segmentation::Receive),
            3 => Ok(Segmentation::NoSegmentation),
            _ => Err(Error::InvalidValue),
        }
    }

    /// The values 0 to 3, and no others, stand for a segmentation; each
    /// stands for the one whose code it is, and none for `Max`.
    pub proof fn lemma_from_code(value: u32)
        ensures
            Segmentation::spec_from_code(value) is Ok <==> value <= 3,
            Segmentation::spec_from_code(value) matches Ok(segmentation) ==> segmentation
                != Segmentation::Max && segmentation.spec_code() == value,
            Segmentation::spec_from_code(value) matches Err(e) ==> e == Error::InvalidValue,
    {
    }
}

impl TryFrom<u32> for Segmentation {
    type Error = Error;

    /// The segmentation that `value` stands for. The values 0 to 3 stand
    /// for one; every other value is refused with `Error::InvalidValue`.
    fn try_from(value: u32) -> (r: Result<Self, Self::Error>) {
        match value {
            0 => Ok(Segmentation::Both),
            1 => Ok(Segmentation::Transmit),
            2 => Ok(Segmentation::Receive),
            3 => Ok(Segmentation::NoSegmentation),
            _ => Err(Error::InvalidValue),
        }
    }
}

impl TryFromSpecImpl<u32> for Segmentation {
    open spec fn obeys_try_from_spec() -> bool {
        true
    }

    open spec fn try_from_spec(value: u32) -> Result<Self, Self::Error> {
        Segmentation::spec_from_code(value)
    }
}

/// The identifier of an object: its type and its instance number. On the
/// wire it is one 32-bit number, the type's code in the upper 10 bits and
/// the instance in the lower 22.
#[derive(Debug, Clone, Copy, PartialEq, Eq, Structural)]
pub struct ObjectId {
    /// The type of the object.
    pub object_type: ObjectType,
    /// The number of the object among those of its type, up to 4 194 303.
    pub instance: u32,
}

impl ObjectId {
    /// The identifier that the 32-bit number `value` packs.
    pub open spec fn spec_unpack(value: u32) -> ObjectId {
        ObjectId {
            object_type: ObjectType::spec_from_code(((value / 0x40_0000) % 0x400) as u32),
            instance: (value % 0x40_0000) as u32,
        }
    }

    /// The number that packs the identifier.
    pub open spec fn spec_pack(&self) -> int {
        self.object_type.spec_code() * 0x40_0000 + self.instance
    }

    /// The type is well formed and its code fits in 10 bits, and the
    /// instance fits in 22.
    pub open spec fn wf(&self) -> bool {
        &&& self.object_type.wf()
        &&& self.object_type.spec_code() <= 0x3FF
        &&& self.instance <= 0x3F_FFFF
    }

    /// Unpacking loses nothing: the identifier that a number packs is well
    /// formed, and packing it gives the number back.
    pub proof fn lemma_unpack_pack(value: u32)
        ensures
            ObjectId::spec_unpack(value).wf(),
            ObjectId::spec_unpack(value).spec_pack() == value,
    {
        ObjectType::lemma_code_of_from_code(((value / 0x40_0000) % 0x400) as u32);
    }

    /// Packing loses nothing either: a well-formed identifier is the one
    /// that its packed number unpacks to.
    pub proof fn lemma_pack_unpack(id: ObjectId)
        requires
            id.wf(),
        ensures
            0 <= id.spec_pack() <= u32::MAX,
            ObjectId::spec_unpack(id.spec_pack() as u32) == id,
    {
    }
}

/// The length that an application tag of type `expected` at the front of
/// `s` declares, and what follows the tag. A tag that announces another
/// type, or none, is an invalid value.
pub open spec fn spec_expect_tag(s: Seq<u8>, expected: TagType) -> Result<(Seq<u8>, u32), Error> {
    match Tag::spec_parse(s) {
        Err(e) => Err(e),
        Ok((rest, tag)) => if tag.spec_tag_type() == Some(expected) {
            Ok((rest, tag.value))
        } else {
            Err(Error::InvalidValue)
        },
    }
}

/// Decodes a tag and checks that it is an application tag of type `expected`.
fn expect_tag(bytes: &[u8], expected: TagType) -> (r: Result<(&[u8], u32), Error>)
    ensures
        decoded(r) == spec_expect_tag(bytes@, expected),
{
    let (rest, tag) = Tag::parse(bytes)?;
    match tag.tag_type() {
        Some(found) => if found == expected {
            Ok((rest, tag.value))
        } else {
            Err(Error::InvalidValue)
        },
        None => Err(Error::InvalidValue),
    }
}

/// The bytes of a field that holds `value` in `width` bytes: the shortest
/// header of a tag of the given number and class that declares `width`
/// bytes, then `value`, big-endian.
pub open spec fn spec_encode_field(number: u8, class: TagClass, width: u32, value: u32) -> Seq<u8> {
    Tag { number, class, value: width, form: TagForm::Primitive }.spec_encode() + be_bytes(
        value as nat,
        width as nat,
    )
}

/// Decoding undoes encoding, for a field: its bytes, whatever follows them,
/// decode to its tag, then to its value and to what follows.
pub proof fn lemma_parse_field_of_encode(
    number: u8,
    class: TagClass,
    width: u32,
    value: u32,
    rest: Seq<u8>,
)
    requires
        1 <= width <= 4,
        value < pow(256, width as nat),
    ensures
        Tag::spec_parse(spec_encode_field(number, class, width, value) + rest) == Ok::<_, Error>(
            (
                be_bytes(value as nat, width as nat) + rest,
                Tag { number, class, value: width, form: TagForm::Primitive },
            ),
        ),
        spec_parse_unsigned(be_bytes(value as nat, width as nat) + rest, width) == Ok::<_, Error>(
            (rest, value),
        ),
{
    let tag = Tag { number, class, value: width, form: TagForm::Primitive };
    let field = spec_encode_field(number, class, width, value);
    let written = be_bytes(value as nat, width as nat);
    assert(field + rest == tag.spec_encode() + (written + rest)) by {
        assert(field + rest =~= tag.spec_encode() + (written + rest));
    }
    Tag::lemma_parse_of_encode(tag, written + rest);
    lemma_parse_unsigned_of_be_bytes(value, width, rest);
}

/// The range of device instances that a Who-Is asks for.
#[derive(Debug, Clone, Copy, PartialEq, Eq, Structural)]
pub struct WhoIsLimits {
    /// The lowest device instance that is asked for.
    pub low_limit: u32,
    /// The highest device instance that is asked for.
    pub high_limit: u32,
}

impl WhoIsLimits {
    /// The lower limit at the front of `s`, and what follows it: a
    /// context-specific tag of number 0, then an unsigned integer of the
    /// length that the tag declares.
    #[verifier::opaque]
    pub open spec fn spec_low_limit(s: Seq<u8>) -> Result<(Seq<u8>, u32), Error> {
        match Tag::spec_parse(s) {
            Err(e) => Err(e),
            Ok((rest, tag)) => if tag.class == TagClass::ContextSpecific && tag.number == 0 {
                spec_parse_unsigned(rest, tag.value)
            } else {
                Err(Error::InvalidValue)
            },
        }
    }

    /// The upper limit at the front of `s`, and what follows it: a tag,
    /// whatever its class and number, then an unsigned integer of the length
    /// that the tag declares.
    #[verifier::opaque]
    pub open spec fn spec_high_limit(s: Seq<u8>) -> Result<(Seq<u8>, u32), Error> {
        match Tag::spec_parse(s) {
            Err(e) => Err(e),
            Ok((rest, tag)) => spec_parse_unsigned(rest, tag.value),
        }
    }

    /// The limits that the message `s` carries behind its two header bytes:
    /// none where nothing follows the header, else the lower and the upper
    /// limit. What follows the upper limit is not looked at.
    ///
    /// The two limits are opaque, which keeps proofs about whole messages
    /// small: a proof about given bytes reveals `spec_low_limit` and
    /// `spec_high_limit`.
    pub open spec fn spec_parse(s: Seq<u8>) -> Result<Option<WhoIsLimits>, Error> {
        if s.len() < 2 {
            Err(Error::Length)
        } else if s.len() == 2 {
            Ok(None)
        } else {
            match WhoIsLimits::spec_low_limit(s.skip(2)) {
                Err(e) => Err(e),
                Ok((rest, low_limit)) => match WhoIsLimits::spec_high_limit(rest) {
                    Err(e) => Err(e),
                    Ok((_, high_limit)) => Ok(Some(WhoIsLimits { low_limit, high_limit })),
                },
            }
        }
    }

    /// The bytes that carry the limits, the lower one in `low_width` bytes
    /// under the context tag 0 and the upper one in `high_width` bytes
    /// under the context tag 1.
    pub open spec fn spec_encode(&self, low_width: u32, high_width: u32) -> Seq<u8> {
        spec_encode_field(0, TagClass::ContextSpecific, low_width, self.low_limit)
            + spec_encode_field(1, TagClass::ContextSpecific, high_width, self.high_limit)
    }

    /// Decoding undoes encoding, for the lower limit.
    pub proof fn lemma_low_limit_of_encode(width: u32, limit: u32, rest: Seq<u8>)
        requires
            1 <= width <= 4,
            limit < pow(256, width as nat),
        ensures
            WhoIsLimits::spec_low_limit(
                spec_encode_field(0, TagClass::ContextSpecific, width, limit) + rest,
            ) == Ok::<_, Error>((rest, limit)),
    {
        reveal(WhoIsLimits::spec_low_limit);
        lemma_parse_field_of_encode(0, TagClass::ContextSpecific, width, limit, rest);
    }

    /// Decoding undoes encoding, for the upper limit, under whatever tag.
    pub proof fn lemma_high_limit_of_encode(
        number: u8,
        class: TagClass,
        width: u32,
        limit: u32,
        rest: Seq<u8>,
    )
        requires
            1 <= width <= 4,
            limit < pow(256, width as nat),
        ensures
            WhoIsLimits::spec_high_limit(spec_encode_field(number, class, width, limit) + rest)
                == Ok::<_, Error>((rest, limit)),
    {
        reveal(WhoIsLimits::spec_high_limit);
        lemma_parse_field_of_encode(number, class, width, limit, rest);
    }

    /// Decoding undoes encoding: a message of two header bytes and the
    /// bytes that carry the limits, in widths that hold them, carries these
    /// limits, whatever follows.
    pub proof fn lemma_parse_of_encode(
        limits: WhoIsLimits,
        low_width: u32,
        high_width: u32,
        header: Seq<u8>,
        extra: Seq<u8>,
    )
        requires
            header.len() == 2,
            1 <= low_width <= 4,
            1 <= high_width <= 4,
            limits.low_limit < pow(256, low_width as nat),
            limits.high_limit < pow(256, high_width as nat),
        ensures
            WhoIsLimits::spec_parse(header + limits.spec_encode(low_width, high_width) + extra)
                == Ok::<_, Error>(Some(limits)),
    {
        let low = spec_encode_field(0, TagClass::ContextSpecific, low_width, limits.low_limit);
        let high = spec_encode_field(1, TagClass::ContextSpecific, high_width, limits.high_limit);
        let s = header + limits.spec_encode(low_width, high_width) + extra;
        assert(low.len() >= 1);
        assert(s.skip(2) == low + (high + extra)) by {
            assert(s.skip(2) =~= low + (high + extra));
        }
        WhoIsLimits::lemma_low_limit_of_encode(low_width, limits.low_limit, high + extra);
        WhoIsLimits::lemma_high_limit_of_encode(
            1,
            TagClass::ContextSpecific,
            high_width,
            limits.high_limit,
            extra,
        );
    }

    /// The lower limit is read alike with anything appended.
    pub proof fn lemma_low_limit_extends(s: Seq<u8>, extra: Seq<u8>)
        ensures
            WhoIsLimits::spec_low_limit(s) matches Ok((rest, limit))
                ==> WhoIsLimits::spec_low_limit(s + extra) == Ok::<_, Error>(
                (rest + extra, limit),
            ),
    {
        reveal(WhoIsLimits::spec_low_limit);
        if let Ok((rest, tag)) = Tag::spec_parse(s) {
            Tag::lemma_parse_extends(s, extra);
            lemma_parse_unsigned_extends(rest, tag.value, extra);
        }
    }

    /// The upper limit is read alike with anything appended.
    pub proof fn lemma_high_limit_extends(s: Seq<u8>, extra: Seq<u8>)
        ensures
            WhoIsLimits::spec_high_limit(s) matches Ok((rest, limit))
                ==> WhoIsLimits::spec_high_limit(s + extra) == Ok::<_, Error>(
                (rest + extra, limit),
            ),
    {
        reveal(WhoIsLimits::spec_high_limit);
        if let Ok((rest, tag)) = Tag::spec_parse(s) {
            Tag::lemma_parse_extends(s, extra);
            lemma_parse_unsigned_extends(rest, tag.value, extra);
        }
    }

    /// What follows the upper limit is ignored: a message that carries
    /// limits carries the same limits with anything appended.
    pub proof fn lemma_trailing_bytes_ignored(s: Seq<u8>, extra: Seq<u8>)
        ensures
            WhoIsLimits::spec_parse(s) matches Ok(Some(limits)) ==> WhoIsLimits::spec_parse(
                s + extra,
            ) == Ok::<_, Error>(Some(limits)),
    {
        if let Ok(Some(limits)) = WhoIsLimits::spec_parse(s) {
            let payload = s.skip(2);
            assert((s + extra).skip(2) == payload + extra);
            WhoIsLimits::lemma_low_limit_extends(payload, extra);
            let (after_low, _) = WhoIsLimits::spec_low_limit(payload)->Ok_0;
            WhoIsLimits::lemma_high_limit_extends(after_low, extra);
        }
    }

    /// Decodes the lower limit: a context-specific tag of number 0, then
    /// an unsigned integer of the length that the tag declares.
    fn parse_low_limit(bytes: &[u8]) -> (r: Result<(&[u8], u32), Error>)
        ensures
            decoded(r) == WhoIsLimits::spec_low_limit(bytes@),
    {
        proof {
            reveal(WhoIsLimits::spec_low_limit);
        }
        let (bytes, tag) = Tag::parse(bytes)?;
        if tag.class != TagClass::ContextSpecific || tag.number != 0 {
            return Err(Error::InvalidValue);
        }
        parse_unsigned(bytes, tag.value)
    }

    /// Decodes the upper limit: a tag, then an unsigned integer of the
    /// length that the tag declares.
    fn parse_high_limit(bytes: &[u8]) -> (r: Result<(&[u8], u32), Error>)
        ensures
            decoded(r) == WhoIsLimits::spec_high_limit(bytes@),
    {
        proof {
            reveal(WhoIsLimits::spec_high_limit);
        }
        let (bytes, tag) = Tag::parse(bytes)?;
        parse_unsigned(bytes, tag.value)
    }

    /// Decodes the limits of a Who-Is from the whole message, header
    /// included. A message that ends with its header carries no limits; a
    /// longer one carries both.
    pub fn parse(apdu: &APDU) -> (r: Result<Option<Self>, Error>)
        ensures
            r == WhoIsLimits::spec_parse(apdu.bytes@),
    {
        let bytes = apdu.bytes;
        if bytes.len() < 2 {
            return Err(Error::Length);
        }
        if bytes.len() == 2 {
            return Ok(None);
        }
        let (bytes, low_limit) = WhoIsLimits::parse_low_limit(&bytes[2..bytes.len()])?;
        let (_, high_limit) = WhoIsLimits::parse_high_limit(bytes)?;
        Ok(Some(WhoIsLimits { low_limit, high_limit }))
    }
}

/// What a device announces of itself in an I-Am.
#[derive(Debug, Clone, Copy, PartialEq, Eq, Structural)]
pub struct IAmData {
    /// The identifier of the device object.
    pub device_id: ObjectId,
    /// The longest message that the device accepts, in bytes.
    pub max_apdu: usize,
    /// The segmentation that the device supports.
    pub segmentation: Segmentation,
    /// The identifier of the device's vendor.
    pub vendor_id: u16,
}

impl IAmData {
    /// The identifier names a device and is well formed, the longest
    /// message fits in 32 bits, and the segmentation is one of the four
    /// that the wire can carry.
    pub open spec fn wf(&self) -> bool {
        &&& self.device_id.object_type == ObjectType::Device
        &&& self.device_id.wf()
        &&& self.max_apdu <= u32::MAX
        &&& self.segmentation != Segmentation::Max
    }

    /// The device identifier at the front of `s`, and what follows it: an
    /// object-identifier tag, then an identifier whose type is `Device`.
    #[verifier::opaque]
    pub open spec fn spec_device_id(s: Seq<u8>) -> Result<(Seq<u8>, ObjectId), Error> {
        match spec_expect_tag(s, TagType::ObjectId) {
            Err(e) => Err(e),
            Ok((rest, length)) => match spec_parse_object_id(rest, length) {
                Err(e) => Err(e),
                Ok((rest, device_id)) => if device_id.object_type == ObjectType::Device {
                    Ok((rest, device_id))
                } else {
                    Err(Error::InvalidValue)
                },
            },
        }
    }

    /// The unsigned field at the front of `s`, and what follows it: an
    /// unsigned-integer tag, then an integer of the length that it declares.
    #[verifier::opaque]
    pub open spec fn spec_unsigned_field(s: Seq<u8>) -> Result<(Seq<u8>, u32), Error> {
        match spec_expect_tag(s, TagType::UnsignedInt) {
            Err(e) => Err(e),
            Ok((rest, length)) => spec_parse_unsigned(rest, length),
        }
    }

    /// The segmentation at the front of `s`, and what follows it: an
    /// enumerated tag, then one of the values 0 to 3.
    #[verifier::opaque]
    pub open spec fn spec_segmentation(s: Seq<u8>) -> Result<(Seq<u8>, Segmentation), Error> {
        match spec_expect_tag(s, TagType::Enumerated) {
            Err(e) => Err(e),
            Ok((rest, length)) => spec_parse_enumerated::<Segmentation>(rest, length),
        }
    }

    /// What the message `s` announces behind its two header bytes: the
    /// device identifier, the longest accepted message, the segmentation
    /// and the vendor identifier, in this order. The vendor identifier
    /// fits in 16 bits. What follows it is not looked at. A message that
    /// ends with its header is too short.
    ///
    /// The fields are opaque, which keeps proofs about whole messages
    /// small: a proof about given bytes reveals `spec_device_id`,
    /// `spec_unsigned_field` and `spec_segmentation`.
    pub open spec fn spec_parse(s: Seq<u8>) -> Result<IAmData, Error> {
        if s.len() <= 2 {
            Err(Error::Length)
        } else {
            match IAmData::spec_device_id(s.skip(2)) {
                Err(e) => Err(e),
                Ok((rest, device_id)) => match IAmData::spec_unsigned_field(rest) {
                    Err(e) => Err(e),
                    Ok((rest, max_apdu)) => match IAmData::spec_segmentation(rest) {
                        Err(e) => Err(e),
                        Ok((rest, segmentation)) => match IAmData::spec_unsigned_field(rest) {
                            Err(e) => Err(e),
                            Ok((_, vendor_id)) => if vendor_id > u16::MAX {
                                Err(Error::InvalidValue)
                            } else {
                                Ok(
                                    IAmData {
                                        device_id,
                                        max_apdu: max_apdu as usize,
                                        segmentation,
                                        vendor_id: vendor_id as u16,
                                    },
                                )
                            },
                        },
                    },
                },
            }
        }
    }

    /// The bytes that announce `self`: the device identifier in four bytes,
    /// then the longest accepted message, the segmentation and the vendor
    /// identifier in the given widths, each under its application tag.
    pub open spec fn spec_encode(
        &self,
        max_apdu_width: u32,
        segmentation_width: u32,
        vendor_id_width: u32,
    ) -> Seq<u8> {
        spec_encode_field(12, TagClass::Application, 4, self.device_id.spec_pack() as u32)
            + spec_encode_field(2, TagClass::Application, max_apdu_width, self.max_apdu as u32)
            + spec_encode_field(
            9,
            TagClass::Application,
            segmentation_width,
            self.segmentation.spec_code(),
        ) + spec_encode_field(2, TagClass::Application, vendor_id_width, self.vendor_id as u32)
    }

    /// Only a device announces itself: where the first field behind the
    /// header is an object identifier of another type, the message is
    /// refused as an invalid value, whatever follows that field.
    pub proof fn lemma_device_only(s: Seq<u8>)
        requires
            s.len() >= 2,
            spec_expect_tag(s.skip(2), TagType::ObjectId) matches Ok((rest, length))
                && spec_parse_object_id(rest, length) matches Ok((_, id)) && id.object_type
                != ObjectType::Device,
        ensures
            IAmData::spec_parse(s) == Err::<IAmData, Error>(Error::InvalidValue),
            s[1] == 0 ==> UnconfirmedServiceChoice::spec_parse(s) == Err::<
                UnconfirmedServiceChoice,
                Error,
            >(Error::InvalidValue),
    {
        reveal(IAmData::spec_device_id);
        Tag::lemma_encode_of_parse(s.skip(2));
    }

    /// A device identifier that is accepted is well formed and names a
    /// device; a segmentation that is accepted is none but the four that
    /// the wire can carry.
    pub proof fn lemma_fields_wf(s: Seq<u8>)
        ensures
            IAmData::spec_device_id(s) matches Ok((_, id)) ==> id.wf() && id.object_type
                == ObjectType::Device,
            IAmData::spec_segmentation(s) matches Ok((_, segmentation)) ==> segmentation
                != Segmentation::Max,
    {
        reveal(IAmData::spec_device_id);
        reveal(IAmData::spec_segmentation);
        if let Ok((rest, length)) = spec_expect_tag(s, TagType::ObjectId) {
            if let Ok((_, value)) = spec_parse_unsigned(rest, length) {
                ObjectId::lemma_unpack_pack(value);
            }
        }
    }

    /// Every announcement that is accepted is well formed.
    pub proof fn lemma_parse_wf(s: Seq<u8>)
        ensures
            IAmData::spec_parse(s) matches Ok(data) ==> data.wf(),
    {
        if IAmData::spec_parse(s) is Ok {
            let (after_id, _) = IAmData::spec_device_id(s.skip(2))->Ok_0;
            let (after_max, _) = IAmData::spec_unsigned_field(after_id)->Ok_0;
            IAmData::lemma_fields_wf(s.skip(2));
            IAmData::lemma_fields_wf(after_max);
        }
    }

    /// Decoding undoes encoding, for the device identifier.
    pub proof fn lemma_device_id_of_encode(id: ObjectId, rest: Seq<u8>)
        requires
            id.wf(),
            id.object_type == ObjectType::Device,
        ensures
            IAmData::spec_device_id(
                spec_encode_field(12, TagClass::Application, 4, id.spec_pack() as u32) + rest,
            ) == Ok::<_, Error>((rest, id)),
    {
        reveal(IAmData::spec_device_id);
        ObjectId::lemma_pack_unpack(id);
        assert(id.spec_pack() < pow(256, 4)) by {
            reveal_with_fuel(pow, 5);
        }
        lemma_parse_field_of_encode(12, TagClass::Application, 4, id.spec_pack() as u32, rest);
    }

    /// Decoding undoes encoding, for an unsigned field.
    pub proof fn lemma_unsigned_field_of_encode(width: u32, value: u32, rest: Seq<u8>)
        requires
            1 <= width <= 4,
            value < pow(256, width as nat),
        ensures
            IAmData::spec_unsigned_field(
                spec_encode_field(2, TagClass::Application, width, value) + rest,
            ) == Ok::<_, Error>((rest, value)),
    {
        reveal(IAmData::spec_unsigned_field);
        lemma_parse_field_of_encode(2, TagClass::Application, width, value, rest);
    }

    /// Decoding undoes encoding, for the segmentation.
    pub proof fn lemma_segmentation_of_encode(
        width: u32,
        segmentation: Segmentation,
        rest: Seq<u8>,
    )
        requires
            1 <= width <= 4,
            segmentation != Segmentation::Max,
        ensures
            IAmData::spec_segmentation(
                spec_encode_field(9, TagClass::Application, width, segmentation.spec_code())
                    + rest,
            ) == Ok::<_, Error>((rest, segmentation)),
    {
        reveal(IAmData::spec_segmentation);
        assert(segmentation.spec_code() < pow(256, width as nat)) by {
            reveal_with_fuel(pow, 5);
        }
        lemma_parse_field_of_encode(
            9,
            TagClass::Application,
            width,
            segmentation.spec_code(),
            rest,
        );
    }

    /// Decoding undoes encoding: a message of two header bytes and the
    /// bytes that announce a well-formed `data`, in widths that hold its
    /// values, announces `data`, whatever follows.
    pub proof fn lemma_parse_of_encode(
        data: IAmData,
        max_apdu_width: u32,
        segmentation_width: u32,
        vendor_id_width: u32,
        header: Seq<u8>,
        extra: Seq<u8>,
    )
        requires
            data.wf(),
            header.len() == 2,
            1 <= max_apdu_width <= 4,
            1 <= segmentation_width <= 4,
            1 <= vendor_id_width <= 4,
            data.max_apdu < pow(256, max_apdu_width as nat),
            data.vendor_id < pow(256, vendor_id_width as nat),
        ensures
            IAmData::spec_parse(
                header + data.spec_encode(max_apdu_width, segmentation_width, vendor_id_width)
                    + extra,
            ) == Ok::<_, Error>(data),
    {
        let id = spec_encode_field(12, TagClass::Application, 4, data.device_id.spec_pack() as u32);
        let max = spec_encode_field(2, TagClass::Application, max_apdu_width, data.max_apdu as u32);
        let segmentation = spec_encode_field(
            9,
            TagClass::Application,
            segmentation_width,
            data.segmentation.spec_code(),
        );
        let vendor = spec_encode_field(
            2,
            TagClass::Application,
            vendor_id_width,
            data.vendor_id as u32,
        );
        let s = header + data.spec_encode(max_apdu_width, segmentation_width, vendor_id_width)
            + extra;
        assert(id.len() >= 1);
        assert(s.skip(2) == id + (max + (segmentation + (vendor + extra)))) by {
            assert(s.skip(2) =~= id + (max + (segmentation + (vendor + extra))));
        }
        IAmData::lemma_device_id_of_encode(data.device_id, max + (segmentation + (vendor + extra)));
        IAmData::lemma_unsigned_field_of_encode(
            max_apdu_width,
            data.max_apdu as u32,
            segmentation + (vendor + extra),
        );
        IAmData::lemma_segmentation_of_encode(
            segmentation_width,
            data.segmentation,
            vendor + extra,
        );
        IAmData::lemma_unsigned_field_of_encode(vendor_id_width, data.vendor_id as u32, extra);
    }

    /// The device identifier is read alike with anything appended.
    pub proof fn lemma_device_id_extends(s: Seq<u8>, extra: Seq<u8>)
        ensures
            IAmData::spec_device_id(s) matches Ok((rest, id)) ==> IAmData::spec_device_id(
                s + extra,
            ) == Ok::<_, Error>((rest + extra, id)),
    {
        reveal(IAmData::spec_device_id);
        if let Ok((rest, length)) = spec_expect_tag(s, TagType::ObjectId) {
            Tag::lemma_parse_extends(s, extra);
            lemma_parse_unsigned_extends(rest, length, extra);
        }
    }

    /// An unsigned field is read alike with anything appended.
    pub proof fn lemma_unsigned_field_extends(s: Seq<u8>, extra: Seq<u8>)
        ensures
            IAmData::spec_unsigned_field(s) matches Ok((rest, value))
                ==> IAmData::spec_unsigned_field(s + extra) == Ok::<_, Error>(
                (rest + extra, value),
            ),
    {
        reveal(IAmData::spec_unsigned_field);
        if let Ok((rest, length)) = spec_expect_tag(s, TagType::UnsignedInt) {
            Tag::lemma_parse_extends(s, extra);
            lemma_parse_unsigned_extends(rest, length, extra);
        }
    }

    /// The segmentation is read alike with anything appended.
    pub proof fn lemma_segmentation_extends(s: Seq<u8>, extra: Seq<u8>)
        ensures
            IAmData::spec_segmentation(s) matches Ok((rest, segmentation))
                ==> IAmData::spec_segmentation(s + extra) == Ok::<_, Error>(
                (rest + extra, segmentation),
            ),
    {
        reveal(IAmData::spec_segmentation);
        if let Ok((rest, length)) = spec_expect_tag(s, TagType::Enumerated) {
            Tag::lemma_parse_extends(s, extra);
            lemma_parse_unsigned_extends(rest, length, extra);
        }
    }

    /// What follows the vendor identifier is ignored: a message that is
    /// accepted announces the same with anything appended.
    pub proof fn lemma_trailing_bytes_ignored(s: Seq<u8>, extra: Seq<u8>)
        ensures
            IAmData::spec_parse(s) matches Ok(data) ==> IAmData::spec_parse(s + extra) == Ok::<
                _,
                Error,
            >(data),
    {
        if IAmData::spec_parse(s) is Ok {
            let payload = s.skip(2);
            assert((s + extra).skip(2) == payload + extra);
            IAmData::lemma_device_id_extends(payload, extra);
            let (after_id, _) = IAmData::spec_device_id(payload)->Ok_0;
            IAmData::lemma_unsigned_field_extends(after_id, extra);
            let (after_max, _) = IAmData::spec_unsigned_field(after_id)->Ok_0;
            IAmData::lemma_segmentation_extends(after_max, extra);
            let (after_segmentation, _) = IAmData::spec_segmentation(after_max)->Ok_0;
            IAmData::lemma_unsigned_field_extends(after_segmentation, extra);
        }
    }

    /// Decodes the device identifier: an object-identifier tag, then an
    /// identifier whose type must be `Device`.
    fn parse_device_id(bytes: &[u8]) -> (r: Result<(&[u8], ObjectId), Error>)
        ensures
            decoded(r) == IAmData::spec_device_id(bytes@),
    {
        proof {
            reveal(IAmData::spec_device_id);
        }
        let (bytes, length) = expect_tag(bytes, TagType::ObjectId)?;
        let (bytes, device_id) = parse_object_id(bytes, length)?;
        if device_id.object_type != ObjectType::Device {
            return Err(Error::InvalidValue);
        }
        Ok((bytes, device_id))
    }

    /// Decodes an unsigned field: an unsigned-integer tag, then an integer
    /// of the length that it declares.
    fn parse_unsigned_field(bytes: &[u8]) -> (r: Result<(&[u8], u32), Error>)
        ensures
            decoded(r) == IAmData::spec_unsigned_field(bytes@),
    {
        proof {
            reveal(IAmData::spec_unsigned_field);
        }
        let (bytes, length) = expect_tag(bytes, TagType::UnsignedInt)?;
        parse_unsigned(bytes, length)
    }

    /// Decodes the segmentation: an enumerated tag, then one of the
    /// values 0 to 3.
    fn parse_segmentation(bytes: &[u8]) -> (r: Result<(&[u8], Segmentation), Error>)
        ensures
            decoded(r) == IAmData::spec_segmentation(bytes@),
    {
        proof {
            reveal(IAmData::spec_segmentation);
        }
        let (bytes, length) = expect_tag(bytes, TagType::Enumerated)?;
        parse_enumerated::<Segmentation>(bytes, length)
    }

    /// Decodes the payload of an I-Am from the whole message, header
    /// included: the device identifier, the longest accepted message, the
    /// segmentation and the vendor identifier.
    pub fn parse(apdu: &APDU) -> (r: Result<Self, Error>)
        ensures
            r == IAmData::spec_parse(apdu.bytes@),
            r matches Ok(data) ==> data.wf(),
    {
        proof {
            IAmData::lemma_parse_wf(apdu.bytes@);
        }
        let bytes = apdu.bytes;
        if bytes.len() <= 2 {
            return Err(Error::Length);
        }
        let (bytes, device_id) = IAmData::parse_device_id(&bytes[2..bytes.len()])?;
        let (bytes, max_apdu) = IAmData::parse_unsigned_field(bytes)?;
        let (bytes, segmentation) = IAmData::parse_segmentation(bytes)?;
        let (_, vendor_id) = IAmData::parse_unsigned_field(bytes)?;
        if vendor_id > u16::MAX as u32 {
            return Err(Error::InvalidValue);
        }
        Ok(
            IAmData {
                device_id,
                max_apdu: max_apdu as usize,
                segmentation,
                vendor_id: vendor_id as u16,
            },
        )
    }
}

/// A decoded unconfirmed request.
#[derive(Debug, Clone, Copy, PartialEq, Eq, Structural)]
pub enum UnconfirmedServiceChoice {
    /// A device announces itself.
    IAm(IAmData),
    /// A device announces an object that it holds.
    IHave,
    /// Which device holds a given object?
    WhoHas,
    /// Which devices are there, among all or within the given limits?
    WhoIs(Option<WhoIsLimits>),
    /// A service that has no name here, with its service choice.
    Unknown(u8),
}

impl UnconfirmedServiceChoice {
    /// The request that the message `s` holds. Its second byte chooses the
    /// service: 0 an I-Am, 1 an I-Have, 7 a Who-Has, 8 a Who-Is; any other
    /// value is kept as it is.
    pub open spec fn spec_parse(s: Seq<u8>) -> Result<UnconfirmedServiceChoice, Error> {
        if s.len() < 2 {
            Err(Error::Length)
        } else {
            match s[1] {
                0x00 => match IAmData::spec_parse(s) {
                    Ok(data) => Ok(UnconfirmedServiceChoice::IAm(data)),
                    Err(e) => Err(e),
                },
                0x01 => Ok(UnconfirmedServiceChoice::IHave),
                0x07 => Ok(UnconfirmedServiceChoice::WhoHas),
                0x08 => match WhoIsLimits::spec_parse(s) {
                    Ok(limits) => Ok(UnconfirmedServiceChoice::WhoIs(limits)),
                    Err(e) => Err(e),
                },
                choice => Ok(UnconfirmedServiceChoice::Unknown(choice)),
            }
        }
    }

    /// What follows a request is ignored: a message that holds a request
    /// holds the same request with anything appended. The one exception is
    /// a Who-Is without limits, which ends with its header: what is
    /// appended to it is read as its limits.
    pub proof fn lemma_trailing_bytes_ignored(s: Seq<u8>, extra: Seq<u8>)
        ensures
            UnconfirmedServiceChoice::spec_parse(s) matches Ok(request) ==> request
                == UnconfirmedServiceChoice::WhoIs(None) || UnconfirmedServiceChoice::spec_parse(
                s + extra,
            ) == Ok::<_, Error>(request),
    {
        if s.len() >= 2 {
            let longer = s + extra;
            assert(longer.len() >= 2 && longer[1] == s[1]);
            if s[1] == 0x00 {
                IAmData::lemma_trailing_bytes_ignored(s, extra);
            } else if s[1] == 0x08 {
                WhoIsLimits::lemma_trailing_bytes_ignored(s, extra);
            }
        }
    }

    /// Decodes the request that a message holds. A message of fewer than
    /// two bytes is refused with `Error::Length`; a service without a name
    /// here is no error.
    pub fn parse(apdu: &APDU) -> (r: Result<Self, Error>)
        ensures
            r == UnconfirmedServiceChoice::spec_parse(apdu.bytes@),
    {
        let bytes = apdu.bytes;
        if bytes.len() < 2 {
            return Err(Error::Length);
        }
        Ok(
            match bytes[1] {
                0x00 => UnconfirmedServiceChoice::IAm(IAmData::parse(apdu)?),
                0x01 => UnconfirmedServiceChoice::IHave,
                0x07 => UnconfirmedServiceChoice::WhoHas,
                0x08 => UnconfirmedServiceChoice::WhoIs(WhoIsLimits::parse(apdu)?),
                choice => UnconfirmedServiceChoice::Unknown(choice),
            },
        )
    }
}

} // verus!
