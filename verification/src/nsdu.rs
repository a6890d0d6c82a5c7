//! Primitive value decoders: unsigned integers, enumerated values and object
//! identifiers, each read from the front of a byte slice.

pub mod apdu;
pub mod object_type;

use crate::error::Error;
use crate::nsdu::apdu::unconfirmed_request_pdu::ObjectId;
use crate::nsdu::object_type::ObjectType;
use vstd::arithmetic::power::pow;
use vstd::prelude::*;
use vstd::std_specs::convert::TryFromSpec;

verus! {

/// The largest instance number: 22 bits, all set.
pub const BACNET_MAX_INSTANCE: u32 = 0x3F_FFFF;

/// The number of bits that the instance takes in a packed object identifier.
pub const BACNET_INSTANCE_BITS: u32 = 22;

/// The largest code of an object type: 10 bits, all set.
pub const BACNET_MAX_OBJECT: u32 = 0x3FF;

/// The number that a byte string denotes when read as big-endian base 256.
pub open spec fn be_value(s: Seq<u8>) -> nat
    decreases s.len(),
{
    if s.len() == 0 {
        0
    } else {
        be_value(s.drop_last()) * 256 + s.last() as nat
    }
}

/// What a decoder hands back, with the remaining slice taken by its view.
pub open spec fn decoded<T>(r: Result<(&[u8], T), Error>) -> Result<(Seq<u8>, T), Error> {
    match r {
        Ok((rest, value)) => Ok((rest@, value)),
        Err(e) => Err(e),
    }
}

/// The number that the first `sz` bytes of `s` denote when read as
/// big-endian base 256, written out for the widths from 1 to 4.
pub open spec fn be_prefix_value(s: Seq<u8>, sz: u32) -> int
    recommends
        1 <= sz <= 4,
        sz <= s.len(),
{
    if sz == 1 {
        s[0] as int
    } else if sz == 2 {
        s[0] * 0x100 + s[1]
    } else if sz == 3 {
        s[0] * 0x1_0000 + s[1] * 0x100 + s[2]
    } else {
        s[0] * 0x100_0000 + s[1] * 0x1_0000 + s[2] * 0x100 + s[3]
    }
}

/// The unsigned integer of `sz` bytes at the front of `s`, and what follows it.
pub open spec fn spec_parse_unsigned(s: Seq<u8>, sz: u32) -> Result<(Seq<u8>, u32), Error> {
    if sz == 0 || sz > 4 {
        Err(Error::InvalidValue)
    } else if s.len() < sz {
        Err(Error::Length)
    } else {
        Ok((s.skip(sz as int), be_prefix_value(s, sz) as u32))
    }
}

/// The `n` bytes that denote `v`, or the lower `n` bytes of `v` where it
/// takes more, when written as big-endian base 256.
pub open spec fn be_bytes(v: nat, n: nat) -> Seq<u8>
    decreases n,
{
    if n == 0 {
        Seq::<u8>::empty()
    } else {
        be_bytes(v / 256, (n - 1) as nat).push((v % 256) as u8)
    }
}

/// A byte string of `n` bytes denotes a number below 256 to the `n`.
pub proof fn lemma_be_value_bound(s: Seq<u8>)
    ensures
        be_value(s) < pow(256, s.len()),
    decreases s.len(),
{
    reveal(pow);
    if s.len() > 0 {
        lemma_be_value_bound(s.drop_last());
    }
}

/// What is written out for the widths from 1 to 4 is the number that the
/// bytes denote, and it fits in 32 bits.
pub proof fn lemma_be_prefix_value(s: Seq<u8>, sz: u32)
    requires
        1 <= sz <= 4,
        sz <= s.len(),
    ensures
        be_prefix_value(s, sz) == be_value(s.take(sz as int)),
        0 <= be_prefix_value(s, sz) <= u32::MAX,
{
    let front = s.take(sz as int);
    reveal_with_fuel(be_value, 5);
    if sz >= 2 {
        assert(front.drop_last() == s.take(sz - 1));
    }
    if sz >= 3 {
        assert(s.take(sz - 1).drop_last() == s.take(sz - 2));
    }
    if sz >= 4 {
        assert(s.take(sz - 2).drop_last() == s.take(sz - 3));
    }
}

/// Writing a number takes as many bytes as were asked for.
pub proof fn lemma_be_bytes_len(v: nat, n: nat)
    ensures
        be_bytes(v, n).len() == n,
    decreases n,
{
    if n > 0 {
        lemma_be_bytes_len(v / 256, (n - 1) as nat);
    }
}

/// Reading what was written gives the number back, where the number fits
/// in the bytes that it was written to.
pub proof fn lemma_be_value_of_be_bytes(v: nat, n: nat)
    requires
        v < pow(256, n),
    ensures
        be_value(be_bytes(v, n)) == v,
    decreases n,
{
    reveal(pow);
    if n > 0 {
        let front = be_bytes(v / 256, (n - 1) as nat);
        lemma_be_value_of_be_bytes(v / 256, (n - 1) as nat);
        assert(be_bytes(v, n).drop_last() == front);
    }
}

/// Writing what was read gives the bytes back.
pub proof fn lemma_be_bytes_of_be_value(s: Seq<u8>)
    ensures
        be_bytes(be_value(s), s.len()) == s,
    decreases s.len(),
{
    if s.len() > 0 {
        lemma_be_bytes_of_be_value(s.drop_last());
        assert(s.drop_last().push(s.last()) == s);
    }
}

/// Decodes a big-endian unsigned integer of `sz` bytes, `1 <= sz <= 4`,
/// and returns it with the bytes that follow it. Any other `sz` is refused
/// with `Error::InvalidValue`, and a buffer of fewer than `sz` bytes with
/// `Error::Length`.
pub fn parse_unsigned(bytes: &[u8], sz: u32) -> (r: Result<(&[u8], u32), Error>)
    ensures
        decoded(r) == spec_parse_unsigned(bytes@, sz),
{
    if sz > 4 || sz == 0 {
        return Err(Error::InvalidValue);
    }
    let width: usize = sz as usize;
    if bytes.len() < width {
        return Err(Error::Length);
    }
    let mut val: u32 = 0;
    let mut i: usize = 0;
    while i < width
        invariant
            i <= width <= 4,
            width <= bytes.len(),
            i == 0 ==> val == 0,
            i > 0 ==> val == be_prefix_value(bytes@, i as u32),
        decreases width - i,
    {
        val = val * 256 + bytes[i] as u32;
        i += 1;
    }
    Ok((&bytes[width..bytes.len()], val))
}

/// Decoding undoes encoding: where `value` is written big-endian in `sz`
/// bytes that can hold it, `1 <= sz <= 4`, and anything follows, the
/// decoder gives `value` and what follows.
pub proof fn lemma_parse_unsigned_of_be_bytes(value: u32, sz: u32, rest: Seq<u8>)
    requires
        1 <= sz <= 4,
        value < pow(256, sz as nat),
    ensures
        spec_parse_unsigned(be_bytes(value as nat, sz as nat) + rest, sz) == Ok::<_, Error>(
            (rest, value),
        ),
{
    let written = be_bytes(value as nat, sz as nat);
    lemma_be_bytes_len(value as nat, sz as nat);
    lemma_be_value_of_be_bytes(value as nat, sz as nat);
    lemma_be_prefix_value(written + rest, sz);
    assert((written + rest).take(sz as int) == written);
    assert((written + rest).skip(sz as int) == rest);
}

/// Encoding undoes decoding: where the decoder accepts `s`, the bytes that
/// it has read are those that denote the number, and the bytes that it
/// hands back are all the others. It accepts `s` where the width is from 1
/// to 4 and `s` has as many bytes; it refuses any other width as an invalid
/// value, and a shorter `s` for its length.
pub proof fn lemma_parse_unsigned_reads_be_bytes(s: Seq<u8>, sz: u32)
    ensures
        spec_parse_unsigned(s, sz) matches Ok((rest, value)) ==> {
            &&& be_bytes(value as nat, sz as nat) + rest == s
            &&& rest.len() + sz == s.len()
        },
        spec_parse_unsigned(s, sz) is Ok <==> 1 <= sz <= 4 && sz <= s.len(),
        spec_parse_unsigned(s, sz) == Err::<(Seq<u8>, u32), Error>(Error::InvalidValue) <==> sz == 0
            || sz > 4,
        spec_parse_unsigned(s, sz) == Err::<(Seq<u8>, u32), Error>(Error::Length) <==> 1 <= sz <= 4
            && s.len() < sz,
{
    if spec_parse_unsigned(s, sz) is Ok {
        let front = s.take(sz as int);
        lemma_be_prefix_value(s, sz);
        lemma_be_bytes_of_be_value(front);
        assert(front + s.skip(sz as int) == s);
    }
}

/// The decoder looks at no byte behind the integer: where it accepts `s`,
/// it accepts `s` with anything appended, gives the same number, and hands
/// back what was appended behind what it handed back before.
pub proof fn lemma_parse_unsigned_extends(s: Seq<u8>, sz: u32, extra: Seq<u8>)
    ensures
        spec_parse_unsigned(s, sz) matches Ok((rest, value)) ==> spec_parse_unsigned(
            s + extra,
            sz,
        ) == Ok::<_, Error>((rest + extra, value)),
{
    if spec_parse_unsigned(s, sz) is Ok {
        assert((s + extra).skip(sz as int) == s.skip(sz as int) + extra);
    }
}

/// The enumerated value of `sz` bytes at the front of `s`, and what follows
/// it: the unsigned integer there, converted. A value that has no
/// counterpart in `T` is an invalid value.
pub open spec fn spec_parse_enumerated<T: TryFrom<u32>>(s: Seq<u8>, sz: u32) -> Result<
    (Seq<u8>, T),
    Error,
> {
    match spec_parse_unsigned(s, sz) {
        Err(e) => Err(e),
        Ok((rest, value)) => match T::try_from_spec(value) {
            Ok(item) => Ok((rest, item)),
            Err(_) => Err(Error::InvalidValue),
        },
    }
}

/// Decodes an unsigned integer of `sz` bytes and converts it into `T`.
///
/// Where the integer cannot be decoded, the error is that of
/// [`parse_unsigned`]. Where the conversion refuses the integer, the error
/// is `Error::InvalidValue`, whatever error the conversion gave. The result
/// is that of [`spec_parse_enumerated`] for every `T` whose `try_from`
/// returns what its `try_from_spec` says.
pub fn parse_enumerated<T: TryFrom<u32>>(bytes: &[u8], sz: u32) -> (r: Result<(&[u8], T), Error>)
    ensures
        T::obeys_try_from_spec() ==> decoded(r) == spec_parse_enumerated::<T>(bytes@, sz),
        spec_parse_unsigned(bytes@, sz) matches Err(e) ==> r == Err::<(&[u8], T), Error>(e),
        spec_parse_unsigned(bytes@, sz) matches Ok((rest, _)) ==> match r {
            Ok((after, _)) => after@ == rest,
            Err(e) => e == Error::InvalidValue,
        },
{
    match parse_unsigned(bytes, sz) {
        Err(e) => Err(e),
        Ok((rest, value)) => match T::try_from(value) {
            Ok(item) => Ok((rest, item)),
            Err(_) => Err(Error::InvalidValue),
        },
    }
}

/// The object identifier of `sz` bytes at the front of `s`, and what
/// follows it: the unsigned integer there, unpacked.
pub open spec fn spec_parse_object_id(s: Seq<u8>, sz: u32) -> Result<(Seq<u8>, ObjectId), Error> {
    match spec_parse_unsigned(s, sz) {
        Err(e) => Err(e),
        Ok((rest, value)) => Ok((rest, ObjectId::spec_unpack(value))),
    }
}

/// Decodes an unsigned integer of `sz` bytes and unpacks it into an object
/// identifier. A type code without a name is kept as it is, so the only
/// errors are those of [`parse_unsigned`].
pub fn parse_object_id(bytes: &[u8], sz: u32) -> (r: Result<(&[u8], ObjectId), Error>)
    ensures
        decoded(r) == spec_parse_object_id(bytes@, sz),
        r matches Ok((_, id)) ==> id.wf(),
{
    match parse_unsigned(bytes, sz) {
        Err(e) => Err(e),
        Ok((rest, value)) => {
            let code: u32 = (value >> BACNET_INSTANCE_BITS) & BACNET_MAX_OBJECT;
            let instance: u32 = value & BACNET_MAX_INSTANCE;
            proof {
                ObjectId::lemma_unpack_pack(value);
                assert((value >> 22) & 0x3FF == (value / 0x40_0000) % 0x400) by (bit_vector);
                assert(value & 0x3F_FFFF == value % 0x40_0000) by (bit_vector);
            }
            Ok((rest, ObjectId { object_type: ObjectType::from(code), instance }))
        },
    }
}

} // verus!
