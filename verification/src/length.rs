//! The length octets of a value: definite form, no longer than needed.

use crate::reader::Reader;
use crate::types::unsigned_value;
use crate::types::ASNError;
use crate::types::ErrorModel;
use vstd::prelude::*;

verus! {

/// What the length octets at the start of `s` decode to: the length and the
/// count of octets that hold it, or the reason why they are refused.
///
/// A first octet below 128 is the length itself. Otherwise its low seven bits
/// count the octets that follow and hold the length, most significant first:
/// a count of 0 (indefinite form), of 127 (reserved) or above 4 is refused, and
/// so is a length below 128, which the short form would hold.
pub open spec fn decode_length(s: Seq<u8>) -> Result<(nat, nat), ErrorModel> {
    if s.len() == 0 {
        Err(ErrorModel::EndOfStream)
    } else if s[0] < 128 {
        Ok((s[0] as nat, 1))
    } else {
        let count = s[0] - 128;
        if count == 0 {
            Err(ErrorModel::UnsupportedIndefiniteLength)
        } else if count == 127 {
            Err(ErrorModel::ReservedLengthValue)
        } else if count > 4 {
            Err(ErrorModel::UnsupportedLengthByteCount(count as u8))
        } else if s.len() < 1 + count {
            Err(ErrorModel::EndOfStream)
        } else {
            let value = unsigned_value(s.subrange(1, 1 + count));
            if value < 128 {
                Err(ErrorModel::BadLengthEncoding(count as u8, value as usize))
            } else {
                Ok((value as nat, (1 + count) as nat))
            }
        }
    }
}

/// True when `tail` is what is left of `whole` after some of its first bytes.
pub open spec fn is_tail_of(tail: Seq<u8>, whole: Seq<u8>) -> bool {
    exists|k: int| 0 <= k <= whole.len() && tail == #[trigger] whole.skip(k)
}

/// The fewest bytes that hold `value`, most significant first (none for zero).
pub open spec fn minimal_bytes(value: nat) -> Seq<u8>
    decreases value,
{
    if value == 0 {
        Seq::empty()
    } else {
        minimal_bytes(value / 256).push((value % 256) as u8)
    }
}

/// The one encoding of a length that the rules of DER allow.
pub open spec fn encode_length(value: nat) -> Seq<u8>
    recommends
        value < 0x1_0000_0000,
{
    if value < 128 {
        seq![value as u8]
    } else {
        seq![(128 + minimal_bytes(value).len()) as u8] + minimal_bytes(value)
    }
}

/// An unsigned value of `n` bytes is below 256 to the `n`.
pub proof fn lemma_unsigned_value_bound(bytes: Seq<u8>)
    ensures
        0 <= unsigned_value(bytes) < crate::types::pow256(bytes.len()),
    decreases bytes.len(),
{
    if bytes.len() > 0 {
        lemma_unsigned_value_bound(bytes.drop_last());
    }
}

/// `minimal_bytes` holds its value, in as many bytes as the value needs, and
/// does not start with a zero byte.
pub proof fn lemma_minimal_bytes(value: nat)
    ensures
        unsigned_value(minimal_bytes(value)) == value,
        value > 0 ==> minimal_bytes(value).len() > 0 && minimal_bytes(value)[0] != 0,
        value < 256 ==> minimal_bytes(value).len() <= 1,
        value < 0x1_0000 ==> minimal_bytes(value).len() <= 2,
        value < 0x100_0000 ==> minimal_bytes(value).len() <= 3,
        value < 0x1_0000_0000 ==> minimal_bytes(value).len() <= 4,
    decreases value,
{
    if value > 0 {
        let high = value / 256;
        lemma_minimal_bytes(high);
        let bytes = minimal_bytes(value);
        assert(bytes.drop_last() =~= minimal_bytes(high));
        if high > 0 {
            assert(bytes[0] == minimal_bytes(high)[0]);
        }
    }
}

/// Bytes that do not start with a zero byte are the minimal bytes of their value.
pub proof fn lemma_minimal_bytes_unique(bytes: Seq<u8>)
    requires
        bytes.len() > 0 ==> bytes[0] != 0,
    ensures
        minimal_bytes(unsigned_value(bytes) as nat) == bytes,
    decreases bytes.len(),
{
    if bytes.len() > 0 {
        let front = bytes.drop_last();
        lemma_unsigned_value_bound(front);
        let value = unsigned_value(bytes) as nat;
        assert(value == unsigned_value(front) * 256 + bytes.last());
        if front.len() > 0 {
            lemma_minimal_bytes_unique(front);
        } else {
            assert(minimal_bytes(value / 256) =~= Seq::<u8>::empty());
        }
        assert(minimal_bytes(value) =~= bytes);
    } else {
        assert(minimal_bytes(0) =~= bytes);
    }
}

/// Decoding undoes encoding: the encoding of any length below 2^32, followed
/// by anything, decodes to that length and to the count of octets that encode it.
pub proof fn lemma_decode_encode(value: nat, rest: Seq<u8>)
    requires
        value < 0x1_0000_0000,
    ensures
        decode_length(encode_length(value) + rest) == Ok::<(nat, nat), ErrorModel>(
            (value, encode_length(value).len()),
        ),
{
    let s = encode_length(value) + rest;
    if value >= 128 {
        lemma_minimal_bytes(value);
        let body = minimal_bytes(value);
        assert(s[0] == 128 + body.len());
        assert(s.subrange(1, 1 + body.len() as int) =~= body);
    }
}

/// Only the shortest encoding decodes: when `s` starts with length octets that
/// are accepted, and the octets of a long form do not start with a zero octet,
/// then those octets are exactly the encoding of the length.
pub proof fn lemma_decode_is_minimal(s: Seq<u8>)
    requires
        decode_length(s) is Ok,
        s[0] >= 128 ==> s[1] != 0,
    ensures
        s.take(decode_length(s)->Ok_0.1 as int) == encode_length(decode_length(s)->Ok_0.0),
{
    let (value, consumed) = decode_length(s)->Ok_0;
    if s[0] < 128 {
        assert(s.take(1) =~= seq![s[0]]);
    } else {
        let body = s.subrange(1, consumed as int);
        lemma_minimal_bytes_unique(body);
        assert(s.take(consumed as int) =~= seq![s[0]] + body);
    }
}

/// A long form is never accepted for a length that the short form holds.
pub proof fn lemma_long_form_is_needed(s: Seq<u8>)
    requires
        decode_length(s) is Ok,
    ensures
        decode_length(s)->Ok_0.1 > 1 <==> decode_length(s)->Ok_0.0 >= 128,
        decode_length(s)->Ok_0.0 < 0x1_0000_0000,
{
    if s[0] >= 128 {
        let count = s[0] - 128;
        lemma_unsigned_value_bound(s.subrange(1, 1 + count));
        reveal_with_fuel(crate::types::pow256, 5);
    }
}

/// Reads the length octets at the reader's position.
pub fn parse_length(reader: &mut Reader) -> (r: Result<usize, ASNError>)
    ensures
        match decode_length(old(reader)@) {
            Ok((value, consumed)) => r == Ok::<usize, ASNError>(value as usize) && value
                <= usize::MAX && final(reader)@ == old(reader)@.skip(consumed as int),
            Err(e) => r is Err && r->Err_0@ == e && is_tail_of(final(reader)@, old(reader)@),
        },
{
    let ghost start = reader@;
    assert(start.skip(0) =~= start);
    let first = match reader.read_byte() {
        Ok(b) => b,
        Err(_) => {
            return Err(ASNError::EndOfStream);
        },
    };
    if first < 128 {
        return Ok(first as usize);
    }
    let count: u8 = first - 128;
    if count == 0 {
        return Err(ASNError::UnsupportedIndefiniteLength);
    }
    if count == 127 {
        return Err(ASNError::ReservedLengthValue);
    }
    if count > 4 {
        return Err(ASNError::UnsupportedLengthByteCount(count));
    }
    let mut value: usize = 0;
    let mut i: u8 = 0;
    while i < count
        invariant
            i <= count <= 4,
            start.len() >= 1 + i,
            reader@ == start.skip(1 + i),
            value == unsigned_value(start.subrange(1, 1 + i)),
            value < crate::types::pow256(i as nat),
            start.len() >= 1,
            start[0] == 128 + count,
            start == old(reader)@,
        decreases count - i,
    {
        let b = match reader.read_byte() {
            Ok(b) => b,
            Err(_) => {
                return Err(ASNError::EndOfStream);
            },
        };
        proof {
            reveal_with_fuel(crate::types::pow256, 5);
            assert(start.subrange(1, 2 + i).drop_last() =~= start.subrange(1, 1 + i));
            assert(start.skip(1 + i).skip(1) =~= start.skip(2 + i));
        }
        value = value * 256 + b as usize;
        i = i + 1;
    }
    if value < 128 {
        return Err(ASNError::BadLengthEncoding(count, value));
    }
    Ok(value)
}

} // verus!
