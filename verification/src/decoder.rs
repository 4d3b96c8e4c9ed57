//! Decoding of a single value: identifier, length and contents.

use crate::calendar::try_parse_all_variants;
use crate::calendar::utc_timestamp;
use crate::length::decode_length;
use crate::length::is_tail_of;
use crate::length::parse_length;
use crate::oid::decode_arc;
use crate::oid::decode_arc_from;
use crate::oid::decode_arcs;
use crate::oid::decode_oid;
use crate::oid::lemma_decode_arc_from;
use crate::oid::pow128;
use crate::reader::Reader;
use crate::types::identifier_of;
use crate::types::ASNBitString;
use crate::types::ASNError;
use crate::types::ASNExplicitTag;
use crate::types::ASNInteger;
use crate::types::ASNObjectIdentifier;
use crate::types::ASNSet;
use crate::types::ASNType;
use crate::types::ASNTypeId;
use crate::types::BitString;
use crate::types::BitStringModel;
use crate::types::Boolean;
use crate::types::ErrorModel;
use crate::types::ExplicitTag;
use crate::types::ExplicitTagModel;
use crate::types::IA5String;
use crate::types::Identifier;
use crate::types::Integer;
use crate::types::ObjectIdentifier;
use crate::types::OctetString;
use crate::types::PrintableString;
use crate::types::Sequence;
use crate::types::TagClass;
use crate::types::TypeModel;
use crate::types::UTF8String;
use crate::types::UtcTime;
use crate::types::PC;
use crate::utf8::str_of_bytes;
use crate::utf8::text_of;
use vstd::prelude::*;
use vstd::slice::slice_subrange;
use vstd::utf8::valid_utf8;

verus! {

/// The kind of value that an identifier stands for, if any. A tag number of
/// 31 would announce a tag of several octets, and stands for none.
pub open spec fn kind_of(id: Identifier) -> Option<ASNTypeId> {
    if id.tag == 31 {
        None
    } else if id.class == TagClass::Universal && id.pc == PC::Primitive {
        if id.tag == 1 {
            Some(ASNTypeId::Boolean)
        } else if id.tag == 2 {
            Some(ASNTypeId::Integer)
        } else if id.tag == 3 {
            Some(ASNTypeId::BitString)
        } else if id.tag == 4 {
            Some(ASNTypeId::OctetString)
        } else if id.tag == 5 {
            Some(ASNTypeId::Null)
        } else if id.tag == 6 {
            Some(ASNTypeId::ObjectIdentifier)
        } else if id.tag == 12 {
            Some(ASNTypeId::UTF8String)
        } else if id.tag == 19 {
            Some(ASNTypeId::PrintableString)
        } else if id.tag == 22 {
            Some(ASNTypeId::IA5String)
        } else if id.tag == 23 {
            Some(ASNTypeId::UTCTime)
        } else {
            None
        }
    } else if id.class == TagClass::Universal && id.pc == PC::Constructed {
        if id.tag == 16 {
            Some(ASNTypeId::Sequence)
        } else if id.tag == 17 {
            Some(ASNTypeId::ASNSet)
        } else {
            None
        }
    } else if id.class == TagClass::ContextSpecific && id.pc == PC::Constructed {
        Some(ASNTypeId::ExplicitTag)
    } else {
        None
    }
}

/// The kind of value that an identifier stands for, if any.
pub fn read_type(id: &Identifier) -> (r: Option<ASNTypeId>)
    ensures
        r == kind_of(*id),
{
    if id.tag == 31 {
        return None;
    }
    match (id.class, id.pc) {
        (TagClass::Universal, PC::Primitive) => match id.tag {
            0x01 => Some(ASNTypeId::Boolean),
            0x02 => Some(ASNTypeId::Integer),
            0x03 => Some(ASNTypeId::BitString),
            0x04 => Some(ASNTypeId::OctetString),
            0x05 => Some(ASNTypeId::Null),
            0x06 => Some(ASNTypeId::ObjectIdentifier),
            0x0C => Some(ASNTypeId::UTF8String),
            0x13 => Some(ASNTypeId::PrintableString),
            0x16 => Some(ASNTypeId::IA5String),
            0x17 => Some(ASNTypeId::UTCTime),
            _ => None,
        },
        (TagClass::Universal, PC::Constructed) => match id.tag {
            0x10 => Some(ASNTypeId::Sequence),
            0x11 => Some(ASNTypeId::ASNSet),
            _ => None,
        },
        (TagClass::ContextSpecific, PC::Constructed) => Some(ASNTypeId::ExplicitTag),
        _ => None,
    }
}

/// The BOOLEAN with contents `contents`: one octet, `0xFF` for true and `0x00` for false.
pub open spec fn decode_boolean(contents: Seq<u8>) -> Result<TypeModel, ErrorModel> {
    if contents.len() != 1 {
        Err(ErrorModel::BadBooleanLength(contents.len() as usize))
    } else if contents[0] == 0xFF {
        Ok(TypeModel::Boolean(true))
    } else if contents[0] == 0x00 {
        Ok(TypeModel::Boolean(false))
    } else {
        Err(ErrorModel::BadBooleanValue(contents[0]))
    }
}

/// The BIT STRING with contents `contents`: a count of unused bits, at most
/// seven, and the octets behind it.
pub open spec fn decode_bit_string(contents: Seq<u8>) -> Result<TypeModel, ErrorModel> {
    if contents.len() == 0 {
        Err(ErrorModel::EndOfStream)
    } else if contents[0] > 7 {
        Err(ErrorModel::BitStringUnusedBitsTooLarge(contents[0]))
    } else {
        Ok(TypeModel::BitString(BitStringModel { unused_bits: contents[0], bytes: contents.skip(1) }))
    }
}

/// The text of a string value with contents `contents`.
pub open spec fn decode_text(contents: Seq<u8>) -> Result<Seq<char>, ErrorModel> {
    if valid_utf8(contents) {
        Ok(text_of(contents))
    } else {
        Err(ErrorModel::BadUTF8)
    }
}

/// The UTCTime that a reading of its text stands for.
pub open spec fn utc_time_of(timestamp: Option<i64>) -> Result<TypeModel, ErrorModel> {
    match timestamp {
        Some(t) => Ok(TypeModel::UTCTime(t)),
        None => Err(ErrorModel::BadUTCTime),
    }
}

/// The UTCTime with contents `contents`.
pub open spec fn decode_utc_time(contents: Seq<u8>) -> Result<TypeModel, ErrorModel> {
    match decode_text(contents) {
        Err(e) => Err(e),
        Ok(text) => utc_time_of(utc_timestamp(text)),
    }
}

/// The value of kind `kind` with contents `contents`; `tag` is the tag number
/// of its identifier.
pub open spec fn decode_contents(kind: ASNTypeId, tag: u8, contents: Seq<u8>) -> Result<
    TypeModel,
    ErrorModel,
> {
    match kind {
        ASNTypeId::Boolean => decode_boolean(contents),
        ASNTypeId::Integer => if contents.len() == 0 {
            Err(ErrorModel::ZeroLengthInteger)
        } else {
            Ok(TypeModel::Integer(contents))
        },
        ASNTypeId::BitString => decode_bit_string(contents),
        ASNTypeId::OctetString => Ok(TypeModel::OctetString(contents)),
        ASNTypeId::Null => if contents.len() == 0 {
            Ok(TypeModel::Null)
        } else {
            Err(ErrorModel::NullWithNonEmptyContents(contents.len() as usize))
        },
        ASNTypeId::ObjectIdentifier => match decode_oid(contents) {
            Ok(arcs) => Ok(TypeModel::ObjectIdentifier(arcs)),
            Err(e) => Err(e),
        },
        ASNTypeId::UTF8String => match decode_text(contents) {
            Ok(text) => Ok(TypeModel::UTF8String(text)),
            Err(e) => Err(e),
        },
        ASNTypeId::PrintableString => match decode_text(contents) {
            Ok(text) => Ok(TypeModel::PrintableString(text)),
            Err(e) => Err(e),
        },
        ASNTypeId::IA5String => match decode_text(contents) {
            Ok(text) => Ok(TypeModel::IA5String(text)),
            Err(e) => Err(e),
        },
        ASNTypeId::UTCTime => decode_utc_time(contents),
        ASNTypeId::Sequence => if contents.len() == 0 {
            Err(ErrorModel::EmptySequence)
        } else {
            Ok(TypeModel::Sequence(contents))
        },
        ASNTypeId::ASNSet => if contents.len() == 0 {
            Err(ErrorModel::EmptySet)
        } else {
            Ok(TypeModel::ASNSet(contents))
        },
        ASNTypeId::ExplicitTag => Ok(
            TypeModel::ExplicitTag(ExplicitTagModel { value: tag, contents }),
        ),
    }
}

/// The value at the start of `s` and the count of octets that it takes:
/// one identifier octet, the length octets, and as many octets of contents as
/// the length says.
pub open spec fn decode_one(s: Seq<u8>) -> Result<(TypeModel, nat), ErrorModel> {
    if s.len() == 0 {
        Err(ErrorModel::EndOfStream)
    } else {
        let id = identifier_of(s[0]);
        match kind_of(id) {
            None => Err(ErrorModel::UnsupportedId(id)),
            Some(kind) => match decode_length(s.skip(1)) {
                Err(e) => Err(e),
                Ok((length, used)) => if s.len() < 1 + used + length {
                    Err(ErrorModel::EndOfStream)
                } else {
                    match decode_contents(
                        kind,
                        id.tag,
                        s.subrange(1 + used as int, 1 + used as int + length as int),
                    ) {
                        Err(e) => Err(e),
                        Ok(value) => Ok((value, 1 + used + length)),
                    }
                },
            },
        }
    }
}

/// The SEQUENCE with contents `contents`, which may not be empty.
pub fn parse_seq<'a>(contents: &'a [u8]) -> (r: Result<ASNType<'a>, ASNError>)
    ensures
        crate::types::result_model(r) == decode_contents(ASNTypeId::Sequence, 16, contents@),
{
    if contents.len() == 0 {
        Err(ASNError::EmptySequence)
    } else {
        Ok(Sequence::asn(contents))
    }
}

/// The SET with contents `contents`, which may not be empty.
pub fn parse_set<'a>(contents: &'a [u8]) -> (r: Result<ASNType<'a>, ASNError>)
    ensures
        crate::types::result_model(r) == decode_contents(ASNTypeId::ASNSet, 17, contents@),
{
    if contents.len() == 0 {
        Err(ASNError::EmptySet)
    } else {
        Ok(ASNSet::asn(contents))
    }
}

/// The NULL with contents `contents`, which have to be empty.
pub fn parse_null<'a>(contents: &'a [u8]) -> (r: Result<ASNType<'a>, ASNError>)
    ensures
        crate::types::result_model(r) == decode_contents(ASNTypeId::Null, 5, contents@),
{
    if contents.len() == 0 {
        Ok(ASNType::Null)
    } else {
        Err(ASNError::NullWithNonEmptyContents(contents.len()))
    }
}

/// The BOOLEAN with contents `contents`.
pub fn parse_boolean<'a>(contents: &'a [u8]) -> (r: Result<ASNType<'a>, ASNError>)
    ensures
        crate::types::result_model(r) == decode_boolean(contents@),
{
    if contents.len() != 1 {
        Err(ASNError::BadBooleanLength(contents.len()))
    } else if contents[0] == 0xFF {
        Ok(Boolean::asn(true))
    } else if contents[0] == 0x00 {
        Ok(Boolean::asn(false))
    } else {
        Err(ASNError::BadBooleanValue(contents[0]))
    }
}

/// The INTEGER with contents `contents`, which may not be empty.
pub fn parse_integer<'a>(contents: &'a [u8]) -> (r: Result<ASNType<'a>, ASNError>)
    ensures
        crate::types::result_model(r) == decode_contents(ASNTypeId::Integer, 2, contents@),
{
    if contents.len() == 0 {
        Err(ASNError::ZeroLengthInteger)
    } else {
        Ok(Integer::asn(ASNInteger::new(contents)))
    }
}

/// The UTCTime that a reading of its text stands for: the instant that was
/// read, or the error of a text in none of the formats.
pub fn utc_time_from<'a>(timestamp: Option<i64>) -> (r: Result<ASNType<'a>, ASNError>)
    ensures
        crate::types::result_model(r) == utc_time_of(timestamp),
{
    match timestamp {
        Some(t) => Ok(UtcTime::asn(t)),
        None => Err(ASNError::BadUTCTime),
    }
}

/// The UTCTime with contents `contents`: text in one of the four formats.
pub fn parse_utc_time<'a>(contents: &'a [u8]) -> (r: Result<ASNType<'a>, ASNError>)
    ensures
        crate::types::result_model(r) == decode_utc_time(contents@),
{
    match str_of_bytes(contents) {
        Ok(text) => utc_time_from(try_parse_all_variants(text)),
        Err(e) => Err(ASNError::BadUTF8(e)),
    }
}

/// The text of a string value.
pub fn parse_string<'a>(contents: &'a [u8]) -> (r: Result<&'a str, ASNError>)
    ensures
        crate::types::result_model(r) == decode_text(contents@),
{
    match str_of_bytes(contents) {
        Ok(text) => Ok(text),
        Err(e) => Err(ASNError::BadUTF8(e)),
    }
}

/// The BIT STRING with contents `contents`.
pub fn parse_bit_string<'a>(contents: &'a [u8]) -> (r: Result<ASNType<'a>, ASNError>)
    ensures
        crate::types::result_model(r) == decode_bit_string(contents@),
        r matches Ok(ASNType::BitString(b)) ==> b.value@.well_formed(),
{
    if contents.len() == 0 {
        return Err(ASNError::EndOfStream);
    }
    let unused_bits = contents[0];
    if unused_bits > 7 {
        return Err(ASNError::BitStringUnusedBitsTooLarge(unused_bits));
    }
    let bytes = slice_subrange(contents, 1, contents.len());
    Ok(BitString::asn(ASNBitString::new(unused_bits, bytes)))
}

/// Reads one arc of an object identifier at the reader's position.
pub fn parse_arc(reader: &mut Reader) -> (r: Result<u32, ASNError>)
    ensures
        match decode_arc(old(reader)@) {
            Ok((arc, used)) => r == Ok::<u32, ASNError>(arc as u32) && arc <= crate::oid::MAX_ARC
                && 0 < used <= old(reader)@.len() && final(reader)@ == old(reader)@.skip(
                used as int,
            ),
            Err(e) => r is Err && r->Err_0@ == e,
        },
{
    let ghost start = reader@;
    let mut sum: u32 = 0;
    let mut count: u32 = 0;
    loop
        invariant
            count <= 4,
            sum < pow128(count as nat),
            count <= start.len(),
            reader@ == start.skip(count as int),
            decode_arc(start) == decode_arc_from(start, count as nat, sum as nat),
            start == old(reader)@,
        decreases 4 - count,
    {
        proof {
            reveal_with_fuel(pow128, 5);
            lemma_decode_arc_from(start, count as nat, sum as nat);
        }
        if count > 3 {
            return Err(ASNError::BadOidLength);
        }
        let next_byte = match reader.read_byte() {
            Ok(b) => b,
            Err(_) => {
                return Err(ASNError::EndOfStream);
            },
        };
        let has_next: bool = next_byte >= 128;
        let value: u32 = (next_byte % 128) as u32;
        sum = sum * 128 + value;
        count = count + 1;
        if !has_next {
            return Ok(sum);
        }
    }
}

/// The OBJECT IDENTIFIER with contents `contents`.
pub fn parse_object_identifier<'a>(contents: &'a [u8]) -> (r: Result<ASNType<'a>, ASNError>)
    ensures
        crate::types::result_model(r) == decode_contents(
            ASNTypeId::ObjectIdentifier,
            6,
            contents@,
        ),
        r matches Ok(ASNType::ObjectIdentifier(oid)) ==> forall|i: int|
            0 <= i < oid.value@.len() ==> #[trigger] oid.value@[i] <= crate::oid::MAX_ARC,
{
    let mut reader = Reader::new(contents);
    let mut items: Vec<u32> = Vec::new();
    let first_byte = match reader.read_byte() {
        Ok(b) => b,
        Err(_) => {
            return Err(ASNError::EndOfStream);
        },
    };
    items.push((first_byte / 40) as u32);
    items.push((first_byte % 40) as u32);
    assert(items@ =~= seq![(contents@[0] / 40) as u32, (contents@[0] % 40) as u32]);
    while !reader.is_empty()
        invariant
            contents@.len() > 0,
            match decode_arcs(reader@) {
                Ok(rest) => decode_oid(contents@) == Ok::<Seq<u32>, ErrorModel>(items@ + rest),
                Err(e) => decode_oid(contents@) == Err::<Seq<u32>, ErrorModel>(e),
            },
            forall|i: int| 0 <= i < items@.len() ==> #[trigger] items@[i] <= crate::oid::MAX_ARC,
        decreases reader@.len(),
    {
        let ghost had = items@;
        let arc = match parse_arc(&mut reader) {
            Ok(arc) => arc,
            Err(e) => {
                return Err(e);
            },
        };
        items.push(arc);
        proof {
            if let Ok(rest) = decode_arcs(reader@) {
                assert((had + seq![arc]) + rest =~= had + (seq![arc] + rest));
                assert(items@ =~= had + seq![arc]);
            }
        }
    }
    Ok(ObjectIdentifier::asn(ASNObjectIdentifier::new(items)))
}


/// What is left of what is left of a window is left of the window.
pub proof fn lemma_tail_of_tail(inner: Seq<u8>, middle: Seq<u8>, whole: Seq<u8>)
    requires
        is_tail_of(inner, middle),
        is_tail_of(middle, whole),
    ensures
        is_tail_of(inner, whole),
{
    let j = choose|j: int| 0 <= j <= whole.len() && middle == #[trigger] whole.skip(j);
    let k = choose|k: int| 0 <= k <= middle.len() && inner == #[trigger] middle.skip(k);
    assert(whole.skip(j).skip(k) =~= whole.skip(j + k));
}

/// Reads one value at the reader's position: identifier, length and contents.
/// The reader moves past the value; what it holds after an error is some tail
/// of what it held.
pub fn parse_one_type<'a>(reader: &mut Reader<'a>) -> (r: Result<ASNType<'a>, ASNError>)
    ensures
        match decode_one(old(reader)@) {
            Ok((value, used)) => r is Ok && r->Ok_0@ == value && 0 < used <= old(reader)@.len()
                && final(reader)@ == old(reader)@.skip(used as int),
            Err(e) => r is Err && r->Err_0@ == e && is_tail_of(final(reader)@, old(reader)@),
        },
{
    let ghost start = reader@;
    assert(start.skip(0) =~= start);
    let first = match reader.read_byte() {
        Ok(b) => b,
        Err(_) => {
            return Err(ASNError::EndOfStream);
        },
    };
    let id = Identifier::from(first);
    let kind = match read_type(&id) {
        Some(kind) => kind,
        None => {
            return Err(ASNError::UnsupportedId(id));
        },
    };
    let ghost after_id = reader@;
    let length = match parse_length(reader) {
        Ok(length) => length,
        Err(e) => {
            proof {
                lemma_tail_of_tail(reader@, after_id, start);
            }
            return Err(e);
        },
    };
    let ghost used: int = decode_length(after_id)->Ok_0.1 as int;
    assert(start.skip(1).skip(used) =~= start.skip(1 + used));
    let contents = match reader.take(length) {
        Ok(contents) => contents,
        Err(_) => {
            return Err(ASNError::EndOfStream);
        },
    };
    proof {
        assert(contents@ =~= start.subrange(1 + used, 1 + used + length));
        assert(start.skip(1 + used).skip(length as int) =~= start.skip(1 + used + length));
    }
    parse_contents(kind, id.tag, contents)
}

/// Decodes the contents of a value of kind `kind`; `tag` is the tag number of
/// its identifier, which an explicit tag keeps.
pub fn parse_contents<'a>(kind: ASNTypeId, tag: u8, contents: &'a [u8]) -> (r: Result<
    ASNType<'a>,
    ASNError,
>)
    ensures
        crate::types::result_model(r) == decode_contents(kind, tag, contents@),
{
    match kind {
        ASNTypeId::Boolean => parse_boolean(contents),
        ASNTypeId::Integer => parse_integer(contents),
        ASNTypeId::BitString => parse_bit_string(contents),
        ASNTypeId::OctetString => Ok(OctetString::asn(contents)),
        ASNTypeId::Null => parse_null(contents),
        ASNTypeId::ObjectIdentifier => parse_object_identifier(contents),
        ASNTypeId::UTF8String => match parse_string(contents) {
            Ok(text) => Ok(UTF8String::asn(text)),
            Err(e) => Err(e),
        },
        ASNTypeId::PrintableString => match parse_string(contents) {
            Ok(text) => Ok(PrintableString::asn(text)),
            Err(e) => Err(e),
        },
        ASNTypeId::IA5String => match parse_string(contents) {
            Ok(text) => Ok(IA5String::asn(text)),
            Err(e) => Err(e),
        },
        ASNTypeId::UTCTime => parse_utc_time(contents),
        ASNTypeId::Sequence => parse_seq(contents),
        ASNTypeId::ASNSet => parse_set(contents),
        ASNTypeId::ExplicitTag => Ok(ExplicitTag::asn(ASNExplicitTag::new(tag, contents))),
    }
}

/// The contents of the value at the start of `s`: what follows its identifier
/// and length octets, as long as the length says.
pub open spec fn contents_of(s: Seq<u8>) -> Seq<u8>
    recommends
        decode_one(s) is Ok,
{
    let (length, used) = decode_length(s.skip(1))->Ok_0;
    s.subrange(1 + used as int, 1 + used as int + length as int)
}

/// The encoding of a value with identifier octet `identifier` and contents `contents`.
pub open spec fn encode_value(identifier: u8, contents: Seq<u8>) -> Seq<u8> {
    seq![identifier] + crate::length::encode_length(contents.len()) + contents
}

/// A value that decodes is made up of exactly what was read: its identifier
/// octet, its length octets and its contents, in this order and with nothing
/// between them; and it is the value of its kind with those contents.
pub proof fn lemma_value_parts(s: Seq<u8>)
    requires
        decode_one(s) is Ok,
    ensures
        ({
            let (length, used) = decode_length(s.skip(1))->Ok_0;
            let taken = decode_one(s)->Ok_0.1;
            &&& decode_length(s.skip(1)) is Ok
            &&& contents_of(s).len() == length
            &&& taken == 1 + used + length
            &&& taken <= s.len()
            &&& s.take(taken as int) == seq![s[0]] + s.subrange(1, 1 + used as int) + contents_of(
                s,
            )
            &&& kind_of(identifier_of(s[0])) is Some
            &&& Ok::<TypeModel, ErrorModel>(decode_one(s)->Ok_0.0) == decode_contents(
                kind_of(identifier_of(s[0]))->Some_0,
                identifier_of(s[0]).tag,
                contents_of(s),
            )
        }),
{
    let (length, used) = decode_length(s.skip(1))->Ok_0;
    let taken = decode_one(s)->Ok_0.1;
    assert(s.take(taken as int) =~= seq![s[0]] + s.subrange(1, 1 + used as int) + contents_of(s));
}

/// A value that decodes has one encoding only: when the octets of a long
/// length do not start with a zero octet, the value that was read is the
/// encoding of its identifier octet and its contents.
pub proof fn lemma_value_reconstitutes(s: Seq<u8>)
    requires
        decode_one(s) is Ok,
        s[1] >= 128 ==> s[2] != 0,
    ensures
        s.take(decode_one(s)->Ok_0.1 as int) == encode_value(s[0], contents_of(s)),
{
    lemma_value_parts(s);
    let tail = s.skip(1);
    let used = decode_length(tail)->Ok_0.1;
    crate::length::lemma_decode_is_minimal(tail);
    assert(tail.take(used as int) =~= s.subrange(1, 1 + used as int));
}

/// Decoding undoes encoding: the encoding of contents of fewer than 2^32
/// octets under a supported identifier, followed by anything, decodes to the
/// value of that kind with those contents, and takes exactly the encoding.
pub proof fn lemma_decode_encoded(identifier: u8, contents: Seq<u8>, rest: Seq<u8>)
    requires
        contents.len() < 0x1_0000_0000,
        kind_of(identifier_of(identifier)) is Some,
    ensures
        decode_one(encode_value(identifier, contents) + rest) == match decode_contents(
            kind_of(identifier_of(identifier))->Some_0,
            identifier_of(identifier).tag,
            contents,
        ) {
            Ok(value) => Ok((value, encode_value(identifier, contents).len())),
            Err(e) => Err(e),
        },
{
    let s = encode_value(identifier, contents) + rest;
    let header = crate::length::encode_length(contents.len());
    crate::length::lemma_decode_encode(contents.len(), contents + rest);
    assert(s.skip(1) =~= header + (contents + rest));
    let used = header.len();
    assert(s.subrange(1 + used as int, 1 + used as int + contents.len() as int) =~= contents);
}


/// The invariant of each kind of value holds of every value that decodes:
/// a bit string has at most seven unused bits, and holds all of its contents
/// but the first octet; every arc of an object identifier is at most
/// `MAX_ARC`; an integer, a sequence and a set are not empty.
pub proof fn lemma_decoded_value_is_in_range(s: Seq<u8>)
    requires
        decode_one(s) is Ok,
    ensures
        match decode_one(s)->Ok_0.0 {
            TypeModel::BitString(bits) => bits.unused_bits <= 7 && bits.bytes.len()
                == contents_of(s).len() - 1,
            TypeModel::ObjectIdentifier(arcs) => arcs.len() >= 2 && forall|i: int|
                0 <= i < arcs.len() ==> #[trigger] arcs[i] <= crate::oid::MAX_ARC,
            TypeModel::Integer(bytes) => bytes.len() >= 1,
            TypeModel::Sequence(contents) => contents.len() >= 1,
            TypeModel::ASNSet(contents) => contents.len() >= 1,
            _ => true,
        },
{
    lemma_value_parts(s);
    crate::oid::lemma_decode_oid_bound(contents_of(s));
}

} // verus!
