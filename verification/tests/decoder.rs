use rasn::decoder::parse_arc;
use rasn::decoder::parse_bit_string;
use rasn::decoder::parse_boolean;
use rasn::decoder::parse_contents;
use rasn::decoder::parse_integer;
use rasn::decoder::parse_null;
use rasn::decoder::parse_object_identifier;
use rasn::decoder::parse_one_type;
use rasn::decoder::parse_seq;
use rasn::decoder::parse_set;
use rasn::decoder::parse_string;
use rasn::decoder::parse_utc_time;
use rasn::decoder::read_type;
use rasn::decoder::utc_time_from;
use rasn::reader::Reader;
use rasn::types::ASNBitString;
use rasn::types::ASNError;
use rasn::types::ASNExplicitTag;
use rasn::types::ASNInteger;
use rasn::types::ASNObjectIdentifier;
use rasn::types::ASNSet;
use rasn::types::ASNType;
use rasn::types::ASNTypeId;
use rasn::types::BitString;
use rasn::types::Boolean;
use rasn::types::ExplicitTag;
use rasn::types::IA5String;
use rasn::types::Identifier;
use rasn::types::Integer;
use rasn::types::ObjectIdentifier;
use rasn::types::OctetString;
use rasn::types::PrintableString;
use rasn::types::Sequence;
use rasn::types::TagClass;
use rasn::types::UTF8String;
use rasn::types::UtcTime;
use rasn::types::PC;

#[test]
fn parser_parse_one_fails_for_non_universal_type() {
    let mut reader = Reader::new(&[0xFF]);
    assert_eq!(
        parse_one_type(&mut reader),
        Err(ASNError::UnsupportedId(Identifier::new(TagClass::Private, PC::Constructed, 0x1F)))
    )
}

#[test]
fn parser_parse_one_fails_for_unknown_universal_type() {
    let mut reader = Reader::new(&[0x1F, 0x00]);
    assert_eq!(
        parse_one_type(&mut reader),
        Err(ASNError::UnsupportedId(Identifier::new(TagClass::Universal, PC::Primitive, 0x1F)))
    )
}

#[test]
fn parser_parses_sequence_correctly() {
    let mut reader = Reader::new(&[0x30, 0x03, 0x02, 0x03, 0x04, 0x05, 0x06]);
    assert_eq!(parse_one_type(&mut reader), Ok(Sequence::asn(&[0x02, 0x03, 0x04])));
    assert_eq!(reader.remainder(), &[0x05, 0x06]);
}

#[test]
fn parser_parse_sequence_fails_if_insufficient_bytes() {
    let mut reader = Reader::new(&[0x30, 0x0F, 0xDE, 0xAD]);
    assert_eq!(parse_one_type(&mut reader), Err(ASNError::EndOfStream));
}

#[test]
fn parses_explicit_tag() {
    let mut reader = Reader::new(&[0xA1, 0x02, 0xCA, 0xFE]);
    assert_eq!(
        parse_one_type(&mut reader),
        Ok(ExplicitTag::asn(ASNExplicitTag::new(1, &[0xCA, 0xFE])))
    );
}

fn check_utc_variant(value: &str, seconds: u32) {
    assert_eq!(
        parse_utc_time(value.as_bytes()),
        Ok(UtcTime::asn(
            chrono::NaiveDate::from_ymd_opt(1999, 1, 2)
                .unwrap()
                .and_hms_opt(5, 23, seconds)
                .unwrap()
                .and_utc()
                .timestamp()
        ))
    );
}

#[test]
fn parses_utc_time() {
    let utc_with_seconds = "990102052345Z";
    let utc_without_seconds = "9901020523Z";
    let tz_positive_with_seconds = "990102052345+0000";
    let tz_positive_without_seconds = "9901020523+0000";
    let tz_negative_with_seconds = "990102052345-0000";
    let tz_negative_without_seconds = "9901020523-0000";

    // parses the explicit timezone version
    check_utc_variant(utc_with_seconds, 45);
    check_utc_variant(utc_without_seconds, 00);

    check_utc_variant(tz_positive_with_seconds, 45);
    check_utc_variant(tz_positive_without_seconds, 00);

    check_utc_variant(tz_negative_with_seconds, 45);
    check_utc_variant(tz_negative_without_seconds, 00);
}

#[test]
fn parser_parses_known_object_identifiers() {
    // Microsoft: szOID_REQUEST_CLIENT_INFO
    assert_eq!(
        parse_object_identifier(&[0x2b, 0x06, 0x01, 0x04, 0x01, 0x82, 0x37, 0x15, 0x14]),
        Ok(ObjectIdentifier::asn(ASNObjectIdentifier::new(
            [1, 3, 6, 1, 4, 1, 311, 21, 20].to_vec()
        )))
    );

    // sha1WithRSAEncryption
    assert_eq!(
        parse_object_identifier(&[0x2A, 0x86, 0x48, 0x86, 0xF7, 0x0D, 0x01, 0x01, 0x05]),
        Ok(ObjectIdentifier::asn(ASNObjectIdentifier::new([1, 2, 840, 113549, 1, 1, 5].to_vec())))
    );
}

fn one_and_rest(input: &[u8]) -> Result<(ASNType, Vec<u8>), ASNError> {
    let mut reader = Reader::new(input);
    let value = parse_one_type(&mut reader)?;
    Ok((value, reader.remainder().to_vec()))
}

#[test]
fn lib_parse_one_fails_for_non_universal_type() {
    assert_eq!(
        one_and_rest(&[0xFF]),
        Err(ASNError::UnsupportedId(Identifier::from(0xFF)))
    )
}

#[test]
fn lib_parse_one_fails_for_unknown_universal_type() {
    assert_eq!(
        one_and_rest(&[0x3F, 0x00]),
        Err(ASNError::UnsupportedId(Identifier::new(TagClass::Universal, PC::Constructed, 0x1F)))
    )
}

#[test]
fn lib_parses_sequence_correctly() {
    assert_eq!(
        one_and_rest(&[0x30, 0x03, 0x02, 0x03, 0x04, 0x05, 0x06]),
        Ok((Sequence::asn(&[0x02, 0x03, 0x04]), vec![0x05, 0x06]))
    )
}

#[test]
fn lib_parse_sequence_fails_if_insufficient_bytes() {
    assert_eq!(one_and_rest(&[0x30, 0x0F, 0xDE, 0xAD]), Err(ASNError::EndOfStream));
}

#[test]
fn lib_parses_known_object_identifiers() {
    // Microsoft: szOID_REQUEST_CLIENT_INFO
    assert_eq!(
        parse_object_identifier(&[0x2b, 0x06, 0x01, 0x04, 0x01, 0x82, 0x37, 0x15, 0x14]),
        Ok(ObjectIdentifier::asn(ASNObjectIdentifier::new(vec![1, 3, 6, 1, 4, 1, 311, 21, 20])))
    );

    // sha1WithRSAEncryption
    assert_eq!(
        parse_object_identifier(&[0x2A, 0x86, 0x48, 0x86, 0xF7, 0x0D, 0x01, 0x01, 0x05]),
        Ok(ObjectIdentifier::asn(ASNObjectIdentifier::new(vec![1, 2, 840, 113549, 1, 1, 5])))
    );
}

#[test]
fn identifier_octet_splits_into_class_form_and_tag() {
    assert_eq!(Identifier::from(0x30), Identifier::new(TagClass::Universal, PC::Constructed, 16));
    assert_eq!(Identifier::from(0x02), Identifier::new(TagClass::Universal, PC::Primitive, 2));
    assert_eq!(Identifier::from(0x41), Identifier::new(TagClass::Application, PC::Primitive, 1));
    assert_eq!(
        Identifier::from(0xA3),
        Identifier::new(TagClass::ContextSpecific, PC::Constructed, 3)
    );
    assert_eq!(Identifier::from(0xC0), Identifier::new(TagClass::Private, PC::Primitive, 0));
    assert_eq!(Identifier::from(0x7E), Identifier::new(TagClass::Application, PC::Constructed, 30));
}

#[test]
fn read_type_follows_the_table() {
    let universal = [
        (1u8, ASNTypeId::Boolean),
        (2, ASNTypeId::Integer),
        (3, ASNTypeId::BitString),
        (4, ASNTypeId::OctetString),
        (5, ASNTypeId::Null),
        (6, ASNTypeId::ObjectIdentifier),
        (12, ASNTypeId::UTF8String),
        (19, ASNTypeId::PrintableString),
        (22, ASNTypeId::IA5String),
        (23, ASNTypeId::UTCTime),
    ];
    for (tag, kind) in universal {
        assert_eq!(
            read_type(&Identifier::new(TagClass::Universal, PC::Primitive, tag)),
            Some(kind)
        );
        assert_eq!(read_type(&Identifier::new(TagClass::Universal, PC::Constructed, tag)), None);
        assert_eq!(read_type(&Identifier::new(TagClass::Application, PC::Primitive, tag)), None);
    }
    assert_eq!(
        read_type(&Identifier::new(TagClass::Universal, PC::Constructed, 16)),
        Some(ASNTypeId::Sequence)
    );
    assert_eq!(
        read_type(&Identifier::new(TagClass::Universal, PC::Constructed, 17)),
        Some(ASNTypeId::ASNSet)
    );
    assert_eq!(read_type(&Identifier::new(TagClass::Universal, PC::Primitive, 16)), None);
    assert_eq!(read_type(&Identifier::new(TagClass::Universal, PC::Primitive, 24)), None);
    assert_eq!(
        read_type(&Identifier::new(TagClass::ContextSpecific, PC::Constructed, 0)),
        Some(ASNTypeId::ExplicitTag)
    );
    assert_eq!(
        read_type(&Identifier::new(TagClass::ContextSpecific, PC::Constructed, 30)),
        Some(ASNTypeId::ExplicitTag)
    );
    assert_eq!(read_type(&Identifier::new(TagClass::ContextSpecific, PC::Primitive, 0)), None);
    assert_eq!(read_type(&Identifier::new(TagClass::Private, PC::Constructed, 0)), None);
}

#[test]
fn tag_of_several_octets_is_refused_in_every_class() {
    assert_eq!(read_type(&Identifier::new(TagClass::ContextSpecific, PC::Constructed, 31)), None);
    assert_eq!(
        one_and_rest(&[0xBF, 0x01, 0x00]),
        Err(ASNError::UnsupportedId(Identifier::new(
            TagClass::ContextSpecific,
            PC::Constructed,
            31
        )))
    );
}

#[test]
fn boolean_is_one_octet_of_all_ones_or_zero() {
    assert_eq!(parse_boolean(&[0xFF]), Ok(Boolean::asn(true)));
    assert_eq!(parse_boolean(&[0x00]), Ok(Boolean::asn(false)));
    assert_eq!(parse_boolean(&[0x01]), Err(ASNError::BadBooleanValue(1)));
    assert_eq!(parse_boolean(&[]), Err(ASNError::BadBooleanLength(0)));
    assert_eq!(parse_boolean(&[0xFF, 0xFF]), Err(ASNError::BadBooleanLength(2)));
    assert_eq!(one_and_rest(&[0x01, 0x01, 0xFF, 0x09]), Ok((Boolean::asn(true), vec![0x09])));
}

#[test]
fn integer_needs_contents() {
    assert_eq!(parse_integer(&[]), Err(ASNError::ZeroLengthInteger));
    assert_eq!(parse_integer(&[0x05]), Ok(Integer::asn(ASNInteger::new(&[0x05]))));
    assert_eq!(one_and_rest(&[0x02, 0x00]), Err(ASNError::ZeroLengthInteger));
}

#[test]
fn null_has_no_contents() {
    assert_eq!(parse_null(&[]), Ok(ASNType::Null));
    assert_eq!(parse_null(&[0x00, 0x00]), Err(ASNError::NullWithNonEmptyContents(2)));
    assert_eq!(one_and_rest(&[0x05, 0x00]), Ok((ASNType::Null, vec![])));
    assert_eq!(one_and_rest(&[0x05, 0x01, 0x00]), Err(ASNError::NullWithNonEmptyContents(1)));
}

#[test]
fn empty_sequence_and_set_are_refused() {
    assert_eq!(parse_seq(&[]), Err(ASNError::EmptySequence));
    assert_eq!(parse_set(&[]), Err(ASNError::EmptySet));
    assert_eq!(one_and_rest(&[0x30, 0x00]), Err(ASNError::EmptySequence));
    assert_eq!(one_and_rest(&[0x31, 0x00]), Err(ASNError::EmptySet));
    assert_eq!(one_and_rest(&[0x31, 0x01, 0x07]), Ok((ASNSet::asn(&[0x07]), vec![])));
}

#[test]
fn bit_string_takes_its_first_octet_as_unused_bits() {
    assert_eq!(
        parse_bit_string(&[0x00, 0x81]),
        Ok(BitString::asn(ASNBitString::new(0, &[0x81])))
    );
    assert_eq!(
        parse_bit_string(&[0x07, 0x80]),
        Ok(BitString::asn(ASNBitString::new(7, &[0x80])))
    );
    assert_eq!(parse_bit_string(&[0x08, 0x80]), Err(ASNError::BitStringUnusedBitsTooLarge(8)));
    assert_eq!(parse_bit_string(&[0xFF]), Err(ASNError::BitStringUnusedBitsTooLarge(255)));
    assert_eq!(parse_bit_string(&[]), Err(ASNError::EndOfStream));
    assert_eq!(parse_bit_string(&[0x00]), Ok(BitString::asn(ASNBitString::new(0, &[]))));
}

#[test]
fn octet_string_may_be_empty() {
    assert_eq!(one_and_rest(&[0x04, 0x00]), Ok((OctetString::asn(&[]), vec![])));
    assert_eq!(
        one_and_rest(&[0x04, 0x02, 0xCA, 0xFE, 0x01]),
        Ok((OctetString::asn(&[0xCA, 0xFE]), vec![0x01]))
    );
}

#[test]
fn strings_have_to_be_utf8() {
    assert_eq!(parse_string(b"hello"), Ok("hello"));
    assert_eq!(parse_string(&[]), Ok(""));
    assert!(matches!(parse_string(&[0xC3, 0x28]), Err(ASNError::BadUTF8(_))));
    assert_eq!(one_and_rest(&[0x0C, 0x02, 0xC3, 0xA9]), Ok((UTF8String::asn("\u{e9}"), vec![])));
    assert_eq!(one_and_rest(&[0x13, 0x02, 0x4A, 0x50]), Ok((PrintableString::asn("JP"), vec![])));
    assert_eq!(one_and_rest(&[0x16, 0x01, 0x40]), Ok((IA5String::asn("@"), vec![])));
    assert!(matches!(one_and_rest(&[0x13, 0x01, 0xFF]), Err(ASNError::BadUTF8(_))));
    assert!(matches!(one_and_rest(&[0x16, 0x01, 0x80]), Err(ASNError::BadUTF8(_))));
}

#[test]
fn printable_string_charset_is_not_enforced() {
    assert_eq!(one_and_rest(&[0x13, 0x01, 0x2A]), Ok((PrintableString::asn("*"), vec![])));
}

#[test]
fn utc_time_gives_the_exact_instant() {
    assert_eq!(parse_utc_time(b"990102052345Z"), Ok(UtcTime::asn(915254625)));
    assert_eq!(parse_utc_time(b"9901020523Z"), Ok(UtcTime::asn(915254580)));
    assert_eq!(parse_utc_time(b"700101000000Z"), Ok(UtcTime::asn(0)));
    assert_eq!(parse_utc_time(b"990102052345+0100"), Ok(UtcTime::asn(915254625 - 3600)));
    assert_eq!(parse_utc_time(b"9901020523-0230"), Ok(UtcTime::asn(915254580 + 9000)));
    assert_eq!(
        one_and_rest(b"\x17\x0d261028200644Z"),
        Ok((UtcTime::asn(1793218004), vec![]))
    );
}

#[test]
fn utc_time_in_no_format_is_refused() {
    assert_eq!(parse_utc_time(b""), Err(ASNError::BadUTCTime));
    assert_eq!(parse_utc_time(b"19990102052345Z"), Err(ASNError::BadUTCTime));
    assert_eq!(parse_utc_time(b"990102052345"), Err(ASNError::BadUTCTime));
    assert_eq!(parse_utc_time(b"991302052345Z"), Err(ASNError::BadUTCTime));
    assert_eq!(parse_utc_time(b"990102252345Z"), Err(ASNError::BadUTCTime));
    assert!(matches!(parse_utc_time(&[0xFF, 0xFE]), Err(ASNError::BadUTF8(_))));
}

#[test]
fn utc_time_from_a_reading() {
    assert_eq!(utc_time_from(Some(42)), Ok(UtcTime::asn(42)));
    assert_eq!(utc_time_from(Some(-1)), Ok(UtcTime::asn(-1)));
    assert_eq!(utc_time_from(None), Err(ASNError::BadUTCTime));
}

#[test]
fn object_identifier_arcs() {
    assert_eq!(parse_object_identifier(&[]), Err(ASNError::EndOfStream));
    assert_eq!(
        parse_object_identifier(&[0x2A]),
        Ok(ObjectIdentifier::asn(ASNObjectIdentifier::new(vec![1, 2])))
    );
    assert_eq!(
        parse_object_identifier(&[0xFF]),
        Ok(ObjectIdentifier::asn(ASNObjectIdentifier::new(vec![6, 15])))
    );
    assert_eq!(
        parse_object_identifier(&[0x2B, 0xFF, 0xFF, 0xFF, 0x7F]),
        Ok(ObjectIdentifier::asn(ASNObjectIdentifier::new(vec![1, 3, 0x0FFF_FFFF])))
    );
    assert_eq!(
        parse_object_identifier(&[0x2B, 0xFF, 0xFF, 0xFF, 0xFF, 0x7F]),
        Err(ASNError::BadOidLength)
    );
    assert_eq!(parse_object_identifier(&[0x2B, 0xFF, 0xFF, 0xFF, 0xFF]), Err(ASNError::BadOidLength));
    assert_eq!(parse_object_identifier(&[0x2B, 0x86]), Err(ASNError::EndOfStream));
    assert_eq!(
        parse_object_identifier(&[0x2B, 0x80, 0x01]),
        Ok(ObjectIdentifier::asn(ASNObjectIdentifier::new(vec![1, 3, 1])))
    );
}

#[test]
fn every_decoded_arc_is_below_two_to_the_28() {
    let inputs: [&[u8]; 4] = [
        &[0x2B, 0xFF, 0xFF, 0xFF, 0x7F, 0x01],
        &[0x2A, 0x86, 0x48, 0x86, 0xF7, 0x0D, 0x01, 0x01, 0x05],
        &[0x00],
        &[0xFF, 0xFF, 0x7F],
    ];
    for input in inputs {
        match parse_object_identifier(input) {
            Ok(ASNType::ObjectIdentifier(oid)) => {
                for arc in oid.value.values() {
                    assert!(*arc <= 0x0FFF_FFFF);
                }
            }
            other => panic!("not an object identifier: {:?}", other),
        }
    }
}

#[test]
fn one_arc_at_a_time() {
    let mut reader = Reader::new(&[0x86, 0x48, 0x01]);
    assert_eq!(parse_arc(&mut reader), Ok(840));
    assert_eq!(reader.remainder(), &[0x01]);
    assert_eq!(parse_arc(&mut reader), Ok(1));
    assert_eq!(parse_arc(&mut reader), Err(ASNError::EndOfStream));
}

#[test]
fn contents_by_kind() {
    assert_eq!(
        parse_contents(ASNTypeId::ExplicitTag, 2, &[0x01]),
        Ok(ExplicitTag::asn(ASNExplicitTag::new(2, &[0x01])))
    );
    assert_eq!(parse_contents(ASNTypeId::IA5String, 0, b"a@b"), Ok(IA5String::asn("a@b")));
    assert_eq!(parse_contents(ASNTypeId::Null, 0, &[]), Ok(ASNType::Null));
    assert_eq!(parse_contents(ASNTypeId::Boolean, 0, &[0x00]), Ok(Boolean::asn(false)));
}

#[test]
fn value_parts_put_together_give_the_value_back() {
    let inputs: [&[u8]; 4] = [
        &[0x30, 0x03, 0x02, 0x01, 0x05, 0xAA],
        &[0x04, 0x81, 0x80],
        &[0xA0, 0x03, 0x02, 0x01, 0x02],
        &[0x0C, 0x05, 0x68, 0x65, 0x6C, 0x6C, 0x6F, 0x00, 0x00],
    ];
    for input in inputs {
        let mut bytes = input.to_vec();
        if bytes[1] == 0x81 {
            bytes.extend(vec![0x55; 128]);
        }
        let mut reader = Reader::new(&bytes);
        let value = parse_one_type(&mut reader).unwrap();
        let contents: Vec<u8> = match value {
            ASNType::Sequence(w) => w.value.to_vec(),
            ASNType::OctetString(w) => w.value.to_vec(),
            ASNType::ExplicitTag(w) => w.value.contents.to_vec(),
            ASNType::UTF8String(w) => w.value.as_bytes().to_vec(),
            other => panic!("unexpected {:?}", other),
        };
        let taken = bytes.len() - reader.len();
        let header = taken - contents.len();
        let mut again = bytes[..header].to_vec();
        again.extend(&contents);
        assert_eq!(again, bytes[..taken].to_vec());
        assert_eq!(reader.remainder(), &bytes[taken..]);
    }
}
