//! The extensions of a certificate.

use crate::name::lemma_next_shrinks;
use crate::parser::expect_end_of;
use crate::parser::expect_of;
use crate::parser::expect_or_end_of;
use crate::parser::get_optional_of;
use crate::parser::get_optional_or_default_of;
use crate::parser::parse_implicit_of;
use crate::parser::single_of;
use crate::parser::Parser;
use crate::types::result_model;
use crate::types::signed_value;
use crate::types::ASNBitString;
use crate::types::ASNError;
use crate::types::ASNObjectIdentifier;
use crate::types::BitString;
use crate::types::BitStringModel;
use crate::types::Boolean;
use crate::types::ErrorModel;
use crate::types::ExplicitTag;
use crate::types::ExplicitTagModel;
use crate::types::IA5String;
use crate::types::Integer;
use crate::types::ObjectIdentifier;
use crate::types::OctetString;
use crate::types::Sequence;
use crate::types::UTF8String;
use vstd::prelude::*;

verus! {

/// The identifier of a subject key identifier.
pub open spec fn subject_key_identifier_oid() -> Seq<u32> {
    seq![2u32, 5, 29, 14]
}

/// The identifier of a key usage.
pub open spec fn key_usage_oid() -> Seq<u32> {
    seq![2u32, 5, 29, 15]
}

/// The identifier of a subject alternative name.
pub open spec fn subject_alternative_name_oid() -> Seq<u32> {
    seq![2u32, 5, 29, 17]
}

/// The identifier of the basic constraints.
pub open spec fn basic_constraints_oid() -> Seq<u32> {
    seq![2u32, 5, 29, 19]
}

/// The identifier of an extended key usage.
pub open spec fn extended_key_usage_oid() -> Seq<u32> {
    seq![2u32, 5, 29, 37]
}

/// The identifier of a Modbus role.
pub open spec fn modbus_role_oid() -> Seq<u32> {
    seq![1u32, 3, 6, 1, 4, 1, 50316, 802, 1]
}

/// The arcs that the identifiers of all key purposes start with.
pub open spec fn key_purpose_prefix() -> Seq<u32> {
    seq![1u32, 3, 6, 1, 5, 5, 7, 3]
}

/// The identifier of a key: the octets of its one OCTET STRING.
#[derive(Debug, PartialEq, Eq, Clone, Copy)]
pub struct SubjectKeyIdentifier<'a> {
    pub key_identifier: &'a [u8],
}

impl<'a> View for SubjectKeyIdentifier<'a> {
    type V = Seq<u8>;

    open spec fn view(&self) -> Seq<u8> {
        self.key_identifier@
    }
}

impl<'a> SubjectKeyIdentifier<'a> {
    /// Reads a subject key identifier from the octets of its extension.
    pub fn parse(input: &'a [u8]) -> (r: Result<SubjectKeyIdentifier<'a>, ASNError>)
        ensures
            result_model(r) == expect_of::<OctetString>(input@).0,
    {
        let mut parser = Parser::new(input);
        let key_identifier = parser.expect::<OctetString>()?;
        Ok(SubjectKeyIdentifier { key_identifier })
    }
}

/// What a key may be used for.
#[derive(Debug, PartialEq, Eq, Clone, Copy, Structural)]
pub struct KeyUsage {
    pub digital_signature: bool,
    pub content_commitment: bool,
    pub key_encipherment: bool,
    pub data_encipherment: bool,
    pub key_agreement: bool,
    pub key_cert_sign: bool,
    pub crl_sign: bool,
    pub encipher_only: bool,
    pub decipher_only: bool,
}

/// True when the bit string has a bit at `index` and that bit is set.
pub open spec fn flag_of(bits: BitStringModel, index: int) -> bool {
    bits.has_bit(index) && bits.bit(index)
}

/// The usages that a bit string stands for: its first nine bits, in order;
/// a bit that the string does not have counts as not set, and bits behind
/// the ninth are passed over.
pub open spec fn key_usage_of(bits: BitStringModel) -> KeyUsage {
    KeyUsage {
        digital_signature: flag_of(bits, 0),
        content_commitment: flag_of(bits, 1),
        key_encipherment: flag_of(bits, 2),
        data_encipherment: flag_of(bits, 3),
        key_agreement: flag_of(bits, 4),
        key_cert_sign: flag_of(bits, 5),
        crl_sign: flag_of(bits, 6),
        encipher_only: flag_of(bits, 7),
        decipher_only: flag_of(bits, 8),
    }
}

/// True when the bit string has a bit at `index` and that bit is set.
pub fn flag(bits: &ASNBitString, index: usize) -> (r: bool)
    ensures
        r == flag_of(bits@, index as int),
{
    match bits.get(index) {
        Some(bit) => bit,
        None => false,
    }
}

impl KeyUsage {
    /// The usages that a bit string stands for.
    pub fn from_bits(bits: &ASNBitString) -> (r: KeyUsage)
        ensures
            r == key_usage_of(bits@),
    {
        KeyUsage {
            digital_signature: flag(bits, 0),
            content_commitment: flag(bits, 1),
            key_encipherment: flag(bits, 2),
            data_encipherment: flag(bits, 3),
            key_agreement: flag(bits, 4),
            key_cert_sign: flag(bits, 5),
            crl_sign: flag(bits, 6),
            encipher_only: flag(bits, 7),
            decipher_only: flag(bits, 8),
        }
    }

    /// Reads a key usage from the octets of its extension: one BIT STRING.
    pub fn parse(input: &[u8]) -> (r: Result<KeyUsage, ASNError>)
        ensures
            match expect_of::<BitString>(input@).0 {
                Ok(bits) => r == Ok::<KeyUsage, ASNError>(key_usage_of(bits)),
                Err(e) => r is Err && r->Err_0@ == e,
            },
    {
        let mut parser = Parser::new(input);
        let bit_string = parser.expect::<BitString>()?;
        Ok(KeyUsage::from_bits(&bit_string))
    }
}

/// One of the names of a subject alternative name.
#[derive(Debug, PartialEq, Eq)]
pub enum GeneralName<'a> {
    OtherName(&'a [u8]),
    Rfc822Name(&'a str),
    DnsName(&'a str),
    X400Address,
    DirectoryName,
    EdiPartyName,
    UniformResourceIdentifier(&'a str),
    IpAddress(&'a [u8]),
    RegisteredId(ASNObjectIdentifier),
}

/// What a general name holds.
pub enum GeneralNameModel {
    OtherName(Seq<u8>),
    Rfc822Name(Seq<char>),
    DnsName(Seq<char>),
    X400Address,
    DirectoryName,
    EdiPartyName,
    UniformResourceIdentifier(Seq<char>),
    IpAddress(Seq<u8>),
    RegisteredId(Seq<u32>),
}

impl<'a> View for GeneralName<'a> {
    type V = GeneralNameModel;

    open spec fn view(&self) -> GeneralNameModel {
        match self {
            GeneralName::OtherName(b) => GeneralNameModel::OtherName(b@),
            GeneralName::Rfc822Name(s) => GeneralNameModel::Rfc822Name(s@),
            GeneralName::DnsName(s) => GeneralNameModel::DnsName(s@),
            GeneralName::X400Address => GeneralNameModel::X400Address,
            GeneralName::DirectoryName => GeneralNameModel::DirectoryName,
            GeneralName::EdiPartyName => GeneralNameModel::EdiPartyName,
            GeneralName::UniformResourceIdentifier(s) => GeneralNameModel::UniformResourceIdentifier(
                s@,
            ),
            GeneralName::IpAddress(b) => GeneralNameModel::IpAddress(b@),
            GeneralName::RegisteredId(oid) => GeneralNameModel::RegisteredId(oid@),
        }
    }
}

/// The general name under an explicit tag: the tag number says which name
/// it is, and the contents of the tag are the contents of its value.
pub open spec fn general_name_of(tag: ExplicitTagModel) -> Result<GeneralNameModel, ErrorModel> {
    if tag.value == 1 {
        match parse_implicit_of::<IA5String>(tag.contents) {
            Ok(text) => Ok(GeneralNameModel::Rfc822Name(text)),
            Err(e) => Err(e),
        }
    } else if tag.value == 2 {
        match parse_implicit_of::<IA5String>(tag.contents) {
            Ok(text) => Ok(GeneralNameModel::DnsName(text)),
            Err(e) => Err(e),
        }
    } else if tag.value == 6 {
        match parse_implicit_of::<IA5String>(tag.contents) {
            Ok(text) => Ok(GeneralNameModel::UniformResourceIdentifier(text)),
            Err(e) => Err(e),
        }
    } else if tag.value == 7 {
        match parse_implicit_of::<OctetString>(tag.contents) {
            Ok(octets) => Ok(GeneralNameModel::IpAddress(octets)),
            Err(e) => Err(e),
        }
    } else if tag.value == 8 {
        match parse_implicit_of::<ObjectIdentifier>(tag.contents) {
            Ok(arcs) => Ok(GeneralNameModel::RegisteredId(arcs)),
            Err(e) => Err(e),
        }
    } else {
        Err(ErrorModel::UnexpectedTag(tag.value))
    }
}

/// The general names that the explicit tags in `s` hold, up to the end of `s`.
pub open spec fn general_names_of(s: Seq<u8>) -> Result<Seq<GeneralNameModel>, ErrorModel>
    decreases s.len(),
{
    match expect_or_end_of::<ExplicitTag>(s) {
        (Err(e), _) => Err(e),
        (Ok(None), _) => Ok(Seq::empty()),
        (Ok(Some(tag)), rest) => match general_name_of(tag) {
            Err(e) => Err(e),
            Ok(name) => {
                proof {
                    if s.len() > 0 {
                        lemma_next_shrinks(s);
                    }
                }
                match general_names_of(rest) {
                    Err(e) => Err(e),
                    Ok(names) => Ok(seq![name] + names),
                }
            },
        },
    }
}

/// The subject alternative name in `s`: one SEQUENCE of general names.
pub open spec fn subject_alternative_name_of(s: Seq<u8>) -> Result<
    Seq<GeneralNameModel>,
    ErrorModel,
> {
    match single_of::<Sequence>(s) {
        Err(e) => Err(e),
        Ok(contents) => general_names_of(contents),
    }
}

/// Other names of the subject of a certificate.
#[derive(Debug, PartialEq, Eq)]
pub struct SubjectAlternativeName<'a> {
    pub names: Vec<GeneralName<'a>>,
}

/// What a list of general names holds.
pub open spec fn general_name_models(names: Seq<GeneralName>) -> Seq<GeneralNameModel> {
    names.map_values(|n: GeneralName| n@)
}

impl<'a> View for SubjectAlternativeName<'a> {
    type V = Seq<GeneralNameModel>;

    open spec fn view(&self) -> Seq<GeneralNameModel> {
        general_name_models(self.names@)
    }
}

/// Reads the general name under an explicit tag.
pub fn parse_general_name<'a>(tag: crate::types::ASNExplicitTag<'a>) -> (r: Result<
    GeneralName<'a>,
    ASNError,
>)
    ensures
        result_model(r) == general_name_of(tag@),
{
    let mut parser = Parser::new(tag.contents);
    match tag.value {
        1 => Ok(GeneralName::Rfc822Name(parser.parse_implicit::<IA5String>()?)),
        2 => Ok(GeneralName::DnsName(parser.parse_implicit::<IA5String>()?)),
        6 => Ok(GeneralName::UniformResourceIdentifier(parser.parse_implicit::<IA5String>()?)),
        7 => Ok(GeneralName::IpAddress(parser.parse_implicit::<OctetString>()?)),
        8 => Ok(GeneralName::RegisteredId(parser.parse_implicit::<ObjectIdentifier>()?)),
        _ => Err(ASNError::UnexpectedTag(tag.value)),
    }
}

impl<'a> SubjectAlternativeName<'a> {
    /// Reads a subject alternative name from the octets of its extension.
    pub fn parse(input: &'a [u8]) -> (r: Result<SubjectAlternativeName<'a>, ASNError>)
        ensures
            result_model(r) == subject_alternative_name_of(input@),
    {
        let mut parser = Parser::unwrap_outer_sequence(input)?;
        let mut names: Vec<GeneralName> = Vec::new();
        let ghost contents = parser@;
        loop
            invariant
                match general_names_of(parser@) {
                    Ok(rest) => general_names_of(contents) == Ok::<Seq<GeneralNameModel>, ErrorModel>(
                        general_name_models(names@) + rest,
                    ),
                    Err(e) => general_names_of(contents) == Err::<Seq<GeneralNameModel>, ErrorModel>(
                        e,
                    ),
                },
                subject_alternative_name_of(input@) == general_names_of(contents),
            decreases parser@.len(),
        {
            let ghost before = parser@;
            let ghost had = names@;
            let found = parser.expect_or_end::<ExplicitTag>()?;
            match found {
                None => {
                    return Ok(SubjectAlternativeName { names });
                },
                Some(tag) => {
                    proof {
                        lemma_next_shrinks(before);
                    }
                    let name = parse_general_name(tag)?;
                    let ghost model = name@;
                    names.push(name);
                    proof {
                        assert(general_name_models(names@) =~= general_name_models(had).push(
                            model,
                        ));
                        if let Ok(rest) = general_names_of(parser@) {
                            assert(general_name_models(had).push(model) + rest
                                =~= general_name_models(had) + (seq![model] + rest));
                        }
                    }
                },
            }
        }
    }
}

/// Whether the subject is an authority, and how long a chain below it may be.
#[derive(Debug, PartialEq, Eq, Clone, Copy)]
pub struct BasicConstraints {
    pub ca: bool,
    pub path_length_constraint: Option<i32>,
}

/// The basic constraints in `s`: one SEQUENCE of an optional BOOLEAN, false
/// when it is not there, and an optional INTEGER that has to fit an `i32`.
pub open spec fn basic_constraints_of(s: Seq<u8>) -> Result<BasicConstraints, ErrorModel> {
    match single_of::<Sequence>(s) {
        Err(e) => Err(e),
        Ok(contents) => match get_optional_or_default_of::<Boolean>(contents, false) {
            (Err(e), _) => Err(e),
            (Ok(ca), rest) => match get_optional_of::<Integer>(rest).0 {
                Err(e) => Err(e),
                Ok(None) => Ok(BasicConstraints { ca, path_length_constraint: None }),
                Ok(Some(bytes)) => if 1 <= bytes.len() <= 4 {
                    Ok(
                        BasicConstraints {
                            ca,
                            path_length_constraint: Some(signed_value(bytes) as i32),
                        },
                    )
                } else {
                    Err(ErrorModel::IntegerTooLarge(bytes.len() as usize))
                },
            },
        },
    }
}

impl BasicConstraints {
    /// Reads the basic constraints from the octets of their extension.
    pub fn parse(input: &[u8]) -> (r: Result<BasicConstraints, ASNError>)
        ensures
            match basic_constraints_of(input@) {
                Ok(constraints) => r == Ok::<BasicConstraints, ASNError>(constraints),
                Err(e) => r is Err && r->Err_0@ == e,
            },
    {
        let mut parser = Parser::unwrap_outer_sequence(input)?;
        let ca = parser.get_optional_or_default::<Boolean>(false)?;
        let constraint = match parser.get_optional::<Integer>()? {
            Some(value) => match value.as_i32() {
                Some(value) => Some(value),
                None => {
                    return Err(ASNError::IntegerTooLarge(value.bytes.len()));
                },
            },
            None => None,
        };
        Ok(BasicConstraints { ca, path_length_constraint: constraint })
    }
}

/// A purpose that a key may be used for beyond its basic usages.
#[derive(Debug, PartialEq, Eq, Clone, Copy, Structural)]
pub enum ExtendedKeyUsagePurpose {
    ServerAuth,
    ClientAuth,
    CodeSigning,
    EmailProtection,
    TimeStamping,
    OCSPSigning,
}

/// The purpose that an object identifier stands for: the arcs
/// 1.3.6.1.5.5.7.3 followed by 1, 2, 3, 4, 8 or 9.
pub open spec fn purpose_of(oid: Seq<u32>) -> Option<ExtendedKeyUsagePurpose> {
    if oid.len() == 9 && oid.take(8) == key_purpose_prefix() {
        if oid[8] == 1 {
            Some(ExtendedKeyUsagePurpose::ServerAuth)
        } else if oid[8] == 2 {
            Some(ExtendedKeyUsagePurpose::ClientAuth)
        } else if oid[8] == 3 {
            Some(ExtendedKeyUsagePurpose::CodeSigning)
        } else if oid[8] == 4 {
            Some(ExtendedKeyUsagePurpose::EmailProtection)
        } else if oid[8] == 8 {
            Some(ExtendedKeyUsagePurpose::TimeStamping)
        } else if oid[8] == 9 {
            Some(ExtendedKeyUsagePurpose::OCSPSigning)
        } else {
            None
        }
    } else {
        None
    }
}

impl ExtendedKeyUsagePurpose {
    /// The purpose that an object identifier stands for, if it is a known one.
    pub fn try_from_id(oid: &ASNObjectIdentifier) -> (r: Option<ExtendedKeyUsagePurpose>)
        ensures
            r == purpose_of(oid@),
    {
        let v = oid.values();
        if v.len() != 9 {
            return None;
        }
        if v[0] != 1 || v[1] != 3 || v[2] != 6 || v[3] != 1 || v[4] != 5 || v[5] != 5 || v[6] != 7
            || v[7] != 3 {
            assert(oid@.take(8) != key_purpose_prefix()) by {
                let prefix = oid@.take(8);
                assert(prefix[0] == v[0] && prefix[1] == v[1] && prefix[2] == v[2] && prefix[3]
                    == v[3] && prefix[4] == v[4] && prefix[5] == v[5] && prefix[6] == v[6]
                    && prefix[7] == v[7]);
            }
            return None;
        }
        assert(oid@.take(8) =~= key_purpose_prefix());
        match v[8] {
            1 => Some(ExtendedKeyUsagePurpose::ServerAuth),
            2 => Some(ExtendedKeyUsagePurpose::ClientAuth),
            3 => Some(ExtendedKeyUsagePurpose::CodeSigning),
            4 => Some(ExtendedKeyUsagePurpose::EmailProtection),
            8 => Some(ExtendedKeyUsagePurpose::TimeStamping),
            9 => Some(ExtendedKeyUsagePurpose::OCSPSigning),
            _ => None,
        }
    }
}

/// The purposes that the object identifiers in `s` stand for, up to the end
/// of `s`. An identifier of no known purpose is refused.
pub open spec fn purposes_of(s: Seq<u8>) -> Result<Seq<ExtendedKeyUsagePurpose>, ErrorModel>
    decreases s.len(),
{
    match expect_or_end_of::<ObjectIdentifier>(s) {
        (Err(e), _) => Err(e),
        (Ok(None), _) => Ok(Seq::empty()),
        (Ok(Some(oid)), rest) => match purpose_of(oid) {
            None => Err(ErrorModel::UnexpectedOid(oid)),
            Some(purpose) => {
                proof {
                    if s.len() > 0 {
                        lemma_next_shrinks(s);
                    }
                }
                match purposes_of(rest) {
                    Err(e) => Err(e),
                    Ok(purposes) => Ok(seq![purpose] + purposes),
                }
            },
        },
    }
}

/// The extended key usage in `s`: one SEQUENCE of object identifiers.
pub open spec fn extended_key_usage_of(s: Seq<u8>) -> Result<
    Seq<ExtendedKeyUsagePurpose>,
    ErrorModel,
> {
    match single_of::<Sequence>(s) {
        Err(e) => Err(e),
        Ok(contents) => purposes_of(contents),
    }
}

/// The purposes that a key may be used for beyond its basic usages.
#[derive(Debug, PartialEq, Eq)]
pub struct ExtendedKeyUsage {
    pub ext_key_usages: Vec<ExtendedKeyUsagePurpose>,
}

impl View for ExtendedKeyUsage {
    type V = Seq<ExtendedKeyUsagePurpose>;

    open spec fn view(&self) -> Seq<ExtendedKeyUsagePurpose> {
        self.ext_key_usages@
    }
}

impl ExtendedKeyUsage {
    /// Reads an extended key usage from the octets of its extension.
    pub fn parse(input: &[u8]) -> (r: Result<ExtendedKeyUsage, ASNError>)
        ensures
            result_model(r) == extended_key_usage_of(input@),
    {
        let mut parser = Parser::unwrap_outer_sequence(input)?;
        let mut purposes: Vec<ExtendedKeyUsagePurpose> = Vec::new();
        let ghost contents = parser@;
        loop
            invariant
                match purposes_of(parser@) {
                    Ok(rest) => purposes_of(contents) == Ok::<
                        Seq<ExtendedKeyUsagePurpose>,
                        ErrorModel,
                    >(purposes@ + rest),
                    Err(e) => purposes_of(contents) == Err::<
                        Seq<ExtendedKeyUsagePurpose>,
                        ErrorModel,
                    >(e),
                },
                extended_key_usage_of(input@) == purposes_of(contents),
            decreases parser@.len(),
        {
            let ghost before = parser@;
            let ghost had = purposes@;
            let found = parser.expect_or_end::<ObjectIdentifier>()?;
            match found {
                None => {
                    return Ok(ExtendedKeyUsage { ext_key_usages: purposes });
                },
                Some(oid) => {
                    proof {
                        lemma_next_shrinks(before);
                    }
                    match ExtendedKeyUsagePurpose::try_from_id(&oid) {
                        Some(purpose) => {
                            purposes.push(purpose);
                            proof {
                                if let Ok(rest) = purposes_of(parser@) {
                                    assert(had.push(purpose) + rest =~= had + (seq![purpose]
                                        + rest));
                                }
                            }
                        },
                        None => {
                            return Err(ASNError::UnexpectedOid(oid));
                        },
                    }
                },
            }
        }
    }
}

/// The role of a Modbus device.
#[derive(Debug, PartialEq, Eq, Clone, Copy)]
pub struct ModbusRole<'a> {
    pub role: &'a str,
}

impl<'a> View for ModbusRole<'a> {
    type V = Seq<char>;

    open spec fn view(&self) -> Seq<char> {
        self.role@
    }
}

impl<'a> ModbusRole<'a> {
    /// Reads a Modbus role from the octets of its extension: one UTF8String.
    pub fn parse(input: &'a [u8]) -> (r: Result<ModbusRole<'a>, ASNError>)
        ensures
            result_model(r) == single_of::<UTF8String>(input@),
    {
        let one_string = |parser: &mut Parser<'a>| -> (r: Result<&'a str, ASNError>)
            ensures
                (result_model(r), (*final(parser))@) == expect_of::<UTF8String>((*old(parser))@),
            { parser.expect::<UTF8String>() };
        let role = Parser::parse_all(input, one_string)?;
        Ok(Self { role })
    }
}

/// The content of an extension, by its kind.
#[derive(Debug, PartialEq, Eq)]
pub enum SpecificExtension<'a> {
    SubjectKeyIdentifier(SubjectKeyIdentifier<'a>),
    KeyUsage(KeyUsage),
    SubjectAlternativeName(SubjectAlternativeName<'a>),
    BasicConstraints(BasicConstraints),
    ExtendedKeyUsage(ExtendedKeyUsage),
    ModbusRole(ModbusRole<'a>),
    Unknown(&'a [u8]),
}

/// What the content of an extension holds.
pub enum SpecificExtensionModel {
    SubjectKeyIdentifier(Seq<u8>),
    KeyUsage(KeyUsage),
    SubjectAlternativeName(Seq<GeneralNameModel>),
    BasicConstraints(BasicConstraints),
    ExtendedKeyUsage(Seq<ExtendedKeyUsagePurpose>),
    ModbusRole(Seq<char>),
    Unknown(Seq<u8>),
}

impl<'a> View for SpecificExtension<'a> {
    type V = SpecificExtensionModel;

    open spec fn view(&self) -> SpecificExtensionModel {
        match self {
            SpecificExtension::SubjectKeyIdentifier(x) => SpecificExtensionModel::SubjectKeyIdentifier(
                x@,
            ),
            SpecificExtension::KeyUsage(x) => SpecificExtensionModel::KeyUsage(*x),
            SpecificExtension::SubjectAlternativeName(x) => SpecificExtensionModel::SubjectAlternativeName(
            x@),
            SpecificExtension::BasicConstraints(x) => SpecificExtensionModel::BasicConstraints(*x),
            SpecificExtension::ExtendedKeyUsage(x) => SpecificExtensionModel::ExtendedKeyUsage(x@),
            SpecificExtension::ModbusRole(x) => SpecificExtensionModel::ModbusRole(x@),
            SpecificExtension::Unknown(x) => SpecificExtensionModel::Unknown(x@),
        }
    }
}

/// The name of each kind of extension.
pub open spec fn extension_name(content: SpecificExtensionModel) -> Seq<char> {
    match content {
        SpecificExtensionModel::SubjectKeyIdentifier(_) => "Subject Key Identifier"@,
        SpecificExtensionModel::KeyUsage(_) => "Key Usage"@,
        SpecificExtensionModel::SubjectAlternativeName(_) => "Subject Alternative Name"@,
        SpecificExtensionModel::BasicConstraints(_) => "Basic Constraints"@,
        SpecificExtensionModel::ExtendedKeyUsage(_) => "Extended Key Usage"@,
        SpecificExtensionModel::ModbusRole(_) => "Modbus Role"@,
        SpecificExtensionModel::Unknown(_) => "Unknown"@,
    }
}

impl<'a> SpecificExtension<'a> {
    /// The name of the kind of this extension.
    pub fn name(&self) -> (r: &'static str)
        ensures
            r@ == extension_name(self@),
    {
        match self {
            Self::SubjectKeyIdentifier(_) => "Subject Key Identifier",
            Self::KeyUsage(_) => "Key Usage",
            Self::SubjectAlternativeName(_) => "Subject Alternative Name",
            Self::BasicConstraints(_) => "Basic Constraints",
            Self::ExtendedKeyUsage(_) => "Extended Key Usage",
            Self::ModbusRole(_) => "Modbus Role",
            Self::Unknown(_) => "Unknown",
        }
    }
}

/// The content of the extension `oid` with octets `raw`: that of the kind
/// that `oid` stands for, or the octets as they are where it stands for none.
pub open spec fn specific_extension_of(oid: Seq<u32>, raw: Seq<u8>) -> Result<
    SpecificExtensionModel,
    ErrorModel,
> {
    if oid == subject_key_identifier_oid() {
        match expect_of::<OctetString>(raw).0 {
            Ok(x) => Ok(SpecificExtensionModel::SubjectKeyIdentifier(x)),
            Err(e) => Err(e),
        }
    } else if oid == key_usage_oid() {
        match expect_of::<BitString>(raw).0 {
            Ok(bits) => Ok(SpecificExtensionModel::KeyUsage(key_usage_of(bits))),
            Err(e) => Err(e),
        }
    } else if oid == subject_alternative_name_oid() {
        match subject_alternative_name_of(raw) {
            Ok(x) => Ok(SpecificExtensionModel::SubjectAlternativeName(x)),
            Err(e) => Err(e),
        }
    } else if oid == basic_constraints_oid() {
        match basic_constraints_of(raw) {
            Ok(x) => Ok(SpecificExtensionModel::BasicConstraints(x)),
            Err(e) => Err(e),
        }
    } else if oid == extended_key_usage_oid() {
        match extended_key_usage_of(raw) {
            Ok(x) => Ok(SpecificExtensionModel::ExtendedKeyUsage(x)),
            Err(e) => Err(e),
        }
    } else if oid == modbus_role_oid() {
        match single_of::<UTF8String>(raw) {
            Ok(x) => Ok(SpecificExtensionModel::ModbusRole(x)),
            Err(e) => Err(e),
        }
    } else {
        Ok(SpecificExtensionModel::Unknown(raw))
    }
}

/// The kinds of extension that are known by their object identifier.
#[derive(Debug, PartialEq, Eq, Clone, Copy, Structural)]
pub enum ExtensionKind {
    SubjectKeyIdentifier,
    KeyUsage,
    SubjectAlternativeName,
    BasicConstraints,
    ExtendedKeyUsage,
    ModbusRole,
}

/// The kind of extension that an object identifier stands for.
pub open spec fn extension_kind_of(oid: Seq<u32>) -> Option<ExtensionKind> {
    if oid == subject_key_identifier_oid() {
        Some(ExtensionKind::SubjectKeyIdentifier)
    } else if oid == key_usage_oid() {
        Some(ExtensionKind::KeyUsage)
    } else if oid == subject_alternative_name_oid() {
        Some(ExtensionKind::SubjectAlternativeName)
    } else if oid == basic_constraints_oid() {
        Some(ExtensionKind::BasicConstraints)
    } else if oid == extended_key_usage_oid() {
        Some(ExtensionKind::ExtendedKeyUsage)
    } else if oid == modbus_role_oid() {
        Some(ExtensionKind::ModbusRole)
    } else {
        None
    }
}

/// The kind of extension that an object identifier stands for, if it is a known one.
pub fn extension_kind(oid: &ASNObjectIdentifier) -> (r: Option<ExtensionKind>)
    ensures
        r == extension_kind_of(oid@),
{
    let ski: [u32; 4] = [2, 5, 29, 14];
    let ku: [u32; 4] = [2, 5, 29, 15];
    let san: [u32; 4] = [2, 5, 29, 17];
    let bc: [u32; 4] = [2, 5, 29, 19];
    let eku: [u32; 4] = [2, 5, 29, 37];
    let modbus: [u32; 9] = [1, 3, 6, 1, 4, 1, 50316, 802, 1];
    assert(ski@ =~= subject_key_identifier_oid());
    assert(ku@ =~= key_usage_oid());
    assert(san@ =~= subject_alternative_name_oid());
    assert(bc@ =~= basic_constraints_oid());
    assert(eku@ =~= extended_key_usage_oid());
    assert(modbus@ =~= modbus_role_oid());
    if oid.is(&ski) {
        Some(ExtensionKind::SubjectKeyIdentifier)
    } else if oid.is(&ku) {
        Some(ExtensionKind::KeyUsage)
    } else if oid.is(&san) {
        Some(ExtensionKind::SubjectAlternativeName)
    } else if oid.is(&bc) {
        Some(ExtensionKind::BasicConstraints)
    } else if oid.is(&eku) {
        Some(ExtensionKind::ExtendedKeyUsage)
    } else if oid.is(&modbus) {
        Some(ExtensionKind::ModbusRole)
    } else {
        None
    }
}

/// Reads the content of the extension `oid` from its octets.
pub fn parse_specific_extension<'a>(oid: &ASNObjectIdentifier, raw: &'a [u8]) -> (r: Result<
    SpecificExtension<'a>,
    ASNError,
>)
    ensures
        result_model(r) == specific_extension_of(oid@, raw@),
{
    match extension_kind(oid) {
        Some(ExtensionKind::SubjectKeyIdentifier) => Ok(
            SpecificExtension::SubjectKeyIdentifier(SubjectKeyIdentifier::parse(raw)?),
        ),
        Some(ExtensionKind::KeyUsage) => Ok(SpecificExtension::KeyUsage(KeyUsage::parse(raw)?)),
        Some(ExtensionKind::SubjectAlternativeName) => Ok(
            SpecificExtension::SubjectAlternativeName(SubjectAlternativeName::parse(raw)?),
        ),
        Some(ExtensionKind::BasicConstraints) => Ok(
            SpecificExtension::BasicConstraints(BasicConstraints::parse(raw)?),
        ),
        Some(ExtensionKind::ExtendedKeyUsage) => Ok(
            SpecificExtension::ExtendedKeyUsage(ExtendedKeyUsage::parse(raw)?),
        ),
        Some(ExtensionKind::ModbusRole) => Ok(SpecificExtension::ModbusRole(ModbusRole::parse(raw)?)),
        None => Ok(SpecificExtension::Unknown(raw)),
    }
}

/// What an extension holds.
pub struct ExtensionModel {
    pub extn_id: Seq<u32>,
    pub critical: bool,
    pub content: SpecificExtensionModel,
}

/// One extension of a certificate.
#[derive(Debug, PartialEq, Eq)]
pub struct Extension<'a> {
    pub extn_id: ASNObjectIdentifier,
    pub critical: bool,
    pub content: SpecificExtension<'a>,
}

impl<'a> View for Extension<'a> {
    type V = ExtensionModel;

    open spec fn view(&self) -> ExtensionModel {
        ExtensionModel { extn_id: self.extn_id@, critical: self.critical, content: self.content@ }
    }
}

/// The extension in `s`: an object identifier, an optional BOOLEAN, false
/// when it is not there, an OCTET STRING that holds the content, and
/// nothing more.
pub open spec fn extension_of(s: Seq<u8>) -> Result<ExtensionModel, ErrorModel> {
    match expect_of::<ObjectIdentifier>(s) {
        (Err(e), _) => Err(e),
        (Ok(extn_id), s1) => match get_optional_or_default_of::<Boolean>(s1, false) {
            (Err(e), _) => Err(e),
            (Ok(critical), s2) => match expect_of::<OctetString>(s2) {
                (Err(e), _) => Err(e),
                (Ok(raw), s3) => match specific_extension_of(extn_id, raw) {
                    Err(e) => Err(e),
                    Ok(content) => match expect_end_of(s3).0 {
                        Err(e) => Err(e),
                        Ok(_) => Ok(ExtensionModel { extn_id, critical, content }),
                    },
                },
            },
        },
    }
}

impl<'a> Extension<'a> {
    pub fn new(extn_id: ASNObjectIdentifier, critical: bool, content: SpecificExtension<'a>) -> (r:
        Extension<'a>)
        ensures
            r.extn_id == extn_id,
            r.critical == critical,
            r.content == content,
    {
        Extension { extn_id, critical, content }
    }

    /// Reads an extension from the contents of its SEQUENCE.
    pub fn parse(input: &'a [u8]) -> (r: Result<Extension<'a>, ASNError>)
        ensures
            result_model(r) == extension_of(input@),
    {
        let mut parser = Parser::new(input);
        let oid = parser.expect::<ObjectIdentifier>()?;
        let is_critical = parser.get_optional_or_default::<Boolean>(false)?;
        let raw_content = parser.expect::<OctetString>()?;
        let content = parse_specific_extension(&oid, raw_content)?;
        parser.expect_end()?;
        Ok(Extension::new(oid, is_critical, content))
    }
}

/// The extensions that the SEQUENCEs in `s` hold, up to the end of `s`.
pub open spec fn extension_list_of(s: Seq<u8>) -> Result<Seq<ExtensionModel>, ErrorModel>
    decreases s.len(),
{
    match expect_or_end_of::<Sequence>(s) {
        (Err(e), _) => Err(e),
        (Ok(None), _) => Ok(Seq::empty()),
        (Ok(Some(entry)), rest) => match extension_of(entry) {
            Err(e) => Err(e),
            Ok(extension) => {
                proof {
                    if s.len() > 0 {
                        lemma_next_shrinks(s);
                    }
                }
                match extension_list_of(rest) {
                    Err(e) => Err(e),
                    Ok(extensions) => Ok(seq![extension] + extensions),
                }
            },
        },
    }
}

/// The extensions that `s` holds: one SEQUENCE of extensions.
pub open spec fn extensions_of(s: Seq<u8>) -> Result<Seq<ExtensionModel>, ErrorModel> {
    match single_of::<Sequence>(s) {
        Err(e) => Err(e),
        Ok(contents) => extension_list_of(contents),
    }
}

/// What a list of extensions holds.
pub open spec fn extension_models(extensions: Seq<Extension>) -> Seq<ExtensionModel> {
    extensions.map_values(|x: Extension| x@)
}

/// The extensions of a certificate, kept as the bytes that hold them until
/// they are asked for.
#[derive(Debug, PartialEq, Eq, Clone, Copy)]
pub struct Extensions<'a> {
    raw_content: &'a [u8],
}

impl<'a> View for Extensions<'a> {
    type V = Seq<u8>;

    closed spec fn view(&self) -> Seq<u8> {
        self.raw_content@
    }
}

impl<'a> Extensions<'a> {
    /// The extensions that `raw_content` holds.
    pub fn new(raw_content: &'a [u8]) -> (r: Self)
        ensures
            r@ == raw_content@,
    {
        Self { raw_content }
    }

    /// The bytes that hold the extensions.
    pub fn raw_content(&self) -> (r: &'a [u8])
        ensures
            r@ == self@,
    {
        self.raw_content
    }

    /// The extensions, each read in full.
    pub fn parse(&self) -> (r: Result<Vec<Extension<'a>>, ASNError>)
        ensures
            match extensions_of(self@) {
                Ok(extensions) => r is Ok && extension_models(r->Ok_0@) == extensions,
                Err(e) => r is Err && r->Err_0@ == e,
            },
    {
        let mut extensions: Vec<Extension> = Vec::new();
        let mut parser = Parser::unwrap_outer_sequence(self.raw_content)?;
        let ghost contents = parser@;
        loop
            invariant
                match extension_list_of(parser@) {
                    Ok(rest) => extension_list_of(contents) == Ok::<Seq<ExtensionModel>, ErrorModel>(
                        extension_models(extensions@) + rest,
                    ),
                    Err(e) => extension_list_of(contents) == Err::<Seq<ExtensionModel>, ErrorModel>(
                        e,
                    ),
                },
                extensions_of(self@) == extension_list_of(contents),
            decreases parser@.len(),
        {
            let ghost before = parser@;
            let ghost had = extensions@;
            let found = parser.expect_or_end::<Sequence>()?;
            match found {
                None => {
                    return Ok(extensions);
                },
                Some(seq) => {
                    proof {
                        lemma_next_shrinks(before);
                    }
                    let extension = Extension::parse(seq)?;
                    let ghost model = extension@;
                    extensions.push(extension);
                    proof {
                        assert(extension_models(extensions@) =~= extension_models(had).push(model));
                        if let Ok(rest) = extension_list_of(parser@) {
                            assert(extension_models(had).push(model) + rest =~= extension_models(
                                had,
                            ) + (seq![model] + rest));
                        }
                    }
                },
            }
        }
    }
}

} // verus!
