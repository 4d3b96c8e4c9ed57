//! Certificates: the grammar of a certificate over a stream of values.

use crate::decoder::contents_of;
use crate::decoder::decode_one;
use crate::decoder::kind_of;
use crate::decoder::lemma_value_parts;
use crate::ext::Extensions;
use crate::length::decode_length;
use crate::name::Name;
use crate::parser::expect_any_or_end_of;
use crate::parser::expect_end_of;
use crate::parser::expect_of;
use crate::parser::get_optional_explicit_tag_of;
use crate::parser::get_optional_explicit_tag_value_of;
use crate::parser::single_of;
use crate::parser::Parser;
use crate::types::identifier_of;
use crate::types::result_model;
use crate::types::signed_value;
use crate::types::ASNBitString;
use crate::types::ASNError;
use crate::types::ASNInteger;
use crate::types::ASNObjectIdentifier;
use crate::types::ASNType;
use crate::types::ASNTypeId;
use crate::types::BitString;
use crate::types::BitStringModel;
use crate::types::ErrorModel;
use crate::types::Integer;
use crate::types::ObjectIdentifier;
use crate::types::Sequence;
use crate::types::TypeModel;
use crate::types::UtcTime;
use vstd::prelude::*;

verus! {

/// A decoded value together with the bytes it was decoded from: the
/// contents of its SEQUENCE, without identifier and length.
#[derive(Debug)]
pub struct Constructed<'a, T> {
    pub bytes: &'a [u8],
    pub value: T,
}

impl<'a, T> Constructed<'a, T> {
    pub fn new(bytes: &'a [u8], value: T) -> (r: Constructed<'a, T>)
        ensures
            r.bytes@ == bytes@,
            r.value == value,
    {
        Constructed { bytes, value }
    }
}

/// What an algorithm identifier holds.
pub struct AlgorithmIdentifierModel {
    pub algorithm: Seq<u32>,
    pub parameters: Option<TypeModel>,
}

/// An algorithm and its parameters, if it has any.
#[derive(Debug)]
pub struct AlgorithmIdentifier<'a> {
    pub algorithm: ASNObjectIdentifier,
    pub parameters: Option<ASNType<'a>>,
}

impl<'a> View for AlgorithmIdentifier<'a> {
    type V = AlgorithmIdentifierModel;

    open spec fn view(&self) -> AlgorithmIdentifierModel {
        AlgorithmIdentifierModel {
            algorithm: self.algorithm@,
            parameters: match self.parameters {
                Some(p) => Some(p@),
                None => None,
            },
        }
    }
}

/// The algorithm identifier in `s`: an object identifier, and after it any
/// one value or nothing.
pub open spec fn algorithm_identifier_of(s: Seq<u8>) -> Result<
    AlgorithmIdentifierModel,
    ErrorModel,
> {
    match expect_of::<ObjectIdentifier>(s) {
        (Err(e), _) => Err(e),
        (Ok(algorithm), rest) => match expect_any_or_end_of(rest).0 {
            Err(e) => Err(e),
            Ok(parameters) => Ok(AlgorithmIdentifierModel { algorithm, parameters }),
        },
    }
}

impl<'a> AlgorithmIdentifier<'a> {
    pub fn new(algorithm: ASNObjectIdentifier, parameters: Option<ASNType<'a>>) -> (r:
        AlgorithmIdentifier<'a>)
        ensures
            r.algorithm == algorithm,
            r.parameters == parameters,
    {
        AlgorithmIdentifier { algorithm, parameters }
    }

    /// Reads an algorithm identifier from the contents of its SEQUENCE.
    pub fn parse(input: &'a [u8]) -> (r: Result<AlgorithmIdentifier<'a>, ASNError>)
        ensures
            result_model(r) == algorithm_identifier_of(input@),
    {
        let mut parser = Parser::new(input);
        let algorithm = parser.expect::<ObjectIdentifier>()?;
        let parameters = parser.expect_any_or_end()?;
        Ok(AlgorithmIdentifier::new(algorithm, parameters))
    }
}

/// The version of a certificate.
#[derive(Debug, PartialEq, Eq, Clone, Copy, Structural)]
pub enum Version {
    V1,
    V2,
    V3,
}

/// What a validity holds: two instants, in seconds since the epoch.
pub struct ValidityModel {
    pub not_before: i64,
    pub not_after: i64,
}

/// The span of time in which a certificate is valid.
#[derive(Debug, PartialEq, Eq, Clone, Copy)]
pub struct Validity {
    pub not_before: UtcTime,
    pub not_after: UtcTime,
}

impl View for Validity {
    type V = ValidityModel;

    open spec fn view(&self) -> ValidityModel {
        ValidityModel { not_before: self.not_before.value, not_after: self.not_after.value }
    }
}

/// The validity in `s`: two instants and nothing more.
pub open spec fn validity_of(s: Seq<u8>) -> Result<ValidityModel, ErrorModel> {
    match expect_of::<UtcTime>(s) {
        (Err(e), _) => Err(e),
        (Ok(not_before), s1) => match expect_of::<UtcTime>(s1) {
            (Err(e), _) => Err(e),
            (Ok(not_after), s2) => match expect_end_of(s2).0 {
                Err(e) => Err(e),
                Ok(_) => Ok(ValidityModel { not_before, not_after }),
            },
        },
    }
}

impl Validity {
    pub fn new(not_before: UtcTime, not_after: UtcTime) -> (r: Validity)
        ensures
            r == (Validity { not_before, not_after }),
    {
        Validity { not_before, not_after }
    }

    /// Reads a validity from the contents of its SEQUENCE.
    pub fn parse(input: &[u8]) -> (r: Result<Validity, ASNError>)
        ensures
            result_model(r) == validity_of(input@),
    {
        let two_instants = |parser: &mut Parser| -> (r: Result<Validity, ASNError>)
            ensures
                match expect_of::<UtcTime>((*old(parser))@) {
                    (Err(e), _) => r is Err && r->Err_0@ == e,
                    (Ok(not_before), s1) => match expect_of::<UtcTime>(s1) {
                        (Err(e), _) => r is Err && r->Err_0@ == e,
                        (Ok(not_after), s2) => r is Ok && r->Ok_0@ == (ValidityModel {
                            not_before,
                            not_after,
                        }) && (*final(parser))@ == s2,
                    },
                },
            {
                let not_before = parser.expect::<UtcTime>()?;
                let not_after = parser.expect::<UtcTime>()?;
                Ok(Validity::new(not_before, not_after))
            };
        Parser::parse_all(input, two_instants)
    }

    /// True when `now` is neither before the first instant nor after the last.
    pub fn is_valid(&self, now: UtcTime) -> (r: bool)
        ensures
            r == (self.not_before.value <= now.value <= self.not_after.value),
    {
        now.value >= self.not_before.value && now.value <= self.not_after.value
    }
}

/// What a subject public key info holds.
pub struct SubjectPublicKeyInfoModel {
    pub algorithm: AlgorithmIdentifierModel,
    pub subject_public_key: BitStringModel,
}

/// A public key and the algorithm it is for.
#[derive(Debug)]
pub struct SubjectPublicKeyInfo<'a> {
    pub algorithm: AlgorithmIdentifier<'a>,
    pub subject_public_key: ASNBitString<'a>,
}

impl<'a> View for SubjectPublicKeyInfo<'a> {
    type V = SubjectPublicKeyInfoModel;

    open spec fn view(&self) -> SubjectPublicKeyInfoModel {
        SubjectPublicKeyInfoModel {
            algorithm: self.algorithm@,
            subject_public_key: self.subject_public_key@,
        }
    }
}

/// The subject public key info in `s`: the SEQUENCE of an algorithm
/// identifier, a bit string, and nothing more.
pub open spec fn subject_public_key_info_of(s: Seq<u8>) -> Result<
    SubjectPublicKeyInfoModel,
    ErrorModel,
> {
    match expect_of::<Sequence>(s) {
        (Err(e), _) => Err(e),
        (Ok(inner), s1) => match algorithm_identifier_of(inner) {
            Err(e) => Err(e),
            Ok(algorithm) => match expect_of::<BitString>(s1) {
                (Err(e), _) => Err(e),
                (Ok(subject_public_key), s2) => match expect_end_of(s2).0 {
                    Err(e) => Err(e),
                    Ok(_) => Ok(SubjectPublicKeyInfoModel { algorithm, subject_public_key }),
                },
            },
        },
    }
}

impl<'a> SubjectPublicKeyInfo<'a> {
    pub fn new(algorithm: AlgorithmIdentifier<'a>, subject_public_key: ASNBitString<'a>) -> (r:
        SubjectPublicKeyInfo<'a>)
        ensures
            r.algorithm == algorithm,
            r.subject_public_key == subject_public_key,
    {
        SubjectPublicKeyInfo { algorithm, subject_public_key }
    }

    /// Reads a subject public key info from the contents of its SEQUENCE.
    pub fn parse(input: &'a [u8]) -> (r: Result<SubjectPublicKeyInfo<'a>, ASNError>)
        ensures
            result_model(r) == subject_public_key_info_of(input@),
    {
        let mut parser = Parser::new(input);
        let inner = parser.expect::<Sequence>()?;
        let algorithm = AlgorithmIdentifier::parse(inner)?;
        let subject_public_key = parser.expect::<BitString>()?;
        parser.expect_end()?;
        Ok(SubjectPublicKeyInfo::new(algorithm, subject_public_key))
    }
}


/// The version that the integer with contents `bytes` stands for.
pub open spec fn version_from(bytes: Seq<u8>) -> Result<Version, ErrorModel> {
    if 1 <= bytes.len() <= 4 {
        let x = signed_value(bytes) as i32;
        if x == 0 {
            Ok(Version::V1)
        } else if x == 1 {
            Ok(Version::V2)
        } else if x == 2 {
            Ok(Version::V3)
        } else {
            Err(ErrorModel::BadEnumValue("version"@, x))
        }
    } else {
        Err(ErrorModel::IntegerTooLarge(bytes.len() as usize))
    }
}

/// The version at the start of `s`: the integer inside the explicit tag 0,
/// or the first version where that tag does not come next.
pub open spec fn version_of(s: Seq<u8>) -> (Result<Version, ErrorModel>, Seq<u8>) {
    match get_optional_explicit_tag_value_of::<Integer>(s, 0) {
        (Err(e), rest) => (Err(e), rest),
        (Ok(None), rest) => (Ok(Version::V1), rest),
        (Ok(Some(bytes)), rest) => (version_from(bytes), rest),
    }
}

/// The unique identifier at the start of `s`, if the explicit tag `tag` comes
/// next: the one bit string inside the tag. The first version has no unique
/// identifiers, so there the tag is refused.
pub open spec fn unique_id_of(s: Seq<u8>, tag: u8, version: Version) -> (
    Result<Option<BitStringModel>, ErrorModel>,
    Seq<u8>,
) {
    match get_optional_explicit_tag_of(s, tag) {
        (Err(e), rest) => (Err(e), rest),
        (Ok(None), rest) => (Ok(None), rest),
        (Ok(Some(inner)), rest) => if version == Version::V1 {
            (Err(ErrorModel::UnexpectedTag(tag)), rest)
        } else {
            match single_of::<BitString>(inner.contents) {
                Err(e) => (Err(e), rest),
                Ok(bits) => (Ok(Some(bits)), rest),
            }
        },
    }
}

/// The extensions at the start of `s`, if the explicit tag 3 comes next: the
/// contents of the tag. Only the third version has extensions, so in the
/// others the tag is refused.
pub open spec fn optional_extensions_of(s: Seq<u8>, version: Version) -> (
    Result<Option<Seq<u8>>, ErrorModel>,
    Seq<u8>,
) {
    match get_optional_explicit_tag_of(s, 3) {
        (Err(e), rest) => (Err(e), rest),
        (Ok(None), rest) => (Ok(None), rest),
        (Ok(Some(inner)), rest) => if version == Version::V3 {
            (Ok(Some(inner.contents)), rest)
        } else {
            (Err(ErrorModel::UnexpectedTag(3)), rest)
        },
    }
}

/// What the body of a certificate holds.
pub struct TBSCertificateModel {
    pub version: Version,
    pub serial_number: Seq<u8>,
    pub signature: AlgorithmIdentifierModel,
    pub issuer: Seq<u8>,
    pub validity: ValidityModel,
    pub subject: Seq<u8>,
    pub subject_public_key_info: SubjectPublicKeyInfoModel,
    pub issuer_unique_id: Option<BitStringModel>,
    pub subject_unique_id: Option<BitStringModel>,
    pub extensions: Option<Seq<u8>>,
}

impl TBSCertificateModel {
    /// Unique identifiers come with the second version, extensions with the third.
    pub open spec fn version_allows_fields(self) -> bool {
        &&& self.issuer_unique_id is Some ==> self.version != Version::V1
        &&& self.subject_unique_id is Some ==> self.version != Version::V1
        &&& self.extensions is Some ==> self.version == Version::V3
    }
}

/// The body of a certificate: what is signed.
#[derive(Debug)]
pub struct TBSCertificate<'a> {
    pub version: Version,
    pub serial_number: ASNInteger<'a>,
    pub signature: AlgorithmIdentifier<'a>,
    pub issuer: Name<'a>,
    pub validity: Validity,
    pub subject: Name<'a>,
    pub subject_public_key_info: SubjectPublicKeyInfo<'a>,
    pub issuer_unique_id: Option<ASNBitString<'a>>,
    pub subject_unique_id: Option<ASNBitString<'a>>,
    pub extensions: Option<Extensions<'a>>,
}

impl<'a> View for TBSCertificate<'a> {
    type V = TBSCertificateModel;

    open spec fn view(&self) -> TBSCertificateModel {
        TBSCertificateModel {
            version: self.version,
            serial_number: self.serial_number@,
            signature: self.signature@,
            issuer: self.issuer@,
            validity: self.validity@,
            subject: self.subject@,
            subject_public_key_info: self.subject_public_key_info@,
            issuer_unique_id: match self.issuer_unique_id {
                Some(b) => Some(b@),
                None => None,
            },
            subject_unique_id: match self.subject_unique_id {
                Some(b) => Some(b@),
                None => None,
            },
            extensions: match self.extensions {
                Some(x) => Some(x@),
                None => None,
            },
        }
    }
}

/// The fields of a certificate body that follow the subject public key info
/// in `s`: the two unique identifiers and the extensions, each optional, and
/// nothing more.
pub open spec fn tbs_certificate_tail_of(s: Seq<u8>, version: Version) -> Result<
    (Option<BitStringModel>, Option<BitStringModel>, Option<Seq<u8>>),
    ErrorModel,
> {
    match unique_id_of(s, 1, version) {
        (Err(e), _) => Err(e),
        (Ok(issuer_unique_id), s1) => match unique_id_of(s1, 2, version) {
            (Err(e), _) => Err(e),
            (Ok(subject_unique_id), s2) => match optional_extensions_of(s2, version) {
                (Err(e), _) => Err(e),
                (Ok(extensions), s3) => match expect_end_of(s3).0 {
                    Err(e) => Err(e),
                    Ok(_) => Ok((issuer_unique_id, subject_unique_id, extensions)),
                },
            },
        },
    }
}

/// The body of a certificate in `s`, field by field in the order of the grammar.
pub open spec fn tbs_certificate_of(s: Seq<u8>) -> Result<TBSCertificateModel, ErrorModel> {
    match version_of(s) {
        (Err(e), _) => Err(e),
        (Ok(version), s1) => match expect_of::<Integer>(s1) {
            (Err(e), _) => Err(e),
            (Ok(serial_number), s2) => match expect_of::<Sequence>(s2) {
                (Err(e), _) => Err(e),
                (Ok(signature_bytes), s3) => match algorithm_identifier_of(signature_bytes) {
                    Err(e) => Err(e),
                    Ok(signature) => match expect_of::<Sequence>(s3) {
                        (Err(e), _) => Err(e),
                        (Ok(issuer), s4) => match expect_of::<Sequence>(s4) {
                            (Err(e), _) => Err(e),
                            (Ok(validity_bytes), s5) => match validity_of(validity_bytes) {
                                Err(e) => Err(e),
                                Ok(validity) => match expect_of::<Sequence>(s5) {
                                    (Err(e), _) => Err(e),
                                    (Ok(subject), s6) => match expect_of::<Sequence>(s6) {
                                        (Err(e), _) => Err(e),
                                        (Ok(key_bytes), s7) => match subject_public_key_info_of(
                                            key_bytes,
                                        ) {
                                            Err(e) => Err(e),
                                            Ok(subject_public_key_info) => match tbs_certificate_tail_of(
                                            s7, version) {
                                                Err(e) => Err(e),
                                                Ok(tail) => Ok(
                                                    TBSCertificateModel {
                                                        version,
                                                        serial_number,
                                                        signature,
                                                        issuer,
                                                        validity,
                                                        subject,
                                                        subject_public_key_info,
                                                        issuer_unique_id: tail.0,
                                                        subject_unique_id: tail.1,
                                                        extensions: tail.2,
                                                    },
                                                ),
                                            },
                                        },
                                    },
                                },
                            },
                        },
                    },
                },
            },
        },
    }
}

/// The version at the parser's position.
pub fn parse_version(parser: &mut Parser) -> (r: Result<Version, ASNError>)
    ensures
        (result_model_plain(r), final(parser)@) == version_of(old(parser)@),
{
    match parser.get_optional_explicit_tag_value::<Integer>(0)? {
        Some(value) => match value.as_i32() {
            Some(0) => Ok(Version::V1),
            Some(1) => Ok(Version::V2),
            Some(2) => Ok(Version::V3),
            Some(x) => Err(ASNError::BadEnumValue("version", x)),
            None => Err(ASNError::IntegerTooLarge(value.bytes.len())),
        },
        None => Ok(Version::V1),
    }
}

/// A result whose value is its own view, with its error taken by its view.
pub open spec fn result_model_plain<T>(r: Result<T, ASNError>) -> Result<T, ErrorModel> {
    match r {
        Ok(v) => Ok(v),
        Err(e) => Err(e@),
    }
}

/// The unique identifier under `tag` at the parser's position, if there is one.
pub fn parse_optional_bitstring<'a>(parser: &mut Parser<'a>, tag: u8, version: Version) -> (r:
    Result<Option<ASNBitString<'a>>, ASNError>)
    ensures
        (crate::parser::optional_model(r), final(parser)@) == unique_id_of(
            old(parser)@,
            tag,
            version,
        ),
{
    match parser.get_optional_explicit_tag(tag)? {
        Some(inner) => {
            if version == Version::V1 {
                return Err(ASNError::UnexpectedTag(tag));
            }
            let bits = Parser::parse_single::<BitString>(inner.contents)?;
            Ok(Some(bits))
        },
        None => Ok(None),
    }
}

/// The extensions at the parser's position, if there are any.
pub fn parse_extensions<'a>(parser: &mut Parser<'a>, version: Version) -> (r: Result<
    Option<Extensions<'a>>,
    ASNError,
>)
    ensures
        (crate::parser::optional_model(r), final(parser)@) == optional_extensions_of(old(parser)@, version),
{
    match parser.get_optional_explicit_tag(3)? {
        Some(inner) => {
            if version == Version::V3 {
                Ok(Some(Extensions::new(inner.contents)))
            } else {
                Err(ASNError::UnexpectedTag(3))
            }
        },
        None => Ok(None),
    }
}

impl<'a> TBSCertificate<'a> {
    pub fn new(
        version: Version,
        serial_number: ASNInteger<'a>,
        signature: AlgorithmIdentifier<'a>,
        issuer: Name<'a>,
        validity: Validity,
        subject: Name<'a>,
        subject_public_key_info: SubjectPublicKeyInfo<'a>,
        issuer_unique_id: Option<ASNBitString<'a>>,
        subject_unique_id: Option<ASNBitString<'a>>,
        extensions: Option<Extensions<'a>>,
    ) -> (r: TBSCertificate<'a>)
        ensures
            r == (TBSCertificate {
                version,
                serial_number,
                signature,
                issuer,
                validity,
                subject,
                subject_public_key_info,
                issuer_unique_id,
                subject_unique_id,
                extensions,
            }),
    {
        TBSCertificate {
            version,
            serial_number,
            signature,
            issuer,
            validity,
            subject,
            subject_public_key_info,
            issuer_unique_id,
            subject_unique_id,
            extensions,
        }
    }

    /// Reads the body of a certificate from the contents of its SEQUENCE, and
    /// keeps those contents beside it.
    pub fn parse(input: &'a [u8]) -> (r: Result<Constructed<'a, TBSCertificate<'a>>, ASNError>)
        ensures
            match tbs_certificate_of(input@) {
                Ok(model) => r is Ok && r->Ok_0.value@ == model && r->Ok_0.bytes@ == input@
                    && model.version_allows_fields(),
                Err(e) => r is Err && r->Err_0@ == e,
            },
    {
        let mut parser = Parser::new(input);
        let version = parse_version(&mut parser)?;
        let serial_number = parser.expect::<Integer>()?;
        let signature = AlgorithmIdentifier::parse(parser.expect::<Sequence>()?)?;
        let issuer = Name::new(parser.expect::<Sequence>()?);
        let validity = Validity::parse(parser.expect::<Sequence>()?)?;
        let subject = Name::new(parser.expect::<Sequence>()?);
        let subject_public_key_info = SubjectPublicKeyInfo::parse(parser.expect::<Sequence>()?)?;
        let issuer_unique_id = parse_optional_bitstring(&mut parser, 1, version)?;
        let subject_unique_id = parse_optional_bitstring(&mut parser, 2, version)?;
        let extensions = parse_extensions(&mut parser, version)?;
        parser.expect_end()?;
        Ok(
            Constructed::new(
                input,
                TBSCertificate::new(
                    version,
                    serial_number,
                    signature,
                    issuer,
                    validity,
                    subject,
                    subject_public_key_info,
                    issuer_unique_id,
                    subject_unique_id,
                    extensions,
                ),
            ),
        )
    }
}

/// What a certificate holds.
pub struct CertificateModel {
    pub tbs_bytes: Seq<u8>,
    pub tbs_certificate: TBSCertificateModel,
    pub signature_algorithm: AlgorithmIdentifierModel,
    pub signature_value: BitStringModel,
}

/// A certificate: its body with the bytes it was read from, and the signature over them.
#[derive(Debug)]
pub struct Certificate<'a> {
    pub tbs_certificate: Constructed<'a, TBSCertificate<'a>>,
    pub signature_algorithm: AlgorithmIdentifier<'a>,
    pub signature_value: ASNBitString<'a>,
}

impl<'a> View for Certificate<'a> {
    type V = CertificateModel;

    open spec fn view(&self) -> CertificateModel {
        CertificateModel {
            tbs_bytes: self.tbs_certificate.bytes@,
            tbs_certificate: self.tbs_certificate.value@,
            signature_algorithm: self.signature_algorithm@,
            signature_value: self.signature_value@,
        }
    }
}

/// The three fields of a certificate in `s`, and nothing more.
pub open spec fn certificate_fields_of(s: Seq<u8>) -> Result<CertificateModel, ErrorModel> {
    match expect_of::<Sequence>(s) {
        (Err(e), _) => Err(e),
        (Ok(tbs_bytes), s1) => match tbs_certificate_of(tbs_bytes) {
            Err(e) => Err(e),
            Ok(tbs_certificate) => match expect_of::<Sequence>(s1) {
                (Err(e), _) => Err(e),
                (Ok(algorithm_bytes), s2) => match algorithm_identifier_of(algorithm_bytes) {
                    Err(e) => Err(e),
                    Ok(signature_algorithm) => match expect_of::<BitString>(s2) {
                        (Err(e), _) => Err(e),
                        (Ok(signature_value), s3) => match expect_end_of(s3).0 {
                            Err(e) => Err(e),
                            Ok(_) => Ok(
                                CertificateModel {
                                    tbs_bytes,
                                    tbs_certificate,
                                    signature_algorithm,
                                    signature_value,
                                },
                            ),
                        },
                    },
                },
            },
        },
    }
}

/// The certificate that `input` holds: one SEQUENCE of the three fields, and
/// nothing behind it.
pub open spec fn certificate_of(input: Seq<u8>) -> Result<CertificateModel, ErrorModel> {
    match expect_of::<Sequence>(input) {
        (Err(e), _) => Err(e),
        (Ok(body), rest) => match certificate_fields_of(body) {
            Err(e) => Err(e),
            Ok(certificate) => match expect_end_of(rest).0 {
                Err(e) => Err(e),
                Ok(_) => Ok(certificate),
            },
        },
    }
}

impl<'a> Certificate<'a> {
    pub fn new(
        tbs_certificate: Constructed<'a, TBSCertificate<'a>>,
        signature_algorithm: AlgorithmIdentifier<'a>,
        signature_value: ASNBitString<'a>,
    ) -> (r: Certificate<'a>)
        ensures
            r.tbs_certificate == tbs_certificate,
            r.signature_algorithm == signature_algorithm,
            r.signature_value == signature_value,
    {
        Certificate { tbs_certificate, signature_algorithm, signature_value }
    }

    /// Reads a certificate.
    pub fn parse(input: &'a [u8]) -> (r: Result<Certificate<'a>, ASNError>)
        ensures
            result_model(r) == certificate_of(input@),
            r matches Ok(c) ==> c@.tbs_certificate.version_allows_fields(),
    {
        let mut outer = Parser::new(input);
        let body = outer.expect::<Sequence>()?;
        let mut inner = Parser::new(body);
        let tbs_certificate = TBSCertificate::parse(inner.expect::<Sequence>()?)?;
        let signature_algorithm = AlgorithmIdentifier::parse(inner.expect::<Sequence>()?)?;
        let signature_value = inner.expect::<BitString>()?;
        inner.expect_end()?;
        outer.expect_end()?;
        Ok(Certificate::new(tbs_certificate, signature_algorithm, signature_value))
    }
}


/// The count of octets that the identifier and the length of the value at
/// the start of `s` take.
pub open spec fn header_length(s: Seq<u8>) -> int
    recommends
        decode_one(s) is Ok,
{
    1 + decode_length(s.skip(1))->Ok_0.1 as int
}

/// Where a SEQUENCE is read off a stream, what is handed out are its
/// contents: the octets of the stream behind the identifier and the length.
pub proof fn lemma_sequence_is_its_contents(s: Seq<u8>)
    requires
        expect_of::<Sequence>(s).0 is Ok,
    ensures
        decode_one(s) is Ok,
        kind_of(identifier_of(s[0])) == Some(ASNTypeId::Sequence),
        expect_of::<Sequence>(s).0->Ok_0 == contents_of(s),
        contents_of(s) == s.subrange(
            header_length(s),
            header_length(s) + contents_of(s).len(),
        ),
        header_length(s) + contents_of(s).len() <= s.len(),
{
    lemma_value_parts(s);
}

/// The body of a certificate is read from the contents of the first
/// SEQUENCE among its fields, and those contents are kept beside it.
pub proof fn lemma_tbs_bytes_of_fields(body: Seq<u8>)
    requires
        certificate_fields_of(body) is Ok,
    ensures
        expect_of::<Sequence>(body).0 is Ok,
        certificate_fields_of(body)->Ok_0.tbs_bytes == expect_of::<Sequence>(body).0->Ok_0,
        tbs_certificate_of(certificate_fields_of(body)->Ok_0.tbs_bytes) == Ok::<
            TBSCertificateModel,
            ErrorModel,
        >(certificate_fields_of(body)->Ok_0.tbs_certificate),
{
}

/// A certificate is read from the contents of the SEQUENCE that makes up the input.
pub proof fn lemma_certificate_of_fields(input: Seq<u8>)
    requires
        certificate_of(input) is Ok,
    ensures
        expect_of::<Sequence>(input).0 is Ok,
        certificate_fields_of(expect_of::<Sequence>(input).0->Ok_0) == certificate_of(input),
{
}

/// The contents of a SEQUENCE inside the contents of a SEQUENCE are a
/// stretch of the outer stream: they start behind the two headers.
pub proof fn lemma_nested_contents(input: Seq<u8>)
    requires
        expect_of::<Sequence>(input).0 is Ok,
        expect_of::<Sequence>(contents_of(input)).0 is Ok,
    ensures
        ({
            let body = contents_of(input);
            let start = header_length(input) + header_length(body);
            &&& start + contents_of(body).len() <= input.len()
            &&& contents_of(body) == input.subrange(start, start + contents_of(body).len())
        }),
{
    lemma_sequence_is_its_contents(input);
    let body = contents_of(input);
    lemma_sequence_is_its_contents(body);
    let tbs = contents_of(body);
    let start = header_length(input) + header_length(body);
    assert(tbs =~= input.subrange(start, start + tbs.len()));
}

/// The bytes that are kept beside the body of a certificate are a stretch of
/// the input, without a change: they are the contents of the SEQUENCE that is
/// the first field of the certificate, that is what follows the identifier
/// and length octets of the certificate and then those of its body.
pub proof fn lemma_tbs_bytes_are_in_input(input: Seq<u8>)
    requires
        certificate_of(input) is Ok,
    ensures
        ({
            let certificate = certificate_of(input)->Ok_0;
            let body = contents_of(input);
            let start = header_length(input) + header_length(body);
            &&& certificate.tbs_bytes == contents_of(body)
            &&& kind_of(identifier_of(body[0])) == Some(ASNTypeId::Sequence)
            &&& start + certificate.tbs_bytes.len() <= input.len()
            &&& certificate.tbs_bytes == input.subrange(
                start,
                start + certificate.tbs_bytes.len(),
            )
            &&& tbs_certificate_of(certificate.tbs_bytes) == Ok::<
                TBSCertificateModel,
                ErrorModel,
            >(certificate.tbs_certificate)
        }),
{
    lemma_certificate_of_fields(input);
    lemma_sequence_is_its_contents(input);
    let body = contents_of(input);
    lemma_tbs_bytes_of_fields(body);
    lemma_sequence_is_its_contents(body);
    lemma_nested_contents(input);
}

} // verus!
