//! Object identifiers: their decoding, and the names of those that are known.

use crate::ext::purpose_of;
use crate::ext::ExtendedKeyUsagePurpose;
use crate::name::attribute_of;
use crate::name::name_attribute;
use crate::name::NameAttribute;
use crate::types::ASNObjectIdentifier;
use crate::types::ErrorModel;
use vstd::prelude::*;

verus! {

/// The largest arc that decoding yields: four groups of seven bits.
pub const MAX_ARC: u32 = 0x0FFF_FFFF;

/// Decodes the arc that starts at `s[i]`, with `acc` the value of the groups
/// read so far: each octet adds its low seven bits, and the first octet below
/// 128 is the last. Yields the arc and the index behind it.
pub open spec fn decode_arc_from(s: Seq<u8>, i: nat, acc: nat) -> Result<(nat, nat), ErrorModel>
    decreases s.len() - i,
{
    if i > 3 {
        Err(ErrorModel::BadOidLength)
    } else if i >= s.len() {
        Err(ErrorModel::EndOfStream)
    } else {
        let sum = acc * 128 + s[i as int] % 128;
        if s[i as int] < 128 {
            Ok((sum as nat, i + 1))
        } else {
            decode_arc_from(s, i + 1, sum as nat)
        }
    }
}

/// The arc at the start of `s` and the count of octets that hold it. An arc
/// of more than four octets is refused.
pub open spec fn decode_arc(s: Seq<u8>) -> Result<(nat, nat), ErrorModel> {
    decode_arc_from(s, 0, 0)
}

/// The arcs that `s` holds one behind the other.
pub open spec fn decode_arcs(s: Seq<u8>) -> Result<Seq<u32>, ErrorModel>
    decreases s.len(),
{
    if s.len() == 0 {
        Ok(Seq::empty())
    } else {
        match decode_arc(s) {
            Err(e) => Err(e),
            Ok((arc, used)) => {
                proof {
                    lemma_decode_arc_from(s, 0, 0);
                }
                match decode_arcs(s.skip(used as int)) {
                    Err(e) => Err(e),
                    Ok(rest) => Ok(seq![arc as u32] + rest),
                }
            },
        }
    }
}

/// The arcs of an object identifier with contents `s`. The first octet holds
/// the first two arcs, as forty times the first plus the second.
pub open spec fn decode_oid(s: Seq<u8>) -> Result<Seq<u32>, ErrorModel> {
    if s.len() == 0 {
        Err(ErrorModel::EndOfStream)
    } else {
        match decode_arcs(s.skip(1)) {
            Err(e) => Err(e),
            Ok(rest) => Ok(seq![(s[0] / 40) as u32, (s[0] % 40) as u32] + rest),
        }
    }
}

/// An arc that decodes has its octets inside `s`, and is at most `MAX_ARC`.
pub proof fn lemma_decode_arc_from(s: Seq<u8>, i: nat, acc: nat)
    requires
        i <= 4,
        acc < pow128(i),
    ensures
        decode_arc_from(s, i, acc) matches Ok((arc, used)) ==> i < used <= s.len() && used <= 4
            && arc <= MAX_ARC,
    decreases s.len() - i,
{
    reveal_with_fuel(pow128, 5);
    if i <= 3 && i < s.len() && s[i as int] >= 128 {
        lemma_decode_arc_from(s, i + 1, (acc * 128 + s[i as int] % 128) as nat);
    }
}

/// 128 to the power `n`.
pub open spec fn pow128(n: nat) -> nat
    decreases n,
{
    if n == 0 {
        1
    } else {
        128 * pow128((n - 1) as nat)
    }
}

/// Every arc of a decoded list of arcs is at most `MAX_ARC`.
pub proof fn lemma_decode_arcs_bound(s: Seq<u8>)
    ensures
        decode_arcs(s) matches Ok(arcs) ==> forall|i: int|
            0 <= i < arcs.len() ==> #[trigger] arcs[i] <= MAX_ARC,
    decreases s.len(),
{
    if s.len() > 0 {
        lemma_decode_arc_from(s, 0, 0);
        if let Ok((arc, used)) = decode_arc(s) {
            lemma_decode_arcs_bound(s.skip(used as int));
        }
    }
}

/// Every arc of a decoded object identifier is at most 2^28 - 1.
pub proof fn lemma_decode_oid_bound(s: Seq<u8>)
    ensures
        decode_oid(s) matches Ok(arcs) ==> arcs.len() >= 2 && forall|i: int|
            0 <= i < arcs.len() ==> #[trigger] arcs[i] <= MAX_ARC,
{
    if s.len() > 0 {
        lemma_decode_arcs_bound(s.skip(1));
    }
}


/// An algorithm that is known by its object identifier.
#[derive(Debug, PartialEq, Eq, Clone, Copy, Structural)]
pub enum AlgorithmID {
    Ed25519,
}

/// The name of each known algorithm.
pub open spec fn algorithm_name(id: AlgorithmID) -> Seq<char> {
    match id {
        AlgorithmID::Ed25519 => "Edwards-curve Digital Signature Algorithm (EdDSA) Ed25519"@,
    }
}

impl AlgorithmID {
    /// The name.
    pub fn to_str(&self) -> (r: &'static str)
        ensures
            r@ == algorithm_name(*self),
    {
        match self {
            AlgorithmID::Ed25519 => "Edwards-curve Digital Signature Algorithm (EdDSA) Ed25519",
        }
    }
}

/// What an object identifier is known to stand for.
#[derive(Debug, PartialEq, Eq, Clone, Copy, Structural)]
pub enum KnownOID {
    CommonName,
    OrganizationName,
    OrganizationalUnitName,
    CountryName,
    StateOrProvinceName,
    LocalityName,
    Algorithm(AlgorithmID),
    KeyPurpose(ExtendedKeyUsagePurpose),
}

/// The name of each known object identifier.
pub open spec fn known_name(oid: KnownOID) -> Seq<char> {
    match oid {
        KnownOID::CommonName => "common name"@,
        KnownOID::CountryName => "country name"@,
        KnownOID::OrganizationName => "organization name"@,
        KnownOID::OrganizationalUnitName => "organizational unit name"@,
        KnownOID::StateOrProvinceName => "state or province name"@,
        KnownOID::LocalityName => "locality name"@,
        KnownOID::Algorithm(id) => algorithm_name(id),
        KnownOID::KeyPurpose(purpose) => match purpose {
            ExtendedKeyUsagePurpose::ServerAuth => "server authentication"@,
            ExtendedKeyUsagePurpose::ClientAuth => "client authentication"@,
            ExtendedKeyUsagePurpose::CodeSigning => "code signing"@,
            ExtendedKeyUsagePurpose::EmailProtection => "email protection"@,
            ExtendedKeyUsagePurpose::TimeStamping => "time stamping"@,
            ExtendedKeyUsagePurpose::OCSPSigning => "OCSP signing"@,
        },
    }
}

impl KnownOID {
    /// The name.
    pub fn to_str(&self) -> (r: &'static str)
        ensures
            r@ == known_name(*self),
    {
        match self {
            KnownOID::CommonName => "common name",
            KnownOID::CountryName => "country name",
            KnownOID::OrganizationName => "organization name",
            KnownOID::OrganizationalUnitName => "organizational unit name",
            KnownOID::StateOrProvinceName => "state or province name",
            KnownOID::LocalityName => "locality name",
            KnownOID::Algorithm(id) => id.to_str(),
            KnownOID::KeyPurpose(purpose) => match purpose {
                ExtendedKeyUsagePurpose::ServerAuth => "server authentication",
                ExtendedKeyUsagePurpose::ClientAuth => "client authentication",
                ExtendedKeyUsagePurpose::CodeSigning => "code signing",
                ExtendedKeyUsagePurpose::EmailProtection => "email protection",
                ExtendedKeyUsagePurpose::TimeStamping => "time stamping",
                ExtendedKeyUsagePurpose::OCSPSigning => "OCSP signing",
            },
        }
    }
}

/// The object identifier of Ed25519.
pub open spec fn ed25519_oid() -> Seq<u32> {
    seq![1u32, 3, 101, 112]
}

/// What the object identifier with arcs `arcs` is known to stand for: the
/// Ed25519 algorithm, an attribute of a name, or a purpose of a key.
pub open spec fn known_oid_of(arcs: Seq<u32>) -> Option<KnownOID> {
    if arcs == ed25519_oid() {
        Some(KnownOID::Algorithm(AlgorithmID::Ed25519))
    } else {
        match attribute_of(arcs) {
            Some(NameAttribute::CommonName) => Some(KnownOID::CommonName),
            Some(NameAttribute::CountryName) => Some(KnownOID::CountryName),
            Some(NameAttribute::LocalityName) => Some(KnownOID::LocalityName),
            Some(NameAttribute::StateOrProvinceName) => Some(KnownOID::StateOrProvinceName),
            Some(NameAttribute::Organization) => Some(KnownOID::OrganizationName),
            Some(NameAttribute::OrganizationalUnitName) => Some(KnownOID::OrganizationalUnitName),
            None => match purpose_of(arcs) {
                Some(purpose) => Some(KnownOID::KeyPurpose(purpose)),
                None => None,
            },
        }
    }
}

/// Looks an object identifier up among the known ones.
pub fn get_oid(id: &ASNObjectIdentifier) -> (r: Option<KnownOID>)
    ensures
        r == known_oid_of(id@),
{
    let ed25519: [u32; 4] = [1, 3, 101, 112];
    assert(ed25519@ =~= ed25519_oid());
    if id.is(&ed25519) {
        return Some(KnownOID::Algorithm(AlgorithmID::Ed25519));
    }
    match name_attribute(id) {
        Some(NameAttribute::CommonName) => Some(KnownOID::CommonName),
        Some(NameAttribute::CountryName) => Some(KnownOID::CountryName),
        Some(NameAttribute::LocalityName) => Some(KnownOID::LocalityName),
        Some(NameAttribute::StateOrProvinceName) => Some(KnownOID::StateOrProvinceName),
        Some(NameAttribute::Organization) => Some(KnownOID::OrganizationName),
        Some(NameAttribute::OrganizationalUnitName) => Some(KnownOID::OrganizationalUnitName),
        None => match ExtendedKeyUsagePurpose::try_from_id(id) {
            Some(purpose) => Some(KnownOID::KeyPurpose(purpose)),
            None => None,
        },
    }
}

} // verus!
