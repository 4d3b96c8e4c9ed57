//! The typed values that a DER stream decodes to, and the errors of decoding.

use vstd::prelude::*;

verus! {

/// The two highest bits of an identifier octet.
#[derive(Debug, PartialEq, Eq, Clone, Copy, Structural)]
pub enum TagClass {
    Universal,
    Application,
    ContextSpecific,
    Private,
}

/// Bit 5 of an identifier octet.
#[derive(Debug, PartialEq, Eq, Clone, Copy, Structural)]
pub enum PC {
    Primitive,
    Constructed,
}

/// A decoded identifier octet.
#[derive(Debug, PartialEq, Eq, Clone, Copy, Structural)]
pub struct Identifier {
    pub class: TagClass,
    pub pc: PC,
    pub tag: u8,
}

/// The identifier that an octet stands for: the class is the octet's two
/// highest bits, the form is the next bit, the tag number is the low five bits.
pub open spec fn identifier_of(byte: u8) -> Identifier {
    Identifier {
        class: if byte < 64 {
            TagClass::Universal
        } else if byte < 128 {
            TagClass::Application
        } else if byte < 192 {
            TagClass::ContextSpecific
        } else {
            TagClass::Private
        },
        pc: if (byte / 32) % 2 == 1 {
            PC::Constructed
        } else {
            PC::Primitive
        },
        tag: (byte % 32) as u8,
    }
}

impl Identifier {
    pub fn new(class: TagClass, pc: PC, tag: u8) -> (r: Identifier)
        ensures
            r == (Identifier { class, pc, tag }),
    {
        Identifier { class, pc, tag }
    }

    /// Decodes one identifier octet.
    pub fn from(byte: u8) -> (r: Identifier)
        ensures
            r == identifier_of(byte),
            r.tag <= 31,
    {
        let top: u8 = byte & 0b1100_0000;
        let class = if top == 0b0000_0000 {
            TagClass::Universal
        } else if top == 0b0100_0000 {
            TagClass::Application
        } else if top == 0b1000_0000 {
            TagClass::ContextSpecific
        } else {
            TagClass::Private
        };
        let pc = if (byte & 0b0010_0000) != 0 {
            PC::Constructed
        } else {
            PC::Primitive
        };
        let tag: u8 = byte & 0b0001_1111;
        assert(byte & 0b1100_0000 == 0 <==> byte < 64) by (bit_vector);
        assert(byte & 0b1100_0000 == 0b0100_0000 <==> 64 <= byte < 128) by (bit_vector);
        assert(byte & 0b1100_0000 == 0b1000_0000 <==> 128 <= byte < 192) by (bit_vector);
        assert(byte & 0b0010_0000 != 0 <==> (byte / 32) % 2 == 1) by (bit_vector);
        assert(byte & 0b0001_1111 == byte % 32) by (bit_vector);
        Identifier::new(class, pc, tag)
    }
}


/// The two's-complement big-endian value of a byte string (zero for the empty one).
pub open spec fn signed_value(bytes: Seq<u8>) -> int
    decreases bytes.len(),
{
    if bytes.len() == 0 {
        0
    } else if bytes.len() == 1 {
        if bytes[0] < 128 {
            bytes[0] as int
        } else {
            bytes[0] - 256
        }
    } else {
        signed_value(bytes.drop_last()) * 256 + bytes.last()
    }
}

/// The contents of an INTEGER, kept as bytes.
#[derive(Debug, PartialEq, Eq, Clone, Copy)]
pub struct ASNInteger<'a> {
    pub bytes: &'a [u8],
}

impl<'a> View for ASNInteger<'a> {
    type V = Seq<u8>;

    open spec fn view(&self) -> Seq<u8> {
        self.bytes@
    }
}

impl<'a> ASNInteger<'a> {
    pub fn new(bytes: &'a [u8]) -> (r: ASNInteger<'a>)
        ensures
            r@ == bytes@,
    {
        ASNInteger { bytes }
    }

    /// The value as an `i32`, for contents of one to four bytes.
    pub fn as_i32(&self) -> (r: Option<i32>)
        ensures
            1 <= self@.len() <= 4 ==> r == Some(signed_value(self@) as i32),
            1 <= self@.len() <= 4 ==> i32::MIN <= signed_value(self@) <= i32::MAX,
            !(1 <= self@.len() <= 4) ==> r is None,
    {
        let n = self.bytes.len();
        if n < 1 || n > 4 {
            return None;
        }
        let first = self.bytes[0];
        let mut acc: i64 = if first < 128 {
            first as i64
        } else {
            first as i64 - 256
        };
        let mut i: usize = 1;
        assert(pow256(1) == 256) by {
            reveal_with_fuel(pow256, 2);
        }
        while i < n
            invariant
                1 <= i <= n <= 4,
                n == self@.len(),
                acc == signed_value(self@.take(i as int)),
                -pow256(i as nat) <= 2 * acc < pow256(i as nat),
            decreases n - i,
        {
            assert(self@.take(i + 1).drop_last() =~= self@.take(i as int));
            assert(pow256(1) == 256 && pow256(2) == 65536 && pow256(3) == 16777216 && pow256(4)
                == 4294967296) by {
                reveal_with_fuel(pow256, 5);
            }
            acc = acc * 256 + self.bytes[i] as i64;
            i = i + 1;
        }
        assert(self@.take(n as int) =~= self@);
        assert(pow256(1) == 256 && pow256(2) == 65536 && pow256(3) == 16777216 && pow256(4)
            == 4294967296) by {
            reveal_with_fuel(pow256, 5);
        }
        Some(acc as i32)
    }
}

/// 256 to the power `n`.
pub open spec fn pow256(n: nat) -> int
    decreases n,
{
    if n == 0 {
        1
    } else {
        256 * pow256((n - 1) as nat)
    }
}

/// The unsigned big-endian value of a byte string.
pub open spec fn unsigned_value(bytes: Seq<u8>) -> int
    decreases bytes.len(),
{
    if bytes.len() == 0 {
        0
    } else {
        unsigned_value(bytes.drop_last()) * 256 + bytes.last()
    }
}

/// What a bit string holds: the count of unused bits in the last octet, and the octets.
pub struct BitStringModel {
    pub unused_bits: u8,
    pub bytes: Seq<u8>,
}

/// Bit `k` of an octet, counted from the most significant bit.
pub open spec fn bit_of_octet(octet: u8, k: u8) -> bool
    recommends
        k < 8,
{
    (octet >> ((7 - k) as u8)) & 1 == 1
}

impl BitStringModel {
    /// The count of bits: eight for each octet, less the unused bits; none
    /// where there are not as many bits as are said to be unused.
    pub open spec fn bit_count(self) -> int {
        if self.unused_bits <= 8 * self.bytes.len() {
            8 * self.bytes.len() - self.unused_bits
        } else {
            0
        }
    }

    /// True when the bit string has a bit at `index`.
    pub open spec fn has_bit(self, index: int) -> bool {
        0 <= index < self.bit_count()
    }

    /// The bit at `index`, the first bit being the most significant bit of the first octet.
    pub open spec fn bit(self, index: int) -> bool
        recommends
            self.has_bit(index),
    {
        bit_of_octet(self.bytes[index / 8], (index % 8) as u8)
    }

    /// The invariant of a decoded bit string.
    pub open spec fn well_formed(self) -> bool {
        self.unused_bits <= 7
    }
}

/// A BIT STRING: a count of unused trailing bits and the octets that hold the bits.
#[derive(Debug, PartialEq, Eq, Clone, Copy)]
pub struct ASNBitString<'a> {
    unused_bits: u8,
    bytes: &'a [u8],
}

impl<'a> View for ASNBitString<'a> {
    type V = BitStringModel;

    closed spec fn view(&self) -> BitStringModel {
        BitStringModel { unused_bits: self.unused_bits, bytes: self.bytes@ }
    }
}

impl<'a> ASNBitString<'a> {
    pub fn new(unused_bits: u8, bytes: &'a [u8]) -> (r: ASNBitString<'a>)
        ensures
            r@ == (BitStringModel { unused_bits, bytes: bytes@ }),
    {
        ASNBitString { unused_bits, bytes }
    }

    /// The octets, when every one of them is used in full.
    pub fn octets(&self) -> (r: Option<&'a [u8]>)
        ensures
            self@.unused_bits == 0 ==> r is Some && r->Some_0@ == self@.bytes,
            self@.unused_bits != 0 ==> r is None,
    {
        if self.unused_bits == 0 {
            Some(self.bytes)
        } else {
            None
        }
    }

    /// The count of unused bits in the last octet.
    pub fn unused_bits(&self) -> (r: u8)
        ensures
            r == self@.unused_bits,
    {
        self.unused_bits
    }

    /// The octets that hold the bits, whether the last is used in full or not.
    pub fn bytes(&self) -> (r: &'a [u8])
        ensures
            r@ == self@.bytes,
    {
        self.bytes
    }

    /// The count of bits. Eight times the count of octets has to fit in `usize`.
    pub fn size(&self) -> (r: usize)
        requires
            8 * self@.bytes.len() <= usize::MAX,
        ensures
            r == self@.bit_count(),
    {
        let all = self.bytes.len() * 8;
        let unused = self.unused_bits as usize;
        if unused <= all {
            all - unused
        } else {
            0
        }
    }

    /// The bit at `index`, or `None` past the last bit.
    pub fn get(&self, index: usize) -> (r: Option<bool>)
        ensures
            self@.has_bit(index as int) ==> r == Some(self@.bit(index as int)),
            !self@.has_bit(index as int) ==> r is None,
    {
        let octet_index = index / 8;
        if octet_index >= self.bytes.len() {
            return None;
        }
        let k: u8 = (index % 8) as u8;
        if octet_index == self.bytes.len() - 1 && (k as u16) + (self.unused_bits as u16) >= 8 {
            return None;
        }
        if octet_index < self.bytes.len() - 1 && (self.unused_bits as u128) + (index as u128) >= 8
            * (self.bytes.len() as u128) {
            return None;
        }
        let octet = self.bytes[octet_index];
        Some((octet >> (7 - k)) & 1 == 1)
    }

    /// An iterator over the bits, from the first. The bit count has to fit in `usize`.
    pub fn iter(&'a self) -> (r: ASNBitStringIterator<'a>)
        requires
            8 * self@.bytes.len() <= usize::MAX,
        ensures
            r@ == (BitCursorModel { bits: self@, position: 0 }),
    {
        ASNBitStringIterator::new(self)
    }
}

/// Where an iterator over a bit string stands.
pub struct BitCursorModel {
    pub bits: BitStringModel,
    pub position: nat,
}

/// Walks the bits of a bit string in order.
pub struct ASNBitStringIterator<'a> {
    bit_string: &'a ASNBitString<'a>,
    current_bit: usize,
}

impl<'a> View for ASNBitStringIterator<'a> {
    type V = BitCursorModel;

    closed spec fn view(&self) -> BitCursorModel {
        BitCursorModel { bits: self.bit_string@, position: self.current_bit as nat }
    }
}

impl<'a> ASNBitStringIterator<'a> {
    #[verifier::type_invariant]
    spec fn positions_fit(self) -> bool {
        8 * self.bit_string@.bytes.len() <= usize::MAX
    }

    /// An iterator at the first bit. The bit count has to fit in `usize`.
    pub fn new(bit_string: &'a ASNBitString<'a>) -> (r: ASNBitStringIterator<'a>)
        requires
            8 * bit_string@.bytes.len() <= usize::MAX,
        ensures
            r@ == (BitCursorModel { bits: bit_string@, position: 0 }),
    {
        ASNBitStringIterator { bit_string, current_bit: 0 }
    }

    /// The next bit, or `None` when every bit has been handed out.
    pub fn next(&mut self) -> (r: Option<bool>)
        ensures
            old(self)@.bits.has_bit(old(self)@.position as int) ==> r == Some(
                old(self)@.bits.bit(old(self)@.position as int),
            ) && final(self)@ == (BitCursorModel {
                bits: old(self)@.bits,
                position: old(self)@.position + 1,
            }),
            !old(self)@.bits.has_bit(old(self)@.position as int) ==> r is None && final(self)@
                == old(self)@,
    {
        match self.bit_string.get(self.current_bit) {
            Some(bit) => {
                proof {
                    use_type_invariant(&*self);
                }
                self.current_bit = self.current_bit + 1;
                Some(bit)
            },
            None => None,
        }
    }
}

/// A context-specific constructed value: its tag number and its contents.
#[derive(Debug, PartialEq, Eq, Clone, Copy)]
pub struct ASNExplicitTag<'a> {
    pub value: u8,
    pub contents: &'a [u8],
}

/// What an explicit tag holds.
pub struct ExplicitTagModel {
    pub value: u8,
    pub contents: Seq<u8>,
}

impl<'a> View for ASNExplicitTag<'a> {
    type V = ExplicitTagModel;

    open spec fn view(&self) -> ExplicitTagModel {
        ExplicitTagModel { value: self.value, contents: self.contents@ }
    }
}

impl<'a> ASNExplicitTag<'a> {
    pub fn new(value: u8, contents: &'a [u8]) -> (r: ASNExplicitTag<'a>)
        ensures
            r@ == (ExplicitTagModel { value, contents: contents@ }),
    {
        ASNExplicitTag { value, contents }
    }
}

/// An OBJECT IDENTIFIER as its sequence of arcs.
#[derive(Debug, PartialEq, Eq, Clone)]
pub struct ASNObjectIdentifier {
    items: Vec<u32>,
}

impl View for ASNObjectIdentifier {
    type V = Seq<u32>;

    closed spec fn view(&self) -> Seq<u32> {
        self.items@
    }
}

impl ASNObjectIdentifier {
    pub fn new(items: Vec<u32>) -> (r: ASNObjectIdentifier)
        ensures
            r@ == items@,
    {
        ASNObjectIdentifier { items }
    }

    /// The arcs.
    pub fn values(&self) -> (r: &[u32])
        ensures
            r@ == self@,
    {
        self.items.as_slice()
    }

    /// A second identifier with the same arcs.
    pub fn duplicate(&self) -> (r: ASNObjectIdentifier)
        ensures
            r@ == self@,
    {
        let items = self.items.clone();
        ASNObjectIdentifier { items }
    }

    /// True when the arcs are exactly `arcs`.
    pub fn is(&self, arcs: &[u32]) -> (r: bool)
        ensures
            r == (self@ == arcs@),
    {
        if self.items.len() != arcs.len() {
            return false;
        }
        let mut i: usize = 0;
        while i < arcs.len()
            invariant
                i <= arcs.len(),
                arcs.len() == self.items.len(),
                forall|j: int| 0 <= j < i ==> self@[j] == arcs@[j],
            decreases arcs.len() - i,
        {
            if self.items[i] != arcs[i] {
                return false;
            }
            i = i + 1;
        }
        assert(self@ =~= arcs@);
        true
    }
}

/// An instant, as the count of non-leap seconds since 1970-01-01 00:00:00 UTC.
#[derive(Debug, PartialEq, Eq, Clone, Copy, PartialOrd)]
pub struct UtcTime {
    pub value: i64,
}

impl View for UtcTime {
    type V = i64;

    open spec fn view(&self) -> i64 {
        self.value
    }
}


/// The name of a kind of value, without its payload.
#[derive(Debug, PartialEq, Eq, Clone, Copy, Structural)]
pub enum ASNTypeId {
    Boolean,
    Sequence,
    ASNSet,
    Integer,
    PrintableString,
    IA5String,
    UTF8String,
    Null,
    UTCTime,
    BitString,
    OctetString,
    ObjectIdentifier,
    ExplicitTag,
}

/// A BOOLEAN.
#[derive(Debug, PartialEq, Eq, Clone, Copy)]
pub struct Boolean {
    pub value: bool,
}

/// An INTEGER.
#[derive(Debug, PartialEq, Eq, Clone, Copy)]
pub struct Integer<'a> {
    pub value: ASNInteger<'a>,
}

/// A PrintableString. Its text is UTF-8; no character is refused.
#[derive(Debug, PartialEq, Eq, Clone, Copy)]
pub struct PrintableString<'a> {
    pub value: &'a str,
}

/// An IA5String. Its text is UTF-8; no character is refused.
#[derive(Debug, PartialEq, Eq, Clone, Copy)]
pub struct IA5String<'a> {
    pub value: &'a str,
}

/// A UTF8String.
#[derive(Debug, PartialEq, Eq, Clone, Copy)]
pub struct UTF8String<'a> {
    pub value: &'a str,
}

/// A SEQUENCE: the stream of values that are its contents.
#[derive(Debug, PartialEq, Eq, Clone, Copy)]
pub struct Sequence<'a> {
    pub value: &'a [u8],
}

/// A SET: the stream of values that are its contents.
#[derive(Debug, PartialEq, Eq, Clone, Copy)]
pub struct ASNSet<'a> {
    pub value: &'a [u8],
}

/// An OBJECT IDENTIFIER.
#[derive(Debug, PartialEq, Eq, Clone)]
pub struct ObjectIdentifier {
    pub value: ASNObjectIdentifier,
}

/// An OCTET STRING.
#[derive(Debug, PartialEq, Eq, Clone, Copy)]
pub struct OctetString<'a> {
    pub value: &'a [u8],
}

/// A BIT STRING.
#[derive(Debug, PartialEq, Eq, Clone, Copy)]
pub struct BitString<'a> {
    pub value: ASNBitString<'a>,
}

/// A context-specific constructed value.
#[derive(Debug, PartialEq, Eq, Clone, Copy)]
pub struct ExplicitTag<'a> {
    pub value: ASNExplicitTag<'a>,
}

/// A decoded value.
#[derive(Debug, PartialEq, Eq)]
pub enum ASNType<'a> {
    Boolean(Boolean),
    Sequence(Sequence<'a>),
    ASNSet(ASNSet<'a>),
    Integer(Integer<'a>),
    PrintableString(PrintableString<'a>),
    IA5String(IA5String<'a>),
    UTF8String(UTF8String<'a>),
    Null,
    UTCTime(UtcTime),
    BitString(BitString<'a>),
    OctetString(OctetString<'a>),
    ObjectIdentifier(ObjectIdentifier),
    ExplicitTag(ExplicitTag<'a>),
}

/// What a decoded value holds.
pub enum TypeModel {
    Boolean(bool),
    Sequence(Seq<u8>),
    ASNSet(Seq<u8>),
    Integer(Seq<u8>),
    PrintableString(Seq<char>),
    IA5String(Seq<char>),
    UTF8String(Seq<char>),
    Null,
    UTCTime(i64),
    BitString(BitStringModel),
    OctetString(Seq<u8>),
    ObjectIdentifier(Seq<u32>),
    ExplicitTag(ExplicitTagModel),
}

impl TypeModel {
    /// The kind of this value.
    pub open spec fn id(self) -> ASNTypeId {
        match self {
            TypeModel::Boolean(_) => ASNTypeId::Boolean,
            TypeModel::Sequence(_) => ASNTypeId::Sequence,
            TypeModel::ASNSet(_) => ASNTypeId::ASNSet,
            TypeModel::Integer(_) => ASNTypeId::Integer,
            TypeModel::PrintableString(_) => ASNTypeId::PrintableString,
            TypeModel::IA5String(_) => ASNTypeId::IA5String,
            TypeModel::UTF8String(_) => ASNTypeId::UTF8String,
            TypeModel::Null => ASNTypeId::Null,
            TypeModel::UTCTime(_) => ASNTypeId::UTCTime,
            TypeModel::BitString(_) => ASNTypeId::BitString,
            TypeModel::OctetString(_) => ASNTypeId::OctetString,
            TypeModel::ObjectIdentifier(_) => ASNTypeId::ObjectIdentifier,
            TypeModel::ExplicitTag(_) => ASNTypeId::ExplicitTag,
        }
    }
}

impl<'a> View for ASNType<'a> {
    type V = TypeModel;

    open spec fn view(&self) -> TypeModel {
        match self {
            ASNType::Boolean(w) => TypeModel::Boolean(w.value),
            ASNType::Sequence(w) => TypeModel::Sequence(w.value@),
            ASNType::ASNSet(w) => TypeModel::ASNSet(w.value@),
            ASNType::Integer(w) => TypeModel::Integer(w.value@),
            ASNType::PrintableString(w) => TypeModel::PrintableString(w.value@),
            ASNType::IA5String(w) => TypeModel::IA5String(w.value@),
            ASNType::UTF8String(w) => TypeModel::UTF8String(w.value@),
            ASNType::Null => TypeModel::Null,
            ASNType::UTCTime(w) => TypeModel::UTCTime(w.value),
            ASNType::BitString(w) => TypeModel::BitString(w.value@),
            ASNType::OctetString(w) => TypeModel::OctetString(w.value@),
            ASNType::ObjectIdentifier(w) => TypeModel::ObjectIdentifier(w.value@),
            ASNType::ExplicitTag(w) => TypeModel::ExplicitTag(w.value@),
        }
    }
}

impl<'a> ASNType<'a> {
    /// The kind of this value.
    pub fn get_id(&self) -> (r: ASNTypeId)
        ensures
            r == self@.id(),
    {
        match self {
            ASNType::Boolean(_) => ASNTypeId::Boolean,
            ASNType::Sequence(_) => ASNTypeId::Sequence,
            ASNType::ASNSet(_) => ASNTypeId::ASNSet,
            ASNType::Integer(_) => ASNTypeId::Integer,
            ASNType::PrintableString(_) => ASNTypeId::PrintableString,
            ASNType::IA5String(_) => ASNTypeId::IA5String,
            ASNType::UTF8String(_) => ASNTypeId::UTF8String,
            ASNType::Null => ASNTypeId::Null,
            ASNType::UTCTime(_) => ASNTypeId::UTCTime,
            ASNType::BitString(_) => ASNTypeId::BitString,
            ASNType::OctetString(_) => ASNTypeId::OctetString,
            ASNType::ObjectIdentifier(_) => ASNTypeId::ObjectIdentifier,
            ASNType::ExplicitTag(_) => ASNTypeId::ExplicitTag,
        }
    }
}

/// A kind of value that a caller can ask a parser for: what identifies it,
/// and how its payload is taken out of a decoded value.
pub trait ASNWrapperType<'a> {
    type Item: View;

    /// The kind that this wrapper stands for.
    spec fn id() -> ASNTypeId;

    /// The payload of `value` when it is of this kind.
    spec fn select(value: TypeModel) -> Option<<Self::Item as View>::V>;

    /// A payload can be selected from exactly the values of this kind.
    proof fn select_by_id(value: TypeModel)
        ensures
            Self::select(value) is Some <==> value.id() == Self::id(),
    ;

    fn get_id() -> (r: ASNTypeId)
        ensures
            r == Self::id(),
    ;

    fn get_value(asn_type: ASNType<'a>) -> (r: Option<Self::Item>)
        ensures
            r is Some <==> Self::select(asn_type@) is Some,
            r matches Some(v) ==> Self::select(asn_type@) == Some(v@),
    ;
}

impl Boolean {
    /// The value that wraps `value`.
    pub fn asn<'a>(value: bool) -> (r: ASNType<'a>)
        ensures
            r@ == TypeModel::Boolean(value),
    {
        ASNType::Boolean(Boolean { value })
    }
}

impl<'a> ASNWrapperType<'a> for Boolean {
    type Item = bool;

    open spec fn id() -> ASNTypeId {
        ASNTypeId::Boolean
    }

    open spec fn select(value: TypeModel) -> Option<bool> {
        match value {
            TypeModel::Boolean(b) => Some(b),
            _ => None,
        }
    }

    proof fn select_by_id(value: TypeModel) {
    }

    fn get_id() -> (r: ASNTypeId) {
        ASNTypeId::Boolean
    }

    fn get_value(asn_type: ASNType<'a>) -> (r: Option<bool>) {
        match asn_type {
            ASNType::Boolean(wrapper) => Some(wrapper.value),
            _ => None,
        }
    }
}

impl<'a> Integer<'a> {
    /// The value that wraps `value`.
    pub fn asn(value: ASNInteger<'a>) -> (r: ASNType<'a>)
        ensures
            r@ == TypeModel::Integer(value@),
    {
        ASNType::Integer(Integer { value })
    }
}

impl<'a, 'b> ASNWrapperType<'a> for Integer<'b> {
    type Item = ASNInteger<'a>;

    open spec fn id() -> ASNTypeId {
        ASNTypeId::Integer
    }

    open spec fn select(value: TypeModel) -> Option<Seq<u8>> {
        match value {
            TypeModel::Integer(b) => Some(b),
            _ => None,
        }
    }

    proof fn select_by_id(value: TypeModel) {
    }

    fn get_id() -> (r: ASNTypeId) {
        ASNTypeId::Integer
    }

    fn get_value(asn_type: ASNType<'a>) -> (r: Option<ASNInteger<'a>>) {
        match asn_type {
            ASNType::Integer(wrapper) => Some(wrapper.value),
            _ => None,
        }
    }
}

impl<'a> PrintableString<'a> {
    /// The value that wraps `value`.
    pub fn asn(value: &'a str) -> (r: ASNType<'a>)
        ensures
            r@ == TypeModel::PrintableString(value@),
    {
        ASNType::PrintableString(PrintableString { value })
    }
}

impl<'a, 'b> ASNWrapperType<'a> for PrintableString<'b> {
    type Item = &'a str;

    open spec fn id() -> ASNTypeId {
        ASNTypeId::PrintableString
    }

    open spec fn select(value: TypeModel) -> Option<Seq<char>> {
        match value {
            TypeModel::PrintableString(s) => Some(s),
            _ => None,
        }
    }

    proof fn select_by_id(value: TypeModel) {
    }

    fn get_id() -> (r: ASNTypeId) {
        ASNTypeId::PrintableString
    }

    fn get_value(asn_type: ASNType<'a>) -> (r: Option<&'a str>) {
        match asn_type {
            ASNType::PrintableString(wrapper) => Some(wrapper.value),
            _ => None,
        }
    }
}

impl<'a> IA5String<'a> {
    /// The value that wraps `value`.
    pub fn asn(value: &'a str) -> (r: ASNType<'a>)
        ensures
            r@ == TypeModel::IA5String(value@),
    {
        ASNType::IA5String(IA5String { value })
    }
}

impl<'a, 'b> ASNWrapperType<'a> for IA5String<'b> {
    type Item = &'a str;

    open spec fn id() -> ASNTypeId {
        ASNTypeId::IA5String
    }

    open spec fn select(value: TypeModel) -> Option<Seq<char>> {
        match value {
            TypeModel::IA5String(s) => Some(s),
            _ => None,
        }
    }

    proof fn select_by_id(value: TypeModel) {
    }

    fn get_id() -> (r: ASNTypeId) {
        ASNTypeId::IA5String
    }

    fn get_value(asn_type: ASNType<'a>) -> (r: Option<&'a str>) {
        match asn_type {
            ASNType::IA5String(wrapper) => Some(wrapper.value),
            _ => None,
        }
    }
}

impl<'a> UTF8String<'a> {
    /// The value that wraps `value`.
    pub fn asn(value: &'a str) -> (r: ASNType<'a>)
        ensures
            r@ == TypeModel::UTF8String(value@),
    {
        ASNType::UTF8String(UTF8String { value })
    }
}

impl<'a, 'b> ASNWrapperType<'a> for UTF8String<'b> {
    type Item = &'a str;

    open spec fn id() -> ASNTypeId {
        ASNTypeId::UTF8String
    }

    open spec fn select(value: TypeModel) -> Option<Seq<char>> {
        match value {
            TypeModel::UTF8String(s) => Some(s),
            _ => None,
        }
    }

    proof fn select_by_id(value: TypeModel) {
    }

    fn get_id() -> (r: ASNTypeId) {
        ASNTypeId::UTF8String
    }

    fn get_value(asn_type: ASNType<'a>) -> (r: Option<&'a str>) {
        match asn_type {
            ASNType::UTF8String(wrapper) => Some(wrapper.value),
            _ => None,
        }
    }
}

impl<'a> Sequence<'a> {
    /// The value that wraps `value`.
    pub fn asn(value: &'a [u8]) -> (r: ASNType<'a>)
        ensures
            r@ == TypeModel::Sequence(value@),
    {
        ASNType::Sequence(Sequence { value })
    }
}

impl<'a, 'b> ASNWrapperType<'a> for Sequence<'b> {
    type Item = &'a [u8];

    open spec fn id() -> ASNTypeId {
        ASNTypeId::Sequence
    }

    open spec fn select(value: TypeModel) -> Option<Seq<u8>> {
        match value {
            TypeModel::Sequence(s) => Some(s),
            _ => None,
        }
    }

    proof fn select_by_id(value: TypeModel) {
    }

    fn get_id() -> (r: ASNTypeId) {
        ASNTypeId::Sequence
    }

    fn get_value(asn_type: ASNType<'a>) -> (r: Option<&'a [u8]>) {
        match asn_type {
            ASNType::Sequence(wrapper) => Some(wrapper.value),
            _ => None,
        }
    }
}

impl<'a> ASNSet<'a> {
    /// The value that wraps `value`.
    pub fn asn(value: &'a [u8]) -> (r: ASNType<'a>)
        ensures
            r@ == TypeModel::ASNSet(value@),
    {
        ASNType::ASNSet(ASNSet { value })
    }
}

impl<'a, 'b> ASNWrapperType<'a> for ASNSet<'b> {
    type Item = &'a [u8];

    open spec fn id() -> ASNTypeId {
        ASNTypeId::ASNSet
    }

    open spec fn select(value: TypeModel) -> Option<Seq<u8>> {
        match value {
            TypeModel::ASNSet(s) => Some(s),
            _ => None,
        }
    }

    proof fn select_by_id(value: TypeModel) {
    }

    fn get_id() -> (r: ASNTypeId) {
        ASNTypeId::ASNSet
    }

    fn get_value(asn_type: ASNType<'a>) -> (r: Option<&'a [u8]>) {
        match asn_type {
            ASNType::ASNSet(wrapper) => Some(wrapper.value),
            _ => None,
        }
    }
}

impl ObjectIdentifier {
    /// The value that wraps `value`.
    pub fn asn<'a>(value: ASNObjectIdentifier) -> (r: ASNType<'a>)
        ensures
            r@ == TypeModel::ObjectIdentifier(value@),
    {
        ASNType::ObjectIdentifier(ObjectIdentifier { value })
    }
}

impl<'a> ASNWrapperType<'a> for ObjectIdentifier {
    type Item = ASNObjectIdentifier;

    open spec fn id() -> ASNTypeId {
        ASNTypeId::ObjectIdentifier
    }

    open spec fn select(value: TypeModel) -> Option<Seq<u32>> {
        match value {
            TypeModel::ObjectIdentifier(s) => Some(s),
            _ => None,
        }
    }

    proof fn select_by_id(value: TypeModel) {
    }

    fn get_id() -> (r: ASNTypeId) {
        ASNTypeId::ObjectIdentifier
    }

    fn get_value(asn_type: ASNType<'a>) -> (r: Option<ASNObjectIdentifier>) {
        match asn_type {
            ASNType::ObjectIdentifier(wrapper) => Some(wrapper.value),
            _ => None,
        }
    }
}

impl<'a> OctetString<'a> {
    /// The value that wraps `value`.
    pub fn asn(value: &'a [u8]) -> (r: ASNType<'a>)
        ensures
            r@ == TypeModel::OctetString(value@),
    {
        ASNType::OctetString(OctetString { value })
    }
}

impl<'a, 'b> ASNWrapperType<'a> for OctetString<'b> {
    type Item = &'a [u8];

    open spec fn id() -> ASNTypeId {
        ASNTypeId::OctetString
    }

    open spec fn select(value: TypeModel) -> Option<Seq<u8>> {
        match value {
            TypeModel::OctetString(s) => Some(s),
            _ => None,
        }
    }

    proof fn select_by_id(value: TypeModel) {
    }

    fn get_id() -> (r: ASNTypeId) {
        ASNTypeId::OctetString
    }

    fn get_value(asn_type: ASNType<'a>) -> (r: Option<&'a [u8]>) {
        match asn_type {
            ASNType::OctetString(wrapper) => Some(wrapper.value),
            _ => None,
        }
    }
}

impl<'a> BitString<'a> {
    /// The value that wraps `value`.
    pub fn asn(value: ASNBitString<'a>) -> (r: ASNType<'a>)
        ensures
            r@ == TypeModel::BitString(value@),
    {
        ASNType::BitString(BitString { value })
    }
}

impl<'a, 'b> ASNWrapperType<'a> for BitString<'b> {
    type Item = ASNBitString<'a>;

    open spec fn id() -> ASNTypeId {
        ASNTypeId::BitString
    }

    open spec fn select(value: TypeModel) -> Option<BitStringModel> {
        match value {
            TypeModel::BitString(s) => Some(s),
            _ => None,
        }
    }

    proof fn select_by_id(value: TypeModel) {
    }

    fn get_id() -> (r: ASNTypeId) {
        ASNTypeId::BitString
    }

    fn get_value(asn_type: ASNType<'a>) -> (r: Option<ASNBitString<'a>>) {
        match asn_type {
            ASNType::BitString(wrapper) => Some(wrapper.value),
            _ => None,
        }
    }
}

impl UtcTime {
    /// The value that wraps `value`.
    pub fn asn<'a>(value: i64) -> (r: ASNType<'a>)
        ensures
            r@ == TypeModel::UTCTime(value),
    {
        ASNType::UTCTime(UtcTime { value })
    }

    /// The instant `secs` seconds after the epoch.
    pub fn from_seconds_since_epoch(secs: i64) -> (r: UtcTime)
        ensures
            r.value == secs,
    {
        UtcTime { value: secs }
    }
}

impl<'a> ASNWrapperType<'a> for UtcTime {
    type Item = UtcTime;

    open spec fn id() -> ASNTypeId {
        ASNTypeId::UTCTime
    }

    open spec fn select(value: TypeModel) -> Option<i64> {
        match value {
            TypeModel::UTCTime(s) => Some(s),
            _ => None,
        }
    }

    proof fn select_by_id(value: TypeModel) {
    }

    fn get_id() -> (r: ASNTypeId) {
        ASNTypeId::UTCTime
    }

    fn get_value(asn_type: ASNType<'a>) -> (r: Option<UtcTime>) {
        match asn_type {
            ASNType::UTCTime(wrapper) => Some(wrapper),
            _ => None,
        }
    }
}

impl<'a> ExplicitTag<'a> {
    /// The value that wraps `value`.
    pub fn asn(value: ASNExplicitTag<'a>) -> (r: ASNType<'a>)
        ensures
            r@ == TypeModel::ExplicitTag(value@),
    {
        ASNType::ExplicitTag(ExplicitTag { value })
    }
}

impl<'a, 'b> ASNWrapperType<'a> for ExplicitTag<'b> {
    type Item = ASNExplicitTag<'a>;

    open spec fn id() -> ASNTypeId {
        ASNTypeId::ExplicitTag
    }

    open spec fn select(value: TypeModel) -> Option<ExplicitTagModel> {
        match value {
            TypeModel::ExplicitTag(s) => Some(s),
            _ => None,
        }
    }

    proof fn select_by_id(value: TypeModel) {
    }

    fn get_id() -> (r: ASNTypeId) {
        ASNTypeId::ExplicitTag
    }

    fn get_value(asn_type: ASNType<'a>) -> (r: Option<ASNExplicitTag<'a>>) {
        match asn_type {
            ASNType::ExplicitTag(wrapper) => Some(wrapper.value),
            _ => None,
        }
    }
}

/// Why decoding failed.
#[derive(Debug, PartialEq, Eq)]
pub enum ASNError {
    /// A BOOLEAN whose contents are not one byte long; holds the length.
    BadBooleanLength(usize),
    /// A BOOLEAN whose byte is neither `0x00` nor `0xFF`.
    BadBooleanValue(u8),
    /// The input ended inside a value.
    EndOfStream,
    /// An INTEGER without contents.
    ZeroLengthInteger,
    /// A NULL with contents; holds their length.
    NullWithNonEmptyContents(usize),
    /// An identifier octet that stands for no supported kind of value.
    UnsupportedId(Identifier),
    /// The length octet `0x80`.
    UnsupportedIndefiniteLength,
    /// The length octet `0xFF`.
    ReservedLengthValue,
    /// A long-form length of more than four bytes; holds the count.
    UnsupportedLengthByteCount(u8),
    /// A long-form length that fits the short form; holds the count of bytes and the value.
    BadLengthEncoding(u8, usize),
    /// An arc of an OBJECT IDENTIFIER that takes more than four bytes.
    BadOidLength,
    /// A string that is not UTF-8.
    BadUTF8(core::str::Utf8Error),
    /// A UTCTime in none of the accepted formats.
    BadUTCTime,
    /// A BIT STRING that claims more than seven unused bits; holds the count.
    BitStringUnusedBitsTooLarge(u8),
    /// A SEQUENCE without contents.
    EmptySequence,
    /// A SET without contents.
    EmptySet,
    /// A value of another kind than asked for: the expected kind, then the actual one.
    UnexpectedType(ASNTypeId, ASNTypeId),
    /// A value where the input should have ended.
    ExpectedEnd(ASNTypeId),
    /// An INTEGER too long for an `i32`; holds the count of bytes.
    IntegerTooLarge(usize),
    /// An enumeration, by name, and a value that it does not have.
    BadEnumValue(&'static str, i32),
    /// An object identifier that the grammar does not allow at its place.
    UnexpectedOid(ASNObjectIdentifier),
    /// A tag number that the grammar does not allow at its place.
    UnexpectedTag(u8),
}

/// What an error holds.
pub enum ErrorModel {
    BadBooleanLength(usize),
    BadBooleanValue(u8),
    EndOfStream,
    ZeroLengthInteger,
    NullWithNonEmptyContents(usize),
    UnsupportedId(Identifier),
    UnsupportedIndefiniteLength,
    ReservedLengthValue,
    UnsupportedLengthByteCount(u8),
    BadLengthEncoding(u8, usize),
    BadOidLength,
    BadUTF8,
    BadUTCTime,
    BitStringUnusedBitsTooLarge(u8),
    EmptySequence,
    EmptySet,
    UnexpectedType(ASNTypeId, ASNTypeId),
    ExpectedEnd(ASNTypeId),
    IntegerTooLarge(usize),
    BadEnumValue(Seq<char>, i32),
    UnexpectedOid(Seq<u32>),
    UnexpectedTag(u8),
}

impl View for ASNError {
    type V = ErrorModel;

    open spec fn view(&self) -> ErrorModel {
        match self {
            ASNError::BadBooleanLength(n) => ErrorModel::BadBooleanLength(*n),
            ASNError::BadBooleanValue(b) => ErrorModel::BadBooleanValue(*b),
            ASNError::EndOfStream => ErrorModel::EndOfStream,
            ASNError::ZeroLengthInteger => ErrorModel::ZeroLengthInteger,
            ASNError::NullWithNonEmptyContents(n) => ErrorModel::NullWithNonEmptyContents(*n),
            ASNError::UnsupportedId(id) => ErrorModel::UnsupportedId(*id),
            ASNError::UnsupportedIndefiniteLength => ErrorModel::UnsupportedIndefiniteLength,
            ASNError::ReservedLengthValue => ErrorModel::ReservedLengthValue,
            ASNError::UnsupportedLengthByteCount(n) => ErrorModel::UnsupportedLengthByteCount(*n),
            ASNError::BadLengthEncoding(n, v) => ErrorModel::BadLengthEncoding(*n, *v),
            ASNError::BadOidLength => ErrorModel::BadOidLength,
            ASNError::BadUTF8(_) => ErrorModel::BadUTF8,
            ASNError::BadUTCTime => ErrorModel::BadUTCTime,
            ASNError::BitStringUnusedBitsTooLarge(b) => ErrorModel::BitStringUnusedBitsTooLarge(
                *b,
            ),
            ASNError::EmptySequence => ErrorModel::EmptySequence,
            ASNError::EmptySet => ErrorModel::EmptySet,
            ASNError::UnexpectedType(e, a) => ErrorModel::UnexpectedType(*e, *a),
            ASNError::ExpectedEnd(a) => ErrorModel::ExpectedEnd(*a),
            ASNError::IntegerTooLarge(n) => ErrorModel::IntegerTooLarge(*n),
            ASNError::BadEnumValue(name, v) => ErrorModel::BadEnumValue(name@, *v),
            ASNError::UnexpectedOid(oid) => ErrorModel::UnexpectedOid(oid@),
            ASNError::UnexpectedTag(t) => ErrorModel::UnexpectedTag(*t),
        }
    }
}

/// A result with its value and its error each taken by its view.
pub open spec fn result_model<T: View>(r: Result<T, ASNError>) -> Result<T::V, ErrorModel> {
    match r {
        Ok(v) => Ok(v@),
        Err(e) => Err(e@),
    }
}

impl core::convert::From<crate::reader::EndOfStream> for ASNError {
    /// The error that stands for a reader that ran out of bytes.
    fn from(_end: crate::reader::EndOfStream) -> (r: ASNError) {
        ASNError::EndOfStream
    }
}

impl vstd::std_specs::convert::FromSpecImpl<crate::reader::EndOfStream> for ASNError {
    open spec fn obeys_from_spec() -> bool {
        true
    }

    open spec fn from_spec(_end: crate::reader::EndOfStream) -> ASNError {
        ASNError::EndOfStream
    }
}

impl core::convert::From<core::str::Utf8Error> for ASNError {
    /// The error that stands for bytes that are not UTF-8.
    fn from(err: core::str::Utf8Error) -> (r: ASNError) {
        ASNError::BadUTF8(err)
    }
}

impl vstd::std_specs::convert::FromSpecImpl<core::str::Utf8Error> for ASNError {
    open spec fn obeys_from_spec() -> bool {
        true
    }

    open spec fn from_spec(err: core::str::Utf8Error) -> ASNError {
        ASNError::BadUTF8(err)
    }
}

} // verus!
