//! Distinguished names: the attributes that a name holds.

use crate::parser::expect_any_of;
use crate::parser::expect_end_of;
use crate::parser::expect_of;
use crate::parser::expect_or_end_of;
use crate::parser::next_of;
use crate::parser::Parser;
use crate::types::result_model;
use crate::types::ASNError;
use crate::types::ASNObjectIdentifier;
use crate::types::ASNSet;
use crate::types::ASNType;
use crate::types::ASNTypeId;
use crate::types::ErrorModel;
use crate::types::ObjectIdentifier;
use crate::types::Sequence;
use crate::types::TypeModel;
use vstd::prelude::*;

verus! {

/// A name, kept as the bytes that hold it until its attributes are asked for.
#[derive(Debug, PartialEq, Eq, Clone, Copy)]
pub struct Name<'a> {
    pub inner: &'a [u8],
}

impl<'a> View for Name<'a> {
    type V = Seq<u8>;

    open spec fn view(&self) -> Seq<u8> {
        self.inner@
    }
}

impl<'a> Name<'a> {
    /// A name with contents `input`.
    pub fn new(input: &'a [u8]) -> (r: Self)
        ensures
            r@ == input@,
    {
        Self { inner: input }
    }

    /// The attributes of the name.
    pub fn parse(&self) -> (r: Result<RelativeDistinguishedName<'a>, ASNError>)
        ensures
            result_model(r) == name_of(self@),
    {
        RelativeDistinguishedName::parse(self.inner)
    }
}

/// The attributes of a name that are known by their object identifier.
#[derive(Debug, PartialEq, Eq, Clone, Copy, Structural)]
pub enum NameAttribute {
    CommonName,
    CountryName,
    LocalityName,
    StateOrProvinceName,
    Organization,
    OrganizationalUnitName,
}

/// The attribute that an object identifier stands for: the arcs 2.5.4
/// followed by 3, 6, 7, 8, 10 or 11.
pub open spec fn attribute_of(oid: Seq<u32>) -> Option<NameAttribute> {
    if oid == seq![2u32, 5, 4, 3] {
        Some(NameAttribute::CommonName)
    } else if oid == seq![2u32, 5, 4, 6] {
        Some(NameAttribute::CountryName)
    } else if oid == seq![2u32, 5, 4, 7] {
        Some(NameAttribute::LocalityName)
    } else if oid == seq![2u32, 5, 4, 8] {
        Some(NameAttribute::StateOrProvinceName)
    } else if oid == seq![2u32, 5, 4, 10] {
        Some(NameAttribute::Organization)
    } else if oid == seq![2u32, 5, 4, 11] {
        Some(NameAttribute::OrganizationalUnitName)
    } else {
        None
    }
}

/// The attribute that an object identifier stands for, if it is a known one.
pub fn name_attribute(oid: &ASNObjectIdentifier) -> (r: Option<NameAttribute>)
    ensures
        r == attribute_of(oid@),
{
    let v = oid.values();
    if v.len() != 4 || v[0] != 2 || v[1] != 5 || v[2] != 4 {
        assert(attribute_of(oid@) is None);
        return None;
    }
    let last = v[3];
    assert(v@ =~= seq![2u32, 5, 4, last]);
    if last == 3 {
        Some(NameAttribute::CommonName)
    } else if last == 6 {
        Some(NameAttribute::CountryName)
    } else if last == 7 {
        Some(NameAttribute::LocalityName)
    } else if last == 8 {
        Some(NameAttribute::StateOrProvinceName)
    } else if last == 10 {
        Some(NameAttribute::Organization)
    } else if last == 11 {
        Some(NameAttribute::OrganizationalUnitName)
    } else {
        assert(attribute_of(oid@) is None) by {
            assert(oid@[3] == last);
        }
        None
    }
}

/// What the attributes of a name hold: the text of each known attribute
/// that the name has.
pub struct NameModel {
    pub country_name: Option<Seq<char>>,
    pub state_or_province_unit_name: Option<Seq<char>>,
    pub locality_name: Option<Seq<char>>,
    pub organization: Option<Seq<char>>,
    pub organizational_unit_name: Option<Seq<char>>,
    pub common_name: Option<Seq<char>>,
}

impl NameModel {
    /// No attribute at all.
    pub open spec fn empty() -> NameModel {
        NameModel {
            country_name: None,
            state_or_province_unit_name: None,
            locality_name: None,
            organization: None,
            organizational_unit_name: None,
            common_name: None,
        }
    }

    /// The text of attribute `a`.
    pub open spec fn get(self, a: NameAttribute) -> Option<Seq<char>> {
        match a {
            NameAttribute::CommonName => self.common_name,
            NameAttribute::CountryName => self.country_name,
            NameAttribute::LocalityName => self.locality_name,
            NameAttribute::StateOrProvinceName => self.state_or_province_unit_name,
            NameAttribute::Organization => self.organization,
            NameAttribute::OrganizationalUnitName => self.organizational_unit_name,
        }
    }

    /// These attributes with `text` for attribute `a`.
    pub open spec fn set(self, a: NameAttribute, text: Seq<char>) -> NameModel {
        match a {
            NameAttribute::CommonName => NameModel { common_name: Some(text), ..self },
            NameAttribute::CountryName => NameModel { country_name: Some(text), ..self },
            NameAttribute::LocalityName => NameModel { locality_name: Some(text), ..self },
            NameAttribute::StateOrProvinceName => NameModel {
                state_or_province_unit_name: Some(text),
                ..self
            },
            NameAttribute::Organization => NameModel { organization: Some(text), ..self },
            NameAttribute::OrganizationalUnitName => NameModel {
                organizational_unit_name: Some(text),
                ..self
            },
        }
    }
}

/// The text of the value of an attribute: the value has to be a string.
pub open spec fn attribute_text(value: TypeModel) -> Result<Seq<char>, ErrorModel> {
    match value {
        TypeModel::IA5String(text) => Ok(text),
        TypeModel::PrintableString(text) => Ok(text),
        TypeModel::UTF8String(text) => Ok(text),
        _ => Err(ErrorModel::UnexpectedType(ASNTypeId::PrintableString, value.id())),
    }
}

/// The attributes `acc` with the attribute `oid` of value `value` added. An
/// attribute that is not known is passed over; a known one has to be a string,
/// and may not be there already.
pub open spec fn fill_of(acc: NameModel, oid: Seq<u32>, value: TypeModel) -> Result<
    NameModel,
    ErrorModel,
> {
    match attribute_of(oid) {
        None => Ok(acc),
        Some(a) => match attribute_text(value) {
            Err(e) => Err(e),
            Ok(text) => if acc.get(a) is Some {
                Err(ErrorModel::UnexpectedOid(oid))
            } else {
                Ok(acc.set(a, text))
            },
        },
    }
}

/// The attributes `acc` with the one attribute in `s` added: an object
/// identifier, any value, and nothing more.
pub open spec fn attribute_and_value_of(s: Seq<u8>, acc: NameModel) -> Result<
    NameModel,
    ErrorModel,
> {
    match expect_of::<ObjectIdentifier>(s) {
        (Err(e), _) => Err(e),
        (Ok(oid), s1) => match expect_any_of(s1) {
            (Err(e), _) => Err(e),
            (Ok(value), s2) => match fill_of(acc, oid, value) {
                Err(e) => Err(e),
                Ok(filled) => match expect_end_of(s2).0 {
                    Err(e) => Err(e),
                    Ok(_) => Ok(filled),
                },
            },
        },
    }
}

/// Taking a value off a stream that is not at its end leaves a shorter stream.
pub proof fn lemma_next_shrinks(s: Seq<u8>)
    requires
        s.len() > 0,
    ensures
        next_of(s).1.len() < s.len(),
{
}

/// The attributes `acc` with those of the SEQUENCEs in `s` added, up to the end of `s`.
pub open spec fn attributes_up_to_end_of(s: Seq<u8>, acc: NameModel) -> Result<
    NameModel,
    ErrorModel,
>
    decreases s.len(),
{
    match expect_or_end_of::<Sequence>(s) {
        (Err(e), _) => Err(e),
        (Ok(None), _) => Ok(acc),
        (Ok(Some(entry)), rest) => match attribute_and_value_of(entry, acc) {
            Err(e) => Err(e),
            Ok(filled) => {
                proof {
                    if s.len() > 0 {
                        lemma_next_shrinks(s);
                    }
                }
                attributes_up_to_end_of(rest, filled)
            },
        },
    }
}

/// The attributes `acc` with those of the SET with contents `s` added: one
/// SEQUENCE at least, each of one attribute.
pub open spec fn attribute_set_of(s: Seq<u8>, acc: NameModel) -> Result<NameModel, ErrorModel> {
    match expect_of::<Sequence>(s) {
        (Err(e), _) => Err(e),
        (Ok(entry), rest) => match attribute_and_value_of(entry, acc) {
            Err(e) => Err(e),
            Ok(filled) => attributes_up_to_end_of(rest, filled),
        },
    }
}

/// The attributes `acc` with those of the SETs in `s` added, up to the end of `s`.
pub open spec fn name_from(s: Seq<u8>, acc: NameModel) -> Result<NameModel, ErrorModel>
    decreases s.len(),
{
    match expect_or_end_of::<ASNSet>(s) {
        (Err(e), _) => Err(e),
        (Ok(None), _) => Ok(acc),
        (Ok(Some(set)), rest) => match attribute_set_of(set, acc) {
            Err(e) => Err(e),
            Ok(filled) => {
                proof {
                    if s.len() > 0 {
                        lemma_next_shrinks(s);
                    }
                }
                name_from(rest, filled)
            },
        },
    }
}

/// The attributes of the name with contents `s`.
pub open spec fn name_of(s: Seq<u8>) -> Result<NameModel, ErrorModel> {
    name_from(s, NameModel::empty())
}

/// The known attributes of a name.
#[derive(Debug, PartialEq, Eq, Clone, Copy)]
pub struct RelativeDistinguishedName<'a> {
    pub country_name: Option<&'a str>,
    pub state_or_province_unit_name: Option<&'a str>,
    pub locality_name: Option<&'a str>,
    pub organization: Option<&'a str>,
    pub organizational_unit_name: Option<&'a str>,
    pub common_name: Option<&'a str>,
}

/// The text that an optional string holds.
pub open spec fn optional_text(text: Option<&str>) -> Option<Seq<char>> {
    match text {
        Some(t) => Some(t@),
        None => None,
    }
}

impl<'a> View for RelativeDistinguishedName<'a> {
    type V = NameModel;

    open spec fn view(&self) -> NameModel {
        NameModel {
            country_name: optional_text(self.country_name),
            state_or_province_unit_name: optional_text(self.state_or_province_unit_name),
            locality_name: optional_text(self.locality_name),
            organization: optional_text(self.organization),
            organizational_unit_name: optional_text(self.organizational_unit_name),
            common_name: optional_text(self.common_name),
        }
    }
}

/// The text of the value of an attribute.
pub fn text_of_attribute<'a>(value: &ASNType<'a>) -> (r: Result<&'a str, ASNError>)
    ensures
        result_model(r) == attribute_text(value@),
{
    match value {
        ASNType::IA5String(wrapper) => Ok(wrapper.value),
        ASNType::PrintableString(wrapper) => Ok(wrapper.value),
        ASNType::UTF8String(wrapper) => Ok(wrapper.value),
        _ => Err(ASNError::UnexpectedType(ASNTypeId::PrintableString, value.get_id())),
    }
}

impl<'a> RelativeDistinguishedName<'a> {
    /// No attribute at all.
    pub fn empty() -> (r: Self)
        ensures
            r@ == NameModel::empty(),
    {
        Self {
            country_name: None,
            state_or_province_unit_name: None,
            locality_name: None,
            organization: None,
            organizational_unit_name: None,
            common_name: None,
        }
    }

    /// The text of attribute `a`.
    pub fn get(&self, a: NameAttribute) -> (r: Option<&'a str>)
        ensures
            optional_text(r) == self@.get(a),
    {
        match a {
            NameAttribute::CommonName => self.common_name,
            NameAttribute::CountryName => self.country_name,
            NameAttribute::LocalityName => self.locality_name,
            NameAttribute::StateOrProvinceName => self.state_or_province_unit_name,
            NameAttribute::Organization => self.organization,
            NameAttribute::OrganizationalUnitName => self.organizational_unit_name,
        }
    }

    fn set(&mut self, a: NameAttribute, text: &'a str)
        ensures
            final(self)@ == old(self)@.set(a, text@),
    {
        match a {
            NameAttribute::CommonName => {
                self.common_name = Some(text);
            },
            NameAttribute::CountryName => {
                self.country_name = Some(text);
            },
            NameAttribute::LocalityName => {
                self.locality_name = Some(text);
            },
            NameAttribute::StateOrProvinceName => {
                self.state_or_province_unit_name = Some(text);
            },
            NameAttribute::Organization => {
                self.organization = Some(text);
            },
            NameAttribute::OrganizationalUnitName => {
                self.organizational_unit_name = Some(text);
            },
        }
    }

    /// Adds the attribute `oid` with value `value`. An attribute that is not
    /// known is passed over; after an error the attributes are as they were.
    pub fn fill_name_component(&mut self, value: &ASNType<'a>, oid: &ASNObjectIdentifier) -> (r:
        Result<(), ASNError>)
        ensures
            match fill_of(old(self)@, oid@, value@) {
                Ok(filled) => r is Ok && final(self)@ == filled,
                Err(e) => r is Err && r->Err_0@ == e && final(self)@ == old(self)@,
            },
    {
        match name_attribute(oid) {
            None => Ok(()),
            Some(a) => {
                let text = text_of_attribute(value)?;
                if self.get(a).is_some() {
                    Err(ASNError::UnexpectedOid(oid.duplicate()))
                } else {
                    self.set(a, text);
                    Ok(())
                }
            },
        }
    }

    /// Adds the one attribute that `input` holds. After an error the
    /// attributes may or may not hold it.
    pub fn parse_single(&mut self, input: &'a [u8]) -> (r: Result<(), ASNError>)
        ensures
            match attribute_and_value_of(input@, old(self)@) {
                Ok(filled) => r is Ok && final(self)@ == filled,
                Err(e) => r is Err && r->Err_0@ == e,
            },
    {
        let mut parser = Parser::new(input);
        let oid = parser.expect::<ObjectIdentifier>()?;
        let value = parser.expect_any()?;
        self.fill_name_component(&value, &oid)?;
        parser.expect_end()?;
        Ok(())
    }

    /// Adds the attributes of one SET of the name, given by its contents:
    /// one SEQUENCE at least, each of one attribute.
    pub fn parse_set(&mut self, set: &'a [u8]) -> (r: Result<(), ASNError>)
        ensures
            match attribute_set_of(set@, old(self)@) {
                Ok(filled) => r is Ok && final(self)@ == filled,
                Err(e) => r is Err && r->Err_0@ == e,
            },
    {
        let mut entries = Parser::new(set);
        let first = entries.expect::<Sequence>()?;
        self.parse_single(first)?;
        loop
            invariant
                attribute_set_of(set@, old(self)@) == attributes_up_to_end_of(entries@, self@),
            decreases entries@.len(),
        {
            let ghost before = entries@;
            let found = entries.expect_or_end::<Sequence>()?;
            match found {
                None => {
                    return Ok(());
                },
                Some(entry) => {
                    proof {
                        lemma_next_shrinks(before);
                    }
                    self.parse_single(entry)?;
                },
            }
        }
    }

    /// Reads the attributes of a name from the contents of its SEQUENCE.
    pub fn parse(input: &'a [u8]) -> (r: Result<Self, ASNError>)
        ensures
            result_model(r) == name_of(input@),
    {
        let mut result = Self::empty();
        let mut parser = Parser::new(input);
        loop
            invariant
                name_of(input@) == name_from(parser@, result@),
            decreases parser@.len(),
        {
            let ghost before = parser@;
            let found = parser.expect_or_end::<ASNSet>()?;
            match found {
                None => {
                    return Ok(result);
                },
                Some(set) => {
                    proof {
                        lemma_next_shrinks(before);
                    }
                    result.parse_set(set)?;
                },
            }
        }
    }
}

/// A slot that holds a text keeps it: where adding an attribute succeeds,
/// every attribute that was there before is there unchanged.
pub proof fn lemma_fill_keeps(acc: NameModel, oid: Seq<u32>, value: TypeModel, a: NameAttribute)
    requires
        fill_of(acc, oid, value) is Ok,
        acc.get(a) is Some,
    ensures
        fill_of(acc, oid, value)->Ok_0.get(a) == acc.get(a),
{
}

/// A known attribute that is added is there afterwards, with the text of its value.
pub proof fn lemma_fill_fills(acc: NameModel, oid: Seq<u32>, value: TypeModel)
    requires
        fill_of(acc, oid, value) is Ok,
        attribute_of(oid) is Some,
    ensures
        acc.get(attribute_of(oid)->Some_0) is None,
        attribute_text(value) is Ok,
        fill_of(acc, oid, value)->Ok_0.get(attribute_of(oid)->Some_0) == Some(
            attribute_text(value)->Ok_0,
        ),
{
}

/// A second value for an attribute that a name already has is refused.
pub proof fn lemma_duplicate_attribute_is_refused(acc: NameModel, oid: Seq<u32>, value: TypeModel)
    requires
        attribute_of(oid) is Some,
        acc.get(attribute_of(oid)->Some_0) is Some,
    ensures
        fill_of(acc, oid, value) is Err,
{
}

/// Reading on never replaces an attribute: where the rest of a set is read
/// with success, every attribute that was there before is there unchanged.
pub proof fn lemma_attributes_up_to_end_keep(s: Seq<u8>, acc: NameModel, a: NameAttribute)
    requires
        attributes_up_to_end_of(s, acc) is Ok,
        acc.get(a) is Some,
    ensures
        attributes_up_to_end_of(s, acc)->Ok_0.get(a) == acc.get(a),
    decreases s.len(),
{
    match expect_or_end_of::<Sequence>(s) {
        (Ok(Some(entry)), rest) => {
            let filled = attribute_and_value_of(entry, acc)->Ok_0;
            lemma_next_shrinks(s);
            lemma_attributes_up_to_end_keep(rest, filled, a);
        },
        _ => {},
    }
}

/// No attribute of a name is given a value twice: where a name is read with
/// success, every attribute that was there before is there unchanged.
pub proof fn lemma_name_keeps(s: Seq<u8>, acc: NameModel, a: NameAttribute)
    requires
        name_from(s, acc) is Ok,
        acc.get(a) is Some,
    ensures
        name_from(s, acc)->Ok_0.get(a) == acc.get(a),
    decreases s.len(),
{
    match expect_or_end_of::<ASNSet>(s) {
        (Ok(Some(set)), rest) => {
            let first = expect_of::<Sequence>(set);
            let entry = first.0->Ok_0;
            let after_first = attribute_and_value_of(entry, acc)->Ok_0;
            lemma_attributes_up_to_end_keep(first.1, after_first, a);
            let filled = attribute_set_of(set, acc)->Ok_0;
            lemma_next_shrinks(s);
            lemma_name_keeps(rest, filled, a);
        },
        _ => {},
    }
}

} // verus!
