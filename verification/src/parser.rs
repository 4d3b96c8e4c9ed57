//! A parser over a stream of values, driven by what the caller expects next.

use crate::decoder::decode_contents;
use crate::decoder::decode_one;
use crate::decoder::kind_of;
use crate::decoder::parse_contents;
use crate::decoder::parse_one_type;
use crate::decoder::read_type;
use crate::reader::Reader;
use crate::types::identifier_of;
use crate::types::signed_value;
use crate::types::Integer;
use crate::types::result_model;
use crate::types::ASNError;
use crate::types::ASNExplicitTag;
use crate::types::ASNSet;
use crate::types::ASNType;
use crate::types::ASNTypeId;
use crate::types::ASNWrapperType;
use crate::types::ErrorModel;
use crate::types::ExplicitTag;
use crate::types::ExplicitTagModel;
use crate::types::Identifier;
use crate::types::Sequence;
use crate::types::TypeModel;
use vstd::prelude::*;

verus! {

/// Taking the next value off the stream `s`: `None` at the end of the stream,
/// else the value or the error; and the stream that is left. After an error
/// nothing is left.
pub open spec fn next_of(s: Seq<u8>) -> (Option<Result<TypeModel, ErrorModel>>, Seq<u8>) {
    if s.len() == 0 {
        (None, s)
    } else {
        match decode_one(s) {
            Ok((value, used)) => (Some(Ok(value)), s.skip(used as int)),
            Err(e) => (Some(Err(e)), Seq::empty()),
        }
    }
}

/// The next value of the stream, which has to be there.
pub open spec fn expect_any_of(s: Seq<u8>) -> (Result<TypeModel, ErrorModel>, Seq<u8>) {
    match next_of(s) {
        (None, rest) => (Err(ErrorModel::EndOfStream), rest),
        (Some(r), rest) => (r, rest),
    }
}

/// The next value of the stream, or `None` at its end.
pub open spec fn expect_any_or_end_of(s: Seq<u8>) -> (
    Result<Option<TypeModel>, ErrorModel>,
    Seq<u8>,
) {
    match next_of(s) {
        (None, rest) => (Ok(None), rest),
        (Some(Ok(value)), rest) => (Ok(Some(value)), rest),
        (Some(Err(e)), rest) => (Err(e), rest),
    }
}

/// The end of the stream, which has to be reached.
pub open spec fn expect_end_of(s: Seq<u8>) -> (Result<(), ErrorModel>, Seq<u8>) {
    match next_of(s) {
        (None, rest) => (Ok(()), rest),
        (Some(Ok(value)), rest) => (Err(ErrorModel::ExpectedEnd(value.id())), rest),
        (Some(Err(e)), rest) => (Err(e), rest),
    }
}

/// The payload of the next value of the stream, which has to be of kind `T`.
pub open spec fn expect_of<'a, T: ASNWrapperType<'a>>(s: Seq<u8>) -> (
    Result<<T::Item as View>::V, ErrorModel>,
    Seq<u8>,
) {
    match expect_any_of(s) {
        (Ok(value), rest) => match T::select(value) {
            Some(item) => (Ok(item), rest),
            None => (Err(ErrorModel::UnexpectedType(T::id(), value.id())), rest),
        },
        (Err(e), rest) => (Err(e), rest),
    }
}

/// As `expect_of`, with an error of a stream that ended taken for the end.
pub open spec fn expect_or_end_of<'a, T: ASNWrapperType<'a>>(s: Seq<u8>) -> (
    Result<Option<<T::Item as View>::V>, ErrorModel>,
    Seq<u8>,
) {
    match expect_of::<T>(s) {
        (Ok(item), rest) => (Ok(Some(item)), rest),
        (Err(ErrorModel::EndOfStream), rest) => (Ok(None), rest),
        (Err(e), rest) => (Err(e), rest),
    }
}

/// The payload of the next value if its identifier is that of kind `T`. A
/// stream at its end, or a next value of another kind, gives `None` and
/// leaves the stream as it is.
pub open spec fn get_optional_of<'a, T: ASNWrapperType<'a>>(s: Seq<u8>) -> (
    Result<Option<<T::Item as View>::V>, ErrorModel>,
    Seq<u8>,
) {
    if s.len() == 0 {
        (Ok(None), s)
    } else {
        let id = identifier_of(s[0]);
        match kind_of(id) {
            None => (Err(ErrorModel::UnsupportedId(id)), s),
            Some(kind) => if kind == T::id() {
                match expect_of::<T>(s) {
                    (Ok(item), rest) => (Ok(Some(item)), rest),
                    (Err(e), rest) => (Err(e), rest),
                }
            } else {
                (Ok(None), s)
            },
        }
    }
}

/// As `get_optional_of`, with `default` in place of `None`.
pub open spec fn get_optional_or_default_of<'a, T: ASNWrapperType<'a>>(
    s: Seq<u8>,
    default: <T::Item as View>::V,
) -> (Result<<T::Item as View>::V, ErrorModel>, Seq<u8>) {
    match get_optional_of::<T>(s) {
        (Ok(Some(item)), rest) => (Ok(item), rest),
        (Ok(None), rest) => (Ok(default), rest),
        (Err(e), rest) => (Err(e), rest),
    }
}

/// The next value if it is an explicit tag with tag number `tag`. A stream
/// at its end, or any other next value, gives `None` and leaves the stream
/// as it is.
pub open spec fn get_optional_explicit_tag_of(s: Seq<u8>, tag: u8) -> (
    Result<Option<ExplicitTagModel>, ErrorModel>,
    Seq<u8>,
) {
    if s.len() == 0 {
        (Ok(None), s)
    } else {
        let id = identifier_of(s[0]);
        match kind_of(id) {
            None => (Err(ErrorModel::UnsupportedId(id)), s),
            Some(kind) => if kind == ASNTypeId::ExplicitTag && id.tag == tag {
                match expect_of::<ExplicitTag>(s) {
                    (Ok(item), rest) => (Ok(Some(item)), rest),
                    (Err(e), rest) => (Err(e), rest),
                }
            } else {
                (Ok(None), s)
            },
        }
    }
}

/// The one value of kind `T` that makes up the whole of `s`.
pub open spec fn single_of<'a, T: ASNWrapperType<'a>>(s: Seq<u8>) -> Result<
    <T::Item as View>::V,
    ErrorModel,
> {
    match expect_of::<T>(s) {
        (Err(e), _) => Err(e),
        (Ok(item), rest) => match expect_end_of(rest).0 {
            Err(e) => Err(e),
            Ok(_) => Ok(item),
        },
    }
}

/// The value of kind `T` inside the explicit tag `tag`, if that tag comes next.
pub open spec fn get_optional_explicit_tag_value_of<'a, T: ASNWrapperType<'a>>(
    s: Seq<u8>,
    tag: u8,
) -> (Result<Option<<T::Item as View>::V>, ErrorModel>, Seq<u8>) {
    match get_optional_explicit_tag_of(s, tag) {
        (Err(e), rest) => (Err(e), rest),
        (Ok(None), rest) => (Ok(None), rest),
        (Ok(Some(inner)), rest) => match single_of::<T>(inner.contents) {
            Err(e) => (Err(e), rest),
            Ok(item) => (Ok(Some(item)), rest),
        },
    }
}

/// The whole of `s` read as the contents of a value of kind `T`, whose own
/// identifier and length an implicit tag has taken the place of. Read as an
/// explicit tag, the contents get the tag number 0.
pub open spec fn parse_implicit_of<'a, T: ASNWrapperType<'a>>(s: Seq<u8>) -> Result<
    <T::Item as View>::V,
    ErrorModel,
> {
    match decode_contents(T::id(), 0, s) {
        Err(e) => Err(e),
        Ok(value) => match T::select(value) {
            Some(item) => Ok(item),
            None => Err(ErrorModel::UnexpectedType(T::id(), value.id())),
        },
    }
}

/// The integer inside the explicit tag `tag` if that tag comes next, else
/// `default`. The integer has to fit an `i32`.
pub open spec fn get_explicitly_tagged_integer_or_default_of(
    s: Seq<u8>,
    tag: u8,
    default: i32,
) -> (Result<i32, ErrorModel>, Seq<u8>) {
    match get_optional_explicit_tag_of(s, tag) {
        (Err(e), rest) => (Err(e), rest),
        (Ok(None), rest) => (Ok(default), rest),
        (Ok(Some(inner)), rest) => match expect_of::<Integer>(inner.contents).0 {
            Err(e) => (Err(e), rest),
            Ok(bytes) => if 1 <= bytes.len() <= 4 {
                (Ok(signed_value(bytes) as i32), rest)
            } else {
                (Err(ErrorModel::IntegerTooLarge(bytes.len() as usize)), rest)
            },
        },
    }
}

/// What is left of the stream `s` after `n` values have been taken off it.
pub open spec fn left_after(s: Seq<u8>, n: nat) -> Seq<u8>
    decreases n,
{
    if n == 0 {
        s
    } else {
        next_of(left_after(s, (n - 1) as nat)).1
    }
}

/// Once the stream has yielded an error, every later call yields `None`,
/// however many calls come in between.
pub proof fn lemma_none_ever_after_error(s: Seq<u8>, n: nat)
    requires
        next_of(s).0 matches Some(Err(_)),
        n >= 1,
    ensures
        next_of(left_after(s, n)).0 is None,
        left_after(s, n).len() == 0,
    decreases n,
{
    if n > 1 {
        lemma_none_ever_after_error(s, (n - 1) as nat);
    } else {
        assert(left_after(s, 0) == s);
    }
}

/// A look ahead that finds nothing leaves the stream as it was.
pub proof fn lemma_lookahead_is_pure<'a, T: ASNWrapperType<'a>>(s: Seq<u8>, tag: u8)
    ensures
        get_optional_of::<T>(s).0 == Ok::<Option<<T::Item as View>::V>, ErrorModel>(None)
            ==> get_optional_of::<T>(s).1 == s,
        get_optional_explicit_tag_of(s, tag).0 == Ok::<Option<ExplicitTagModel>, ErrorModel>(None)
            ==> get_optional_explicit_tag_of(s, tag).1 == s,
        get_optional_explicit_tag_value_of::<T>(s, tag).0 == Ok::<
            Option<<T::Item as View>::V>,
            ErrorModel,
        >(None) ==> get_optional_explicit_tag_value_of::<T>(s, tag).1 == s,
{
}

/// A result with its optional value and its error each taken by its view.
pub open spec fn optional_model<T: View>(r: Result<Option<T>, ASNError>) -> Result<
    Option<T::V>,
    ErrorModel,
> {
    match r {
        Ok(Some(v)) => Ok(Some(v@)),
        Ok(None) => Ok(None),
        Err(e) => Err(e@),
    }
}

/// A result without a value, with its error taken by its view.
pub open spec fn unit_model(r: Result<(), ASNError>) -> Result<(), ErrorModel> {
    match r {
        Ok(_) => Ok(()),
        Err(e) => Err(e@),
    }
}

/// Walks a stream of values. Its view is the part of the stream that is left.
pub struct Parser<'a> {
    reader: Reader<'a>,
}

impl<'a> View for Parser<'a> {
    type V = Seq<u8>;

    closed spec fn view(&self) -> Seq<u8> {
        self.reader@
    }
}

impl<'a> Parser<'a> {
    /// A parser at the start of the stream `input`.
    pub fn new(input: &'a [u8]) -> (r: Parser<'a>)
        ensures
            r@ == input@,
    {
        Parser { reader: Reader::new(input) }
    }

    /// What is left of the stream.
    pub fn remainder(&self) -> (r: &'a [u8])
        ensures
            r@ == self@,
    {
        self.reader.remainder()
    }

    /// The next value of the stream: `None` at its end. After an error the
    /// parser holds nothing more, so that every later call yields `None`.
    pub fn next(&mut self) -> (r: Option<Result<ASNType<'a>, ASNError>>)
        ensures
            match next_of(old(self)@).0 {
                None => r is None,
                Some(m) => r is Some && result_model(r->Some_0) == m,
            },
            final(self)@ == next_of(old(self)@).1,
            r matches Some(Err(_)) ==> final(self)@.len() == 0,
            r is None ==> final(self)@ == old(self)@,
    {
        if self.reader.is_empty() {
            return None;
        }
        match parse_one_type(&mut self.reader) {
            Err(e) => {
                self.reader.clear();
                Some(Err(e))
            },
            Ok(token) => Some(Ok(token)),
        }
    }

    /// The next value, which has to be there.
    pub fn expect_any(&mut self) -> (r: Result<ASNType<'a>, ASNError>)
        ensures
            (result_model(r), final(self)@) == expect_any_of(old(self)@),
    {
        match self.next() {
            Some(Ok(asn)) => Ok(asn),
            Some(Err(err)) => Err(err),
            None => Err(ASNError::EndOfStream),
        }
    }

    /// The next value, or `None` at the end of the stream.
    pub fn expect_any_or_end(&mut self) -> (r: Result<Option<ASNType<'a>>, ASNError>)
        ensures
            (optional_model(r), final(self)@) == expect_any_or_end_of(old(self)@),
    {
        match self.next() {
            Some(Ok(asn)) => Ok(Some(asn)),
            Some(Err(err)) => Err(err),
            None => Ok(None),
        }
    }

    /// Fails unless the stream is at its end.
    pub fn expect_end(&mut self) -> (r: Result<(), ASNError>)
        ensures
            (unit_model(r), final(self)@) == expect_end_of(old(self)@),
            r is Ok <==> old(self)@.len() == 0,
    {
        match self.next() {
            None => Ok(()),
            Some(Err(err)) => Err(err),
            Some(Ok(asn)) => Err(ASNError::ExpectedEnd(asn.get_id())),
        }
    }

    /// The payload of the next value, which has to be of kind `T`.
    pub fn expect<T: ASNWrapperType<'a>>(&mut self) -> (r: Result<T::Item, ASNError>)
        ensures
            (result_model(r), final(self)@) == expect_of::<T>(old(self)@),
    {
        match self.expect_any() {
            Ok(asn_type) => {
                let id = asn_type.get_id();
                match T::get_value(asn_type) {
                    Some(value) => Ok(value),
                    None => Err(ASNError::UnexpectedType(T::get_id(), id)),
                }
            },
            Err(err) => Err(err),
        }
    }

    /// As `expect`; the error of a stream that ended becomes `None`.
    pub fn expect_or_end<T: ASNWrapperType<'a>>(&mut self) -> (r: Result<
        Option<T::Item>,
        ASNError,
    >)
        ensures
            (optional_model(r), final(self)@) == expect_or_end_of::<T>(old(self)@),
    {
        match self.expect::<T>() {
            Ok(value) => Ok(Some(value)),
            Err(ASNError::EndOfStream) => Ok(None),
            Err(err) => Err(err),
        }
    }

    /// The payload of the next value if its identifier is that of kind `T`;
    /// else `None`, with the stream left as it is.
    pub fn get_optional<T: ASNWrapperType<'a>>(&mut self) -> (r: Result<Option<T::Item>, ASNError>)
        ensures
            (optional_model(r), final(self)@) == get_optional_of::<T>(old(self)@),
            r matches Ok(None) ==> final(self)@ == old(self)@,
    {
        let first = match self.reader.peek_byte() {
            Ok(b) => b,
            Err(_) => {
                return Ok(None);
            },
        };
        let id = Identifier::from(first);
        match read_type(&id) {
            Some(kind) => {
                if kind == T::get_id() {
                    match self.expect::<T>() {
                        Ok(value) => Ok(Some(value)),
                        Err(e) => Err(e),
                    }
                } else {
                    Ok(None)
                }
            },
            None => Err(ASNError::UnsupportedId(id)),
        }
    }

    /// As `get_optional`, with `default` in place of `None`.
    pub fn get_optional_or_default<T: ASNWrapperType<'a>>(&mut self, default: T::Item) -> (r:
        Result<T::Item, ASNError>)
        ensures
            (result_model(r), final(self)@) == get_optional_or_default_of::<T>(
                old(self)@,
                default@,
            ),
    {
        match self.get_optional::<T>() {
            Ok(Some(value)) => Ok(value),
            Ok(None) => Ok(default),
            Err(e) => Err(e),
        }
    }

    /// The next value if it is an explicit tag with tag number `tag`; else
    /// `None`, with the stream left as it is.
    pub fn get_optional_explicit_tag(&mut self, tag: u8) -> (r: Result<
        Option<ASNExplicitTag<'a>>,
        ASNError,
    >)
        ensures
            (optional_model(r), final(self)@) == get_optional_explicit_tag_of(old(self)@, tag),
            r matches Ok(None) ==> final(self)@ == old(self)@,
    {
        let first = match self.reader.peek_byte() {
            Ok(b) => b,
            Err(_) => {
                return Ok(None);
            },
        };
        let id = Identifier::from(first);
        match read_type(&id) {
            Some(kind) => {
                if kind == ASNTypeId::ExplicitTag && id.tag == tag {
                    match self.expect::<ExplicitTag>() {
                        Ok(value) => Ok(Some(value)),
                        Err(e) => Err(e),
                    }
                } else {
                    Ok(None)
                }
            },
            None => Err(ASNError::UnsupportedId(id)),
        }
    }

    /// Runs `parse` on a parser over `input`, and then wants the end of the
    /// input: what `parse` has left has to be empty. An error of `parse` comes
    /// first.
    pub fn parse_all<T, F: FnOnce(&mut Parser<'a>) -> Result<T, ASNError>>(
        input: &'a [u8],
        parse: F,
    ) -> (r: Result<T, ASNError>)
        requires
            forall|p: &mut Parser<'a>| (*p)@ == input@ ==> parse.requires((p,)),
        ensures
            exists|p: &mut Parser<'a>, parsed: Result<T, ASNError>|
                (*p)@ == input@ && #[trigger] parse.ensures((p,), parsed) && match parsed {
                    Err(e) => r == Err::<T, ASNError>(e),
                    Ok(value) => match expect_end_of((*final(p))@).0 {
                        Ok(_) => r == Ok::<T, ASNError>(value),
                        Err(e) => r is Err && r->Err_0@ == e,
                    },
                },
    {
        let mut parser = Parser::new(input);
        let parsed = parse(&mut parser);
        let value = parsed?;
        parser.expect_end()?;
        Ok(value)
    }

    /// The one value of kind `T` that makes up the whole of `input`.
    pub fn parse_single<T: ASNWrapperType<'a>>(input: &'a [u8]) -> (r: Result<T::Item, ASNError>)
        ensures
            result_model(r) == single_of::<T>(input@),
    {
        let mut parser = Parser::new(input);
        let value = match parser.expect::<T>() {
            Ok(value) => value,
            Err(e) => {
                return Err(e);
            },
        };
        match parser.expect_end() {
            Ok(_) => Ok(value),
            Err(e) => Err(e),
        }
    }

    /// The value of kind `T` inside the explicit tag `tag`, if that tag comes next.
    pub fn get_optional_explicit_tag_value<T: ASNWrapperType<'a>>(&mut self, tag: u8) -> (r:
        Result<Option<T::Item>, ASNError>)
        ensures
            (optional_model(r), final(self)@) == get_optional_explicit_tag_value_of::<T>(
                old(self)@,
                tag,
            ),
            r matches Ok(None) ==> final(self)@ == old(self)@,
    {
        match self.get_optional_explicit_tag(tag) {
            Err(e) => Err(e),
            Ok(None) => Ok(None),
            Ok(Some(inner)) => match Parser::parse_single::<T>(inner.contents) {
                Ok(value) => Ok(Some(value)),
                Err(e) => Err(e),
            },
        }
    }

    /// The integer inside the explicit tag `tag` if that tag comes next, else `default`.
    pub fn get_explicitly_tagged_integer_or_default(&mut self, tag: u8, default: i32) -> (r:
        Result<i32, ASNError>)
        ensures
            (result_model(r), final(self)@) == get_explicitly_tagged_integer_or_default_of(
                old(self)@,
                tag,
                default,
            ),
    {
        match self.get_optional_explicit_tag(tag) {
            Err(e) => Err(e),
            Ok(None) => Ok(default),
            Ok(Some(inner)) => {
                let mut parser = Parser::new(inner.contents);
                match parser.expect::<Integer>() {
                    Err(e) => Err(e),
                    Ok(value) => match value.as_i32() {
                        Some(x) => Ok(x),
                        None => Err(ASNError::IntegerTooLarge(value.bytes.len())),
                    },
                }
            },
        }
    }

    /// Reads all that is left as the contents of a value of kind `T`, whose
    /// own identifier and length an implicit tag has taken the place of.
    /// Nothing is left afterwards.
    pub fn parse_implicit<T: ASNWrapperType<'a>>(&mut self) -> (r: Result<T::Item, ASNError>)
        ensures
            result_model(r) == parse_implicit_of::<T>(old(self)@),
            final(self)@.len() == 0,
    {
        let contents = self.reader.remainder();
        self.reader.clear();
        match parse_contents(T::get_id(), 0, contents) {
            Err(e) => Err(e),
            Ok(asn_type) => {
                let id = asn_type.get_id();
                match T::get_value(asn_type) {
                    Some(value) => Ok(value),
                    None => Err(ASNError::UnexpectedType(T::get_id(), id)),
                }
            },
        }
    }

    /// The contents of the one SEQUENCE that makes up the whole of `input`,
    /// as a parser over them.
    pub fn unwrap_outer_sequence(input: &'a [u8]) -> (r: Result<Parser<'a>, ASNError>)
        ensures
            result_model(r) == single_of::<Sequence>(input@),
    {
        match Parser::parse_single::<Sequence>(input) {
            Ok(bytes) => Ok(Parser::new(bytes)),
            Err(e) => Err(e),
        }
    }

    /// The contents of the one SET that makes up the whole of `input`, as a
    /// parser over them.
    pub fn unwrap_outer_set(input: &'a [u8]) -> (r: Result<Parser<'a>, ASNError>)
        ensures
            result_model(r) == single_of::<ASNSet>(input@),
    {
        match Parser::parse_single::<ASNSet>(input) {
            Ok(bytes) => Ok(Parser::new(bytes)),
            Err(e) => Err(e),
        }
    }
}

} // verus!
