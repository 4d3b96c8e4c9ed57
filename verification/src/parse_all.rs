//! A walk over every value of a stream, down into the values that hold others.

use crate::name::lemma_next_shrinks;
use crate::parser::next_of;
use crate::parser::Parser;
use crate::types::ASNError;
use crate::types::ASNType;
use crate::types::ErrorModel;
use crate::types::TypeModel;
use vstd::prelude::*;

verus! {

/// What a walk reports, one call for each event.
pub trait ParseHandler {
    /// The walk goes down into the value that was reported last.
    fn begin_constructed(&mut self);

    /// The walk has come to the end of the value it went down into.
    fn end_constructed(&mut self);

    /// The walk has come to a value.
    fn on_type(&mut self, asn: &ASNType);

    /// The walk has failed. Nothing is reported after this.
    fn on_error(&mut self, err: &ASNError);
}

/// One event of a walk.
#[derive(Debug, PartialEq, Eq)]
pub enum WalkEvent<'a> {
    Type(ASNType<'a>),
    BeginConstructed,
    EndConstructed,
    Error(ASNError),
}

/// What an event of a walk holds.
pub enum WalkEventModel {
    Type(TypeModel),
    BeginConstructed,
    EndConstructed,
    Error(ErrorModel),
}

impl<'a> View for WalkEvent<'a> {
    type V = WalkEventModel;

    open spec fn view(&self) -> WalkEventModel {
        match self {
            WalkEvent::Type(t) => WalkEventModel::Type(t@),
            WalkEvent::BeginConstructed => WalkEventModel::BeginConstructed,
            WalkEvent::EndConstructed => WalkEventModel::EndConstructed,
            WalkEvent::Error(e) => WalkEventModel::Error(e@),
        }
    }
}

/// The stream inside a value: the contents of a SEQUENCE, of a SET and of an
/// explicit tag. Other values hold none.
pub open spec fn inner_stream(value: TypeModel) -> Option<Seq<u8>> {
    match value {
        TypeModel::Sequence(contents) => Some(contents),
        TypeModel::ASNSet(contents) => Some(contents),
        TypeModel::ExplicitTag(tag) => Some(tag.contents),
        _ => None,
    }
}

/// True when a walk with these events has failed: an error is its last event.
pub open spec fn has_failed(events: Seq<WalkEventModel>) -> bool {
    events.len() > 0 && events.last() is Error
}

/// The events of the walk over the stream `s`. Each value is reported; a
/// value that holds a stream is followed by the begin of that stream, its
/// events and its end. The first error is reported and ends the walk.
pub open spec fn walk_of(s: Seq<u8>) -> Seq<WalkEventModel>
    decreases s.len(),
{
    match next_of(s) {
        (None, _) => Seq::empty(),
        (Some(Err(e)), _) => seq![WalkEventModel::Error(e)],
        (Some(Ok(value)), rest) => {
            proof {
                if s.len() > 0 {
                    lemma_next_shrinks(s);
                    lemma_inner_stream_is_shorter(s);
                }
            }
            match inner_stream(value) {
                None => seq![WalkEventModel::Type(value)] + walk_of(rest),
                Some(inner) => {
                    let below = seq![WalkEventModel::Type(value), WalkEventModel::BeginConstructed]
                        + walk_of(inner);
                    if has_failed(walk_of(inner)) {
                        below
                    } else {
                        below + seq![WalkEventModel::EndConstructed] + walk_of(rest)
                    }
                },
            }
        },
    }
}

/// The stream inside the first value of a stream is shorter than the stream.
pub proof fn lemma_inner_stream_is_shorter(s: Seq<u8>)
    requires
        s.len() > 0,
    ensures
        next_of(s).0 matches Some(Ok(value)) ==> (inner_stream(value) matches Some(inner)
            ==> inner.len() < s.len()),
{
    if let Some(Ok(value)) = next_of(s).0 {
        crate::decoder::lemma_value_parts(s);
    }
}


/// The events that are still to come when the walk stands in the streams of
/// `stack`, each inside the one before it: those of the innermost stream,
/// then for each stream around it the end of the stream inside and its own
/// events. An error ends them.
pub open spec fn rest_of(stack: Seq<Seq<u8>>) -> Seq<WalkEventModel>
    decreases stack.len(),
{
    if stack.len() == 0 {
        Seq::empty()
    } else {
        let innermost = walk_of(stack.last());
        if has_failed(innermost) || stack.len() == 1 {
            innermost
        } else {
            innermost + seq![WalkEventModel::EndConstructed] + rest_of(stack.drop_last())
        }
    }
}

/// The streams that a stack of parsers is left with.
pub open spec fn streams_of(stack: Seq<Parser>) -> Seq<Seq<u8>> {
    stack.map_values(|p: Parser| p@)
}

/// A walk that hands out its events one by one. It keeps the streams it
/// stands in on a stack of its own, so that values nested deeply take no
/// more than memory. Its view is the list of the events still to come.
pub struct Walker<'a> {
    stack: Vec<Parser<'a>>,
    descend: Option<&'a [u8]>,
}

impl<'a> View for Walker<'a> {
    type V = Seq<WalkEventModel>;

    closed spec fn view(&self) -> Seq<WalkEventModel> {
        match self.descend {
            Some(inner) => seq![WalkEventModel::BeginConstructed] + rest_of(
                streams_of(self.stack@).push(inner@),
            ),
            None => rest_of(streams_of(self.stack@)),
        }
    }
}

/// Going down into a stream: its events come first, and where they do not
/// fail, its end and the events of the streams around it follow.
proof fn lemma_rest_of_push(stack: Seq<Seq<u8>>, inner: Seq<u8>)
    requires
        stack.len() > 0,
    ensures
        rest_of(stack.push(inner)) == if has_failed(walk_of(inner)) {
            walk_of(inner)
        } else {
            walk_of(inner) + seq![WalkEventModel::EndConstructed] + rest_of(stack)
        },
{
    assert(stack.push(inner).drop_last() =~= stack);
}

/// Taking a value off the innermost stream: the value is the next event.
proof fn lemma_rest_of_value(stack: Seq<Seq<u8>>, after: Seq<Seq<u8>>)
    requires
        stack.len() > 0,
        after.len() == stack.len(),
        after.drop_last() == stack.drop_last(),
        next_of(stack.last()).0 matches Some(Ok(_)),
        after.last() == next_of(stack.last()).1,
    ensures
        ({
            let value = next_of(stack.last()).0->Some_0->Ok_0;
            rest_of(stack) == seq![WalkEventModel::Type(value)] + match inner_stream(value) {
                None => rest_of(after),
                Some(inner) => seq![WalkEventModel::BeginConstructed] + rest_of(after.push(inner)),
            }
        }),
{
    let value = next_of(stack.last()).0->Some_0->Ok_0;
    let rest = after.last();
    let head = seq![WalkEventModel::Type(value)];
    match inner_stream(value) {
        None => {
            let all = head + walk_of(rest);
            assert(has_failed(all) == has_failed(walk_of(rest)));
        },
        Some(inner) => {
            lemma_rest_of_push(after, inner);
            let begin = seq![WalkEventModel::BeginConstructed];
            let end = seq![WalkEventModel::EndConstructed];
            let below = seq![WalkEventModel::Type(value), WalkEventModel::BeginConstructed]
                + walk_of(inner);
            if !has_failed(walk_of(inner)) {
                let all = below + end + walk_of(rest);
                assert(has_failed(all) == has_failed(walk_of(rest)));
                assert(rest_of(stack) =~= head + (begin + rest_of(after.push(inner))));
            }
        },
    }
}

impl<'a> Walker<'a> {
    /// A walk at the start of `input`.
    pub fn new(input: &'a [u8]) -> (r: Walker<'a>)
        ensures
            r@ == walk_of(input@),
    {
        let mut stack: Vec<Parser<'a>> = Vec::new();
        stack.push(Parser::new(input));
        Walker { stack, descend: None }
    }

    /// The next event of the walk, or `None` when the walk is over.
    pub fn step(&mut self) -> (r: Option<WalkEvent<'a>>)
        ensures
            old(self)@.len() == 0 ==> r is None && final(self)@ == old(self)@,
            old(self)@.len() > 0 ==> r is Some && r->Some_0@ == old(self)@[0] && final(self)@
                == old(self)@.skip(1),
    {
        let ghost streams = streams_of(self.stack@);
        if let Some(inner) = self.descend {
            self.descend = None;
            self.stack.push(Parser::new(inner));
            proof {
                assert(streams_of(self.stack@) =~= streams.push(inner@));
            }
            return Some(WalkEvent::BeginConstructed);
        }
        let mut top = match self.stack.pop() {
            Some(top) => top,
            None => {
                return None;
            },
        };
        let ghost below = streams_of(self.stack@);
        proof {
            assert(below =~= streams.drop_last());
        }
        match top.next() {
            None => {
                if self.stack.len() == 0 {
                    self.stack.push(top);
                    None
                } else {
                    Some(WalkEvent::EndConstructed)
                }
            },
            Some(Err(e)) => {
                self.stack.clear();
                Some(WalkEvent::Error(e))
            },
            Some(Ok(value)) => {
                let inner = match &value {
                    ASNType::Sequence(wrapper) => Some(wrapper.value),
                    ASNType::ASNSet(wrapper) => Some(wrapper.value),
                    ASNType::ExplicitTag(wrapper) => Some(wrapper.value.contents),
                    _ => None,
                };
                self.stack.push(top);
                self.descend = inner;
                proof {
                    let after = streams_of(self.stack@);
                    assert(after.drop_last() =~= streams.drop_last());
                    lemma_rest_of_value(streams, after);
                }
                Some(WalkEvent::Type(value))
            },
        }
    }
}

/// Walks all of `input` and reports each event to `handler`. The walk ends
/// with the first error, which is reported and returned.
pub fn parse_all<T: ParseHandler>(input: &[u8], handler: &mut T) -> (r: Result<(), ASNError>)
    ensures
        r is Ok <==> !has_failed(walk_of(input@)),
        r matches Err(e) ==> walk_of(input@).last() == WalkEventModel::Error(e@),
{
    let mut walker = Walker::new(input);
    loop
        invariant
            walker@.len() <= walk_of(input@).len(),
            walker@ == walk_of(input@).skip(walk_of(input@).len() - walker@.len()),
            forall|i: int|
                0 <= i < walk_of(input@).len() - walker@.len() ==> !(#[trigger] walk_of(input@)[i]
                    is Error),
        decreases walker@.len(),
    {
        match walker.step() {
            None => {
                proof {
                    lemma_error_is_last(input@);
                }
                return Ok(());
            },
            Some(WalkEvent::Type(asn)) => {
                handler.on_type(&asn);
            },
            Some(WalkEvent::BeginConstructed) => {
                handler.begin_constructed();
            },
            Some(WalkEvent::EndConstructed) => {
                handler.end_constructed();
            },
            Some(WalkEvent::Error(err)) => {
                handler.on_error(&err);
                proof {
                    lemma_error_is_last(input@);
                }
                return Err(err);
            },
        }
    }
}

/// An error is the last event of a walk: no event follows one.
pub proof fn lemma_error_is_last(s: Seq<u8>)
    ensures
        forall|i: int|
            0 <= i < walk_of(s).len() && (#[trigger] walk_of(s)[i]) is Error ==> i == walk_of(
                s,
            ).len() - 1,
    decreases s.len(),
{
    match next_of(s) {
        (Some(Ok(value)), rest) => {
            lemma_next_shrinks(s);
            lemma_inner_stream_is_shorter(s);
            lemma_error_is_last(rest);
            match inner_stream(value) {
                None => {},
                Some(inner) => {
                    lemma_error_is_last(inner);
                },
            }
        },
        _ => {},
    }
}

} // verus!
