//! A cursor over a borrowed window of bytes that counts what it has handed out.

use vstd::prelude::*;
use vstd::slice::slice_subrange;

verus! {

/// The window ended before the requested bytes; holds the count of bytes
/// that the cursor had handed out by then.
#[derive(Debug, PartialEq, Eq, Clone, Copy)]
pub enum InputError {
    EndOfStream(usize),
}

/// What a cursor holds: the bytes that are left, and the count of bytes handed out.
pub struct InputModel {
    pub bytes: Seq<u8>,
    pub position: nat,
}

/// A cursor over a borrowed byte window.
pub struct Input<'a> {
    bytes: &'a [u8],
    pos: usize,
}

impl<'a> View for Input<'a> {
    type V = InputModel;

    closed spec fn view(&self) -> InputModel {
        InputModel { bytes: self.bytes@, position: self.pos as nat }
    }
}

impl<'a> Input<'a> {
    #[verifier::type_invariant]
    spec fn position_fits(self) -> bool {
        self.pos + self.bytes@.len() <= usize::MAX
    }

    /// A cursor at the start of `bytes`.
    pub fn new(bytes: &'a [u8]) -> (r: Input<'a>)
        ensures
            r@ == (InputModel { bytes: bytes@, position: 0 }),
    {
        let n = bytes.len();
        assert(n == bytes@.len());
        Input { bytes, pos: 0 }
    }

    /// The count of bytes that are left.
    pub fn len(&self) -> (r: usize)
        ensures
            r == self@.bytes.len(),
    {
        self.bytes.len()
    }

    /// An iterator over the bytes that are left.
    pub fn iter(&self) -> (r: core::slice::Iter<'a, u8>)
        ensures
            r == vstd::std_specs::slice::spec_slice_iter(self.window()),
    {
        self.bytes.iter()
    }

    /// The bytes that are left.
    pub fn as_slice_less_safe(&self) -> (r: &'a [u8])
        ensures
            r@ == self@.bytes,
            r == self.window(),
    {
        self.bytes
    }

    /// The slice of the bytes that are left.
    pub closed spec fn window(&self) -> &'a [u8] {
        self.bytes
    }

    /// The next byte; the cursor moves past it. On an empty window nothing changes.
    pub fn consume(&mut self) -> (r: Result<u8, InputError>)
        ensures
            old(self)@.bytes.len() == 0 ==> r == Err::<u8, InputError>(
                InputError::EndOfStream(old(self)@.position as usize),
            ) && final(self)@ == old(self)@,
            old(self)@.bytes.len() > 0 ==> r == Ok::<u8, InputError>(old(self)@.bytes[0])
                && final(self)@ == (InputModel {
                bytes: old(self)@.bytes.skip(1),
                position: old(self)@.position + 1,
            }),
    {
        proof {
            use_type_invariant(&*self);
        }
        let n = self.bytes.len();
        if n == 0 {
            Err(InputError::EndOfStream(self.pos))
        } else {
            let value: u8 = self.bytes[0];
            self.bytes = slice_subrange(self.bytes, 1, n);
            self.pos = self.pos + 1;
            Ok(value)
        }
    }

    /// The next `count` bytes as a cursor of their own; this cursor moves
    /// past them. When fewer are left nothing changes.
    pub fn take(&mut self, count: usize) -> (r: Result<Input<'a>, InputError>)
        ensures
            old(self)@.bytes.len() < count ==> r is Err && r->Err_0 == InputError::EndOfStream(
                old(self)@.position as usize,
            ) && final(self)@ == old(self)@,
            old(self)@.bytes.len() >= count ==> r is Ok && r->Ok_0@ == (InputModel {
                bytes: old(self)@.bytes.take(count as int),
                position: 0,
            }) && final(self)@ == (InputModel {
                bytes: old(self)@.bytes.skip(count as int),
                position: (old(self)@.position + count) as nat,
            }),
    {
        proof {
            use_type_invariant(&*self);
        }
        let n = self.bytes.len();
        if n < count {
            Err(InputError::EndOfStream(self.pos))
        } else {
            let ret = Input::new(slice_subrange(self.bytes, 0, count));
            self.bytes = slice_subrange(self.bytes, count, n);
            self.pos = self.pos + count;
            Ok(ret)
        }
    }
}

} // verus!
