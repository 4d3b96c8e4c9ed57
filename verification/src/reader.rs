//! A cursor over a borrowed window of bytes.

use vstd::prelude::*;
use vstd::slice::slice_subrange;

verus! {

/// The window ended before the requested bytes could be read.
#[derive(Copy, Clone, Debug, PartialEq, Eq)]
pub struct EndOfStream;

/// A cursor over a borrowed byte window. Its view is the part of the window
/// that has not been read yet.
#[derive(Copy, Clone, Debug)]
pub struct Reader<'a> {
    bytes: &'a [u8],
}

impl<'a> View for Reader<'a> {
    type V = Seq<u8>;

    closed spec fn view(&self) -> Seq<u8> {
        self.bytes@
    }
}

impl<'a> Reader<'a> {
    /// A reader positioned at the start of `bytes`.
    pub fn new(bytes: &'a [u8]) -> (r: Self)
        ensures
            r@ == bytes@,
    {
        Reader { bytes }
    }

    /// Drops everything that is left in the window.
    pub fn clear(&mut self)
        ensures
            final(self)@ == Seq::<u8>::empty(),
    {
        let n = self.bytes.len();
        self.bytes = slice_subrange(self.bytes, n, n);
    }

    /// True when nothing is left of the window.
    pub fn is_empty(&self) -> (r: bool)
        ensures
            r == (self@.len() == 0),
    {
        self.bytes.len() == 0
    }

    /// The count of bytes that are left.
    pub fn len(&self) -> (r: usize)
        ensures
            r == self@.len(),
    {
        self.bytes.len()
    }

    /// The next byte, without advancing.
    pub fn peek_byte(&self) -> (r: Result<u8, EndOfStream>)
        ensures
            self@.len() == 0 ==> r is Err,
            self@.len() > 0 ==> r == Ok::<u8, EndOfStream>(self@[0]),
    {
        if self.bytes.len() == 0 {
            Err(EndOfStream)
        } else {
            Ok(self.bytes[0])
        }
    }

    /// The next byte; the cursor moves past it. On an empty window nothing changes.
    pub fn read_byte(&mut self) -> (r: Result<u8, EndOfStream>)
        ensures
            old(self)@.len() == 0 ==> r is Err && final(self)@ == old(self)@,
            old(self)@.len() > 0 ==> r == Ok::<u8, EndOfStream>(old(self)@[0]) && final(self)@
                == old(self)@.skip(1),
    {
        let n = self.bytes.len();
        if n == 0 {
            Err(EndOfStream)
        } else {
            let first = self.bytes[0];
            self.bytes = slice_subrange(self.bytes, 1, n);
            Ok(first)
        }
    }

    /// The next `count` bytes; the cursor moves past them. When fewer are left
    /// nothing changes.
    pub fn take(&mut self, count: usize) -> (r: Result<&'a [u8], EndOfStream>)
        ensures
            count > old(self)@.len() ==> r is Err && final(self)@ == old(self)@,
            count <= old(self)@.len() ==> r is Ok && r->Ok_0@ == old(self)@.take(count as int)
                && final(self)@ == old(self)@.skip(count as int),
    {
        let n = self.bytes.len();
        if count > n {
            Err(EndOfStream)
        } else {
            let ret = slice_subrange(self.bytes, 0, count);
            self.bytes = slice_subrange(self.bytes, count, n);
            Ok(ret)
        }
    }

    /// What is left of the window.
    pub fn remainder(&self) -> (r: &'a [u8])
        ensures
            r@ == self@,
    {
        self.bytes
    }
}

} // verus!
