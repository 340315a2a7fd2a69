use vstd::prelude::*;

verus! {

use core::marker::PhantomData;
use vstd::slice::slice_subrange;
use vstd::string::StringSliceAdditionalSpecFns;
use vstd::utf8::is_char_boundary;
use crate::{Byte, Char, ParseHelper};

impl<'a> ParseHelper<'a, Byte> {
    /// Discard the upcoming byte.
    pub fn skip_byte(&mut self)
        requires
            old(self).wf(),
            old(self).pos() < old(self).byte_len(),
        ensures
            final(self).input == old(self).input,
            final(self).pos() == old(self).pos() + 1,
            final(self).wf(),
    {
        self.skip_bytes(1);
    }

    /// Discard the upcoming `n` bytes.
    pub fn skip_bytes(&mut self, n: usize)
        requires
            old(self).wf(),
            old(self).pos() + n <= old(self).byte_len(),
        ensures
            final(self).input == old(self).input,
            final(self).pos() == old(self).pos() + n,
            final(self).wf(),
    {
        self.byte_position = self.byte_position + n;
    }

    /// Checks if the parser is currently on a UTF-8 boundary.
    pub fn is_at_utf8_boundary(&self) -> (r: bool)
        ensures
            r == is_char_boundary(self.bytes(), self.pos()),
    {
        self.input.is_char_boundary(self.byte_position)
    }

    /// Skips until a UTF-8 boundary is reached (which is never more than 3
    /// bytes away).
    pub fn skip_to_next_utf8_char_boundary(&mut self)
        requires
            old(self).wf(),
        ensures
            final(self).input == old(self).input,
            final(self).wf(),
            old(self).pos() <= final(self).pos() <= old(self).pos() + 3,
            is_char_boundary(final(self).bytes(), final(self).pos()),
            forall|j: int|
                old(self).pos() <= j < final(self).pos() ==> !is_char_boundary(
                    final(self).bytes(),
                    j,
                ),
    {
        proof {
            crate::text::lemma_input_valid_utf8(self.input);
            crate::text::lemma_boundary_within_4(self.bytes(), self.pos());
        }
        while !self.is_at_utf8_boundary()
            invariant
                self.wf(),
                self.input == old(self).input,
                old(self).pos() <= self.pos() <= old(self).pos() + 3,
                exists|b: int|
                    self.pos() <= b <= old(self).pos() + 3 && b <= self.byte_len()
                        && is_char_boundary(self.bytes(), b),
                forall|j: int|
                    old(self).pos() <= j < self.pos() ==> !is_char_boundary(self.bytes(), j),
            decreases self.byte_len() - self.pos(),
        {
            proof {
                crate::text::lemma_input_valid_utf8(self.input);
                vstd::utf8::is_char_boundary_start_end_of_seq(self.bytes());
            }
            self.skip_byte();
        }
    }

    /// Turn this byte-oriented parse helper into a char-oriented parser,
    /// if it is currently at a UTF-8 boundary
    /// (see [`skip_into_char_oriented`](Self::skip_into_char_oriented)).
    ///
    /// If not, returns `None`.
    pub fn into_char_oriented(self) -> (r: Option<ParseHelper<'a, Char>>)
        requires
            self.wf(),
        ensures
            match r {
                Some(c) => {
                    &&& is_char_boundary(self.bytes(), self.pos())
                    &&& c.input == self.input
                    &&& c.byte_position == self.byte_position
                    &&& c.wf()
                },
                None => !is_char_boundary(self.bytes(), self.pos()),
            },
    {
        if !self.is_at_utf8_boundary() {
            None
        } else {
            Some(ParseHelper { input: self.input, byte_position: self.byte_position, boundary_assumption: PhantomData })
        }
    }

    /// Turn this parse helper that does not assume UTF-8 boundaries into one
    /// that does.
    ///
    /// If the parse helper is not currently at a UTF-8 boundary, it skips to
    /// the next boundary.
    pub fn skip_into_char_oriented(self) -> (r: ParseHelper<'a, Char>)
        requires
            self.wf(),
        ensures
            r.input == self.input,
            r.wf(),
            self.pos() <= r.pos() <= self.pos() + 3,
            forall|j: int| self.pos() <= j < r.pos() ==> !is_char_boundary(r.bytes(), j),
    {
        let mut moved = self;
        moved.skip_to_next_utf8_char_boundary();
        match moved.into_char_oriented() {
            Some(c) => c,
            None => vstd::pervasive::unreached(),
        }
    }

    /// Returns the remaining bytes, the part that has not yet been accepted.
    pub fn leftover(&self) -> (r: &'a [u8])
        requires
            self.wf(),
        ensures
            r@ == self.remaining_bytes(),
    {
        broadcast use vstd::slice::axiom_spec_len;

        let b = self.input.as_bytes();
        slice_subrange(b, self.byte_position, b.len())
    }

    /// Accepts a single byte from the input if it equals `c`.
    ///
    /// Returns whether the byte was accepted.
    pub fn accept_byte(&mut self, c: u8) -> (r: bool)
        requires
            old(self).wf(),
        ensures
            final(self).input == old(self).input,
            final(self).wf(),
            r == (old(self).pos() < old(self).byte_len() && old(self).bytes()[old(self).pos()]
                == c),
            r ==> final(self).pos() == old(self).pos() + 1,
            !r ==> *final(self) == *old(self),
    {
        let accepted = self.accept_byte_with(
            |x: u8| -> (b: bool)
                ensures
                    b == (c == x)
                { c == x },
        );
        accepted.is_some()
    }

    /// Accepts a sequence of bytes from the input.
    ///
    /// Returns a slice containing the same bytes that were asked to be
    /// accepted, but notably the lifetime is different. The new lifetime is
    /// that of the input.
    pub fn accept(&mut self, bytes: &[u8]) -> (r: Option<&'a [u8]>)
        requires
            old(self).wf(),
        ensures
            final(self).input == old(self).input,
            final(self).wf(),
            match r {
                Some(s) => {
                    &&& old(self).remaining_bytes().len() >= bytes@.len()
                    &&& old(self).bytes().subrange(
                        old(self).pos(),
                        old(self).pos() + bytes@.len(),
                    ) == bytes@
                    &&& s@ == bytes@
                    &&& final(self).pos() == old(self).pos() + bytes@.len()
                },
                None => {
                    &&& *final(self) == *old(self)
                    &&& !(old(self).remaining_bytes().len() >= bytes@.len() && old(
                        self,
                    ).bytes().subrange(old(self).pos(), old(self).pos() + bytes@.len()) == bytes@)
                },
            },
    {
        broadcast use vstd::slice::axiom_spec_len;

        let b = self.input.as_bytes();
        if bytes.len() > b.len() - self.byte_position {
            return None;
        }
        let equivalent_input = slice_subrange(
            b,
            self.byte_position,
            self.byte_position + bytes.len(),
        );
        if crate::text::bytes_eq(equivalent_input, bytes) {
            self.byte_position = self.byte_position + bytes.len();
            Some(equivalent_input)
        } else {
            None
        }
    }

    /// Accepts until the closure matches the current byte.
    ///
    /// Returns what's accepted until then, but not including the matching
    /// byte.
    pub fn accept_until_byte_with<F: Fn(u8) -> bool>(&mut self, f: F) -> (r: &'a [u8])
        requires
            old(self).wf(),
            forall|x: u8| call_requires(f, (x,)),
        ensures
            final(self).input == old(self).input,
            final(self).wf(),
            old(self).pos() <= final(self).pos(),
            r@ == old(self).bytes().subrange(old(self).pos(), final(self).pos()),
            forall|j: int|
                old(self).pos() <= j < final(self).pos() ==> call_ensures(
                    f,
                    (old(self).bytes()[j],),
                    false,
                ),
            final(self).pos() < final(self).byte_len() ==> call_ensures(
                f,
                (final(self).bytes()[final(self).pos()],),
                true,
            ),
    {
        broadcast use vstd::slice::axiom_spec_len;

        let start = self.byte_position;
        let b = self.input.as_bytes();
        loop
            invariant
                self.wf(),
                self.input == old(self).input,
                b@ == self.bytes(),
                start == old(self).byte_position,
                old(self).pos() <= self.pos(),
                forall|x: u8| call_requires(f, (x,)),
                forall|j: int|
                    old(self).pos() <= j < self.pos() ==> call_ensures(
                        f,
                        (old(self).bytes()[j],),
                        false,
                    ),
            ensures
                self.wf(),
                self.input == old(self).input,
                start == old(self).byte_position,
                old(self).pos() <= self.pos(),
                forall|j: int|
                    old(self).pos() <= j < self.pos() ==> call_ensures(
                        f,
                        (old(self).bytes()[j],),
                        false,
                    ),
                self.pos() < self.byte_len() ==> call_ensures(
                    f,
                    (self.bytes()[self.pos()],),
                    true,
                ),
            decreases self.byte_len() - self.pos(),
        {
            if self.byte_position >= b.len() {
                break ;
            }
            let next_byte = *vstd::slice::slice_index_get(b, self.byte_position);
            if f(next_byte) {
                break ;
            }
            self.byte_position = self.byte_position + 1;
        }
        slice_subrange(b, start, self.byte_position)
    }

    /// Accepts until a specific byte is encountered.
    ///
    /// Returns what's accepted until then, but not including the matching
    /// byte.
    pub fn accept_until_byte(&mut self, c: u8) -> (r: &'a [u8])
        requires
            old(self).wf(),
        ensures
            final(self).input == old(self).input,
            final(self).wf(),
            old(self).pos() <= final(self).pos(),
            r@ == old(self).bytes().subrange(old(self).pos(), final(self).pos()),
            forall|j: int|
                old(self).pos() <= j < final(self).pos() ==> old(self).bytes()[j] != c,
            final(self).pos() < final(self).byte_len() ==> final(self).bytes()[final(self).pos()]
                == c,
    {
        self.accept_until_byte_with(
            |x: u8| -> (b: bool)
                ensures
                    b == (x == c)
                { x == c },
        )
    }

    /// Accepts a byte if the passed closure evaluates to true.
    ///
    /// Returns what it accepted, if anything.
    pub fn accept_byte_with<F: Fn(u8) -> bool>(&mut self, f: F) -> (r: Option<u8>)
        requires
            old(self).wf(),
            forall|x: u8| call_requires(f, (x,)),
        ensures
            final(self).input == old(self).input,
            final(self).wf(),
            match r {
                Some(b) => {
                    &&& old(self).pos() < old(self).byte_len()
                    &&& b == old(self).bytes()[old(self).pos()]
                    &&& call_ensures(f, (b,), true)
                    &&& final(self).pos() == old(self).pos() + 1
                },
                None => {
                    &&& *final(self) == *old(self)
                    &&& old(self).pos() < old(self).byte_len() ==> call_ensures(
                        f,
                        (old(self).bytes()[old(self).pos()],),
                        false,
                    )
                },
            },
    {
        let upcoming = self.upcoming_byte();
        match upcoming {
            Some(b) => {
                if f(b) {
                    self.skip_byte();
                    Some(b)
                } else {
                    None
                }
            },
            None => None,
        }
    }
}

} // verus!
