//! A scanning cursor over a borrowed string buffer, for hand-written parsers
//! and lexers.
//!
//! A [`ParseHelper`] tracks a byte offset into its input and offers small
//! `accept*` and `skip*` primitives that either consume one whole unit (a
//! byte, a codepoint, a literal) or leave the cursor untouched. The type
//! parameter records the boundary assumption: a [`Char`]-oriented helper keeps
//! its offset on a UTF-8 codepoint boundary at all times, a [`Byte`]-oriented
//! helper may sit anywhere. Marks taken from a cursor remember positions for
//! later slicing, and carry the same boundary tag, so a slice through
//! [`Char`]-mode marks can never split a multi-byte codepoint.

use vstd::prelude::*;

// operations valid on any parse helper: marks, slicing, backtracking
mod any;

// ZSTs marking the boundary assumption
mod boundary;

// operations only valid on boundary::Byte parse helpers
mod byte;

// commonly parsed tokens
mod common;

// operations to construct a parse helper
mod new;

// operations only valid on boundary::Char parse helpers
mod string;

// the table of whitespace codepoints and lemmas about UTF-8 spans
mod text;

pub use any::{Mark, SliceRange, lemma_char_cursor_on_boundary, lemma_mark_slice_is_leftover, lemma_slice_full_range};
pub use boundary::{Byte, Char, BoundaryAssumption};
pub use common::{xid_continue_char, xid_start_char};
pub use text::is_whitespace_char;

verus! {

use core::marker::PhantomData;
use vstd::string::StringSliceAdditionalSpecFns;
use vstd::utf8::decode_utf8;
use crate::boundary::BoundaryAssumption as BoundaryAssumptionTrait;

/// A wrapper around a borrowed string that allows you to extract parts of it,
/// maybe to help implement a parser.
///
/// The cursor borrows its input for its whole life and never copies it; every
/// slice it hands out borrows from the input too, not from the cursor.
///
/// `accept*` methods match something against the upcoming input and either
/// consume it whole or leave the offset exactly where it was; `skip*` methods
/// advance unconditionally; `upcoming*` methods peek without consuming;
/// `*until*` methods consume up to, but never including, the first unit on
/// which a condition holds.
///
/// The boundary parameter `B` is [`Byte`] or [`Char`]. A `Char`-oriented
/// helper can never have an offset that is not on a UTF-8 boundary, while a
/// `Byte`-oriented helper can.
pub struct ParseHelper<'a, B> {
    /// The borrowed input buffer.
    pub input: &'a str,
    /// The current offset, in bytes from the start of `input`.
    pub byte_position: usize,
    /// The boundary assumption, carried only in the type.
    pub boundary_assumption: PhantomData<B>,
}

impl<'a, B> Clone for ParseHelper<'a, B> {
    fn clone(&self) -> (r: Self)
        ensures
            r == *self,
    {
        Self { input: self.input, byte_position: self.byte_position, boundary_assumption: PhantomData }
    }
}

impl<'a, B> Copy for ParseHelper<'a, B> {

}

impl<'a, B> ParseHelper<'a, B> {
    /// The whole input, as the byte sequence of its UTF-8 encoding.
    pub open spec fn bytes(&self) -> Seq<u8> {
        self.input.spec_bytes()
    }

    /// The length of the input in bytes.
    pub open spec fn byte_len(&self) -> int {
        self.bytes().len() as int
    }

    /// The current offset as a mathematical integer.
    pub open spec fn pos(&self) -> int {
        self.byte_position as int
    }

    /// The bytes already consumed: everything before the offset.
    pub open spec fn accepted_bytes(&self) -> Seq<u8> {
        self.bytes().subrange(0, self.pos())
    }

    /// The bytes not yet consumed: everything from the offset on.
    pub open spec fn remaining_bytes(&self) -> Seq<u8> {
        self.bytes().subrange(self.pos(), self.byte_len())
    }

    /// The not-yet-consumed input, decoded as a sequence of characters.
    /// Meaningful only while the offset is on a codepoint boundary.
    pub open spec fn remaining_chars(&self) -> Seq<char> {
        decode_utf8(self.remaining_bytes())
    }

    /// Returns the length of the whole input in bytes.
    pub fn len(&self) -> (n: usize)
        ensures
            n == self.byte_len(),
    {
        crate::text::str_byte_len(self.input)
    }

    /// Returns `true` if the whole input is empty.
    pub fn is_empty(&self) -> (r: bool)
        ensures
            r == (self.byte_len() == 0),
    {
        self.input.is_empty()
    }
}

impl<'a, B: BoundaryAssumptionTrait> ParseHelper<'a, B> {
    /// The cursor is well formed: the offset is inside the input, and it
    /// satisfies whatever the boundary assumption demands of it.
    pub open spec fn wf(&self) -> bool {
        &&& self.byte_len() <= usize::MAX
        &&& self.pos() <= self.byte_len()
        &&& B::offset_ok(self.bytes(), self.pos())
    }
}

} // verus!
