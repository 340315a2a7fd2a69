use vstd::prelude::*;

verus! {

use core::marker::PhantomData;
use core::ops::{Range, RangeFrom, RangeFull, RangeInclusive, RangeTo, RangeToInclusive};
use vstd::string::StringSliceAdditionalSpecFns;
use vstd::utf8::{decode_utf8, is_char_boundary};
use crate::boundary::BoundaryAssumption;
use crate::{Byte, ParseHelper};

/// Declares core::ops::RangeFrom to the verifier; its one public field
/// `start` is read directly.
#[verifier::external_type_specification]
#[verifier::reject_recursive_types(Idx)]
pub struct ExRangeFrom<Idx>(RangeFrom<Idx>);

/// Declares core::ops::RangeTo to the verifier; its one public field `end`
/// is read directly.
#[verifier::external_type_specification]
#[verifier::reject_recursive_types(Idx)]
pub struct ExRangeTo<Idx>(RangeTo<Idx>);

/// Declares core::ops::RangeToInclusive to the verifier; its one public
/// field `end` is read directly.
#[verifier::external_type_specification]
#[verifier::reject_recursive_types(Idx)]
pub struct ExRangeToInclusive<Idx>(RangeToInclusive<Idx>);

/// Declares core::ops::RangeFull, the fieldless full-range marker, to the
/// verifier.
#[verifier::external_type_specification]
pub struct ExRangeFull(RangeFull);

/// Relies on core::ops::RangeInclusive::start: it returns the lower bound the
/// range was created with, which vstd models as the `start` of its view.
pub assume_specification<Idx>[ RangeInclusive::<Idx>::start ](r: &RangeInclusive<Idx>) -> (s:
    &Idx)
    ensures
        *s == r@.start,
;

/// Relies on core::ops::RangeInclusive::end: it returns the upper bound the
/// range was created with, which vstd models as the `end` of its view.
pub assume_specification<Idx>[ RangeInclusive::<Idx>::end ](r: &RangeInclusive<Idx>) -> (s: &Idx)
    ensures
        *s == r@.end,
;

/// A range shape that may delimit a slice of a cursor's input.
///
/// The items for which this trait is implemented are carefully chosen to
/// avoid allowing for slicing in the middle of Unicode codepoints: ranges
/// over [`Char`](crate::Char)-mode marks come only in exclusive-end shapes,
/// while [`Byte`]-mode marks also permit the inclusive-end shapes.
pub trait SliceRange<B>: Sized {
    /// The inclusive lower byte offset of the range, against an input of
    /// `len` bytes.
    spec fn spec_start(&self, len: int) -> int;

    /// The exclusive upper byte offset of the range, against an input of
    /// `len` bytes.
    spec fn spec_end(&self, len: int) -> int;

    /// Resolve the range against an input of `len` bytes into a pair of
    /// byte offsets, lower inclusive, upper exclusive.
    fn resolve(&self, len: usize) -> (r: (usize, usize))
        requires
            0 <= self.spec_start(len as int),
            self.spec_start(len as int) <= self.spec_end(len as int),
            self.spec_end(len as int) <= len,
        ensures
            r.0 == self.spec_start(len as int),
            r.1 == self.spec_end(len as int),
    ;
}

impl<B> SliceRange<B> for Range<Mark<B>> {
    open spec fn spec_start(&self, len: int) -> int {
        self.start.byte_position as int
    }

    open spec fn spec_end(&self, len: int) -> int {
        self.end.byte_position as int
    }

    fn resolve(&self, len: usize) -> (usize, usize) {
        (self.start.byte_position, self.end.byte_position)
    }
}

impl<B> SliceRange<B> for RangeFrom<Mark<B>> {
    open spec fn spec_start(&self, len: int) -> int {
        self.start.byte_position as int
    }

    open spec fn spec_end(&self, len: int) -> int {
        len
    }

    fn resolve(&self, len: usize) -> (usize, usize) {
        (self.start.byte_position, len)
    }
}

impl<B> SliceRange<B> for RangeTo<Mark<B>> {
    open spec fn spec_start(&self, len: int) -> int {
        0
    }

    open spec fn spec_end(&self, len: int) -> int {
        self.end.byte_position as int
    }

    fn resolve(&self, len: usize) -> (usize, usize) {
        (0, self.end.byte_position)
    }
}

impl<B> SliceRange<B> for RangeFull {
    open spec fn spec_start(&self, len: int) -> int {
        0
    }

    open spec fn spec_end(&self, len: int) -> int {
        len
    }

    fn resolve(&self, len: usize) -> (usize, usize) {
        (0, len)
    }
}

impl SliceRange<Byte> for RangeToInclusive<Mark<Byte>> {
    open spec fn spec_start(&self, len: int) -> int {
        0
    }

    open spec fn spec_end(&self, len: int) -> int {
        self.end.byte_position + 1
    }

    fn resolve(&self, len: usize) -> (usize, usize) {
        (0, self.end.byte_position + 1)
    }
}

impl SliceRange<Byte> for RangeInclusive<Mark<Byte>> {
    open spec fn spec_start(&self, len: int) -> int {
        self@.start.byte_position as int
    }

    open spec fn spec_end(&self, len: int) -> int {
        self@.end.byte_position + 1
    }

    fn resolve(&self, len: usize) -> (usize, usize) {
        (self.start().byte_position, self.end().byte_position + 1)
    }
}

/// Marks a position in an input stream.
///
/// A mark carries the boundary assumption of the cursor it was taken from, so
/// marks of a [`Char`](crate::Char)-oriented cursor can only be used in slice
/// shapes that respect codepoint boundaries.
#[derive(PartialEq, Eq, PartialOrd, Ord, Hash, Debug)]
pub struct Mark<B> {
    /// The position in the input, in bytes from its start.
    pub byte_position: usize,
    /// The boundary assumption of the cursor this mark was taken from.
    pub boundary: PhantomData<B>,
}

impl<B> Clone for Mark<B> {
    fn clone(&self) -> (r: Self)
        ensures
            r == *self,
    {
        Mark { byte_position: self.byte_position, boundary: PhantomData }
    }
}

impl<B> Copy for Mark<B> {

}

impl<B> Mark<B> {
    /// Get the position in the input of this mark.
    pub fn byte_position(&self) -> (r: usize)
        ensures
            r == self.byte_position,
    {
        self.byte_position
    }
}

impl<'a, B: BoundaryAssumption> ParseHelper<'a, B> {
    /// Same as clone, but this can help show intent (together with
    /// [`restore_backup`](Self::restore_backup)).
    pub fn create_backup(&self) -> (r: Self)
        ensures
            r == *self,
    {
        self.clone()
    }

    /// Simply overwrites self. However, can be nice to show intent.
    pub fn restore_backup(&mut self, other: Self)
        ensures
            *final(self) == other,
    {
        *self = other;
    }

    /// Creates a mark at the current position of the parse helper.
    ///
    /// Used in combination with [`slice`](Self::slice).
    pub fn mark(&self) -> (m: Mark<B>)
        ensures
            m.byte_position == self.byte_position,
    {
        Mark { byte_position: self.byte_position, boundary: PhantomData }
    }

    /// Slices the input of a parse helper between two marks.
    ///
    /// The marks must lie inside the input, the lower below the upper, and
    /// both on codepoint boundaries: a mark of a
    /// [`Char`](crate::Char)-oriented cursor always is, while marks taken
    /// from a [`Byte`]-oriented cursor sitting inside a multi-byte codepoint
    /// are not.
    ///
    /// Note that you can slice a [`Char`](crate::Char)-oriented parse helper
    /// only using exclusive ranges (to not split UTF-8 codepoints
    /// accidentally), but [`Byte`]-oriented parse helpers can also be sliced
    /// using the inclusive ranges. This property is encoded in the
    /// [`SliceRange`] trait.
    pub fn slice<R: SliceRange<B>>(&self, range: R) -> (r: &'a str)
        requires
            self.wf(),
            0 <= range.spec_start(self.byte_len()),
            range.spec_start(self.byte_len()) <= range.spec_end(self.byte_len()),
            range.spec_end(self.byte_len()) <= self.byte_len(),
            is_char_boundary(self.bytes(), range.spec_start(self.byte_len())),
            is_char_boundary(self.bytes(), range.spec_end(self.byte_len())),
        ensures
            r.spec_bytes() == self.bytes().subrange(
                range.spec_start(self.byte_len()),
                range.spec_end(self.byte_len()),
            ),
            r@ == decode_utf8(r.spec_bytes()),
    {
        let n = crate::text::str_byte_len(self.input);
        let bounds = range.resolve(n);
        crate::text::substr_range(self.input, bounds.0, bounds.1)
    }

    /// Takes a closure as a parameter. Anything accepted within the closure
    /// is accepted as normal, but at the end you get back a subslice of the
    /// input of everything that was accepted in the closure.
    ///
    /// The closure must leave the cursor over the same input, at or past its
    /// old offset, and on a codepoint boundary, as every run of `accept*`
    /// calls does.
    pub fn slice_accepted<P, F: FnOnce(&mut Self) -> P>(&mut self, closure: F) -> (r: (P, &'a str))
        requires
            old(self).wf(),
            is_char_boundary(old(self).bytes(), old(self).pos()),
            forall|ph: &mut Self| *ph == *old(self) ==> call_requires(closure, (ph,)),
            forall|ph: &mut Self, out: P|
                call_ensures(closure, (ph,), out) ==> {
                    &&& final(ph).input == ph.input
                    &&& ph.pos() <= final(ph).pos()
                    &&& final(ph).wf()
                    &&& is_char_boundary(final(ph).bytes(), final(ph).pos())
                },
        ensures
            final(self).input == old(self).input,
            final(self).wf(),
            old(self).pos() <= final(self).pos(),
            is_char_boundary(final(self).bytes(), final(self).pos()),
            r.1.spec_bytes() == old(self).bytes().subrange(old(self).pos(), final(self).pos()),
            r.1@ == decode_utf8(r.1.spec_bytes()),
            exists|ph: &mut Self|
                *ph == *old(self) && *final(ph) == *final(self) && #[trigger] call_ensures(
                    closure,
                    (ph,),
                    r.0,
                ),
    {
        let start = self.byte_position;
        let res = closure(self);
        let ghost ghost_res = res;
        proof {
            assert(exists|ph: &mut Self|
                *ph == *old(self) && *final(ph) == *final(self) && #[trigger] call_ensures(
                    closure,
                    (ph,),
                    ghost_res,
                ));
            crate::text::lemma_input_valid_utf8(self.input);
        }
        let sliced = crate::text::substr_range(self.input, start, self.byte_position);
        let pair = (res, sliced);
        proof {
            assert(pair.0 == ghost_res);
            assert(exists|ph: &mut Self|
                *ph == *old(self) && *final(ph) == *final(self) && #[trigger] call_ensures(
                    closure,
                    (ph,),
                    pair.0,
                ));
        }
        pair
    }

    /// Most accept functions return an `Option`. This is like
    /// [`slice_accepted`] but the closure is supposed to return
    /// `Option<()>`. If it's `Some`, you get back the entire accepted range,
    /// if it's `None`, you get back `None`. This may sound like a very
    /// specific usecase, but it comes up a lot.
    ///
    /// This is also safer than [`slice_accepted`], because if `None` is
    /// returned, the parser resets to where it was before accepting anything:
    /// the caller never observes partial progress from a failed sub-parse.
    ///
    /// [`slice_accepted`]: ParseHelper::slice_accepted
    pub fn slice_accepted_option<F: FnOnce(&mut Self) -> Option<()>>(&mut self, closure: F) -> (r:
        Option<&'a str>)
        requires
            old(self).wf(),
            is_char_boundary(old(self).bytes(), old(self).pos()),
            forall|ph: &mut Self| *ph == *old(self) ==> call_requires(closure, (ph,)),
            forall|ph: &mut Self, out: Option<()>|
                call_ensures(closure, (ph,), out) ==> {
                    &&& final(ph).input == ph.input
                    &&& ph.pos() <= final(ph).pos()
                    &&& final(ph).wf()
                    &&& is_char_boundary(final(ph).bytes(), final(ph).pos())
                },
        ensures
            final(self).input == old(self).input,
            final(self).wf(),
            match r {
                Some(s) => {
                    &&& old(self).pos() <= final(self).pos()
                    &&& is_char_boundary(final(self).bytes(), final(self).pos())
                    &&& s.spec_bytes() == old(self).bytes().subrange(
                        old(self).pos(),
                        final(self).pos(),
                    )
                    &&& s@ == decode_utf8(s.spec_bytes())
                    &&& exists|ph: &mut Self|
                        *ph == *old(self) && *final(ph) == *final(self) && #[trigger] call_ensures(
                            closure,
                            (ph,),
                            Some(()),
                        )
                },
                None => {
                    &&& *final(self) == *old(self)
                    &&& exists|ph: &mut Self|
                        *ph == *old(self) && #[trigger] call_ensures(
                            closure,
                            (ph,),
                            Option::<()>::None,
                        )
                },
            },
    {
        let old_backup = self.create_backup();
        let result = self.slice_accepted(closure);
        match result.0 {
            Some(accepted) => {
                proof {
                    assert(result.0 == Some(accepted) && accepted == ());
                }
                Some(result.1)
            },
            None => {
                self.restore_backup(old_backup);
                None
            },
        }
    }

    /// Returns `true` if the end of the input has been reached.
    pub fn done(&self) -> (r: bool)
        requires
            self.wf(),
        ensures
            r == (self.pos() == self.byte_len()),
    {
        self.bytes_left() == 0
    }

    /// Returns how many bytes have been accepted so far.
    /// This is equivalent to getting the current "byte position", the counter
    /// that internally keeps track of accepts.
    pub fn bytes_accepted(&self) -> (r: usize)
        ensures
            r == self.byte_position,
    {
        self.byte_position
    }

    /// Returns how many bytes are left to parse.
    pub fn bytes_left(&self) -> (r: usize)
        requires
            self.wf(),
        ensures
            r == self.byte_len() - self.pos(),
    {
        crate::text::str_byte_len(self.input) - self.byte_position
    }

    /// Returns the next byte that is going to be parsed.
    pub fn upcoming_byte(&self) -> (r: Option<u8>)
        ensures
            r == (if self.pos() < self.byte_len() {
                Some(self.bytes()[self.pos()])
            } else {
                Option::<u8>::None
            }),
    {
        broadcast use vstd::slice::axiom_slice_get_usize;

        let b = self.input.as_bytes();
        match b.get(self.byte_position) {
            Some(x) => Some(*x),
            None => None,
        }
    }
}

/// Law: a well-formed [`Char`](crate::Char)-mode cursor always sits on a
/// codepoint boundary of its input, whatever operations produced it: every
/// operation requires well-formedness going in and ensures it coming out.
pub proof fn lemma_char_cursor_on_boundary<'a>(ph: ParseHelper<'a, crate::Char>)
    requires
        ph.wf(),
    ensures
        is_char_boundary(ph.bytes(), ph.pos()),
{
}

/// Law: a full range resolves to the whole input of any well-formed cursor,
/// whatever its offset, and its two bounds always sit on codepoint
/// boundaries, so `slice(..)` always returns the entire original buffer.
pub proof fn lemma_slice_full_range<'a, B: BoundaryAssumption>(
    ph: ParseHelper<'a, B>,
    range: RangeFull,
)
    requires
        ph.wf(),
    ensures
        <RangeFull as SliceRange<B>>::spec_start(&range, ph.byte_len()) == 0,
        <RangeFull as SliceRange<B>>::spec_end(&range, ph.byte_len()) == ph.byte_len(),
        is_char_boundary(ph.bytes(), 0),
        is_char_boundary(ph.bytes(), ph.byte_len()),
        ph.bytes().subrange(0, ph.byte_len()) == ph.bytes(),
{
    crate::text::lemma_input_valid_utf8(ph.input);
    vstd::utf8::is_char_boundary_start_end_of_seq(ph.bytes());
    assert(ph.bytes().subrange(0, ph.byte_len()) =~= ph.bytes());
}

/// Law: a mark taken at the cursor's position, used as the start of an
/// open-ended range, delimits exactly the cursor's remaining input, so
/// `slice(mark..)` on an unmoved cursor returns the same view `leftover`
/// does.
pub proof fn lemma_mark_slice_is_leftover<'a, B: BoundaryAssumption>(
    ph: ParseHelper<'a, B>,
    range: RangeFrom<Mark<B>>,
)
    requires
        ph.wf(),
        range.start.byte_position == ph.byte_position,
    ensures
        range.spec_start(ph.byte_len()) == ph.pos(),
        range.spec_end(ph.byte_len()) == ph.byte_len(),
        ph.bytes().subrange(ph.pos(), ph.byte_len()) == ph.remaining_bytes(),
{
}

impl<'a, B: BoundaryAssumption> ParseHelper<'a, B> {
    /// Turn this parse helper into a byte-oriented parse helper.
    ///
    /// This is always legal: the byte orientation assumes nothing of the
    /// offset.
    pub fn into_byte_oriented(self) -> (r: ParseHelper<'a, Byte>)
        requires
            self.wf(),
        ensures
            r.input == self.input,
            r.byte_position == self.byte_position,
            r.wf(),
    {
        ParseHelper { input: self.input, byte_position: self.byte_position, boundary_assumption: PhantomData }
    }
}

} // verus!
