use vstd::prelude::*;

verus! {

use vstd::utf8::is_char_boundary;

/// The assumption a cursor mode makes about where its offset may sit.
///
/// [`Byte`] demands nothing; [`Char`] demands a UTF-8 codepoint boundary.
pub trait BoundaryAssumption: Clone + Copy {
    /// Whether `offset` is an admissible position into a buffer whose UTF-8
    /// encoding is `bytes`.
    spec fn offset_ok(bytes: Seq<u8>, offset: int) -> bool;
}

/// Makes no assumption about the offset of the parse helper.
#[derive(Clone, Copy, PartialEq, Eq, PartialOrd, Ord, Hash, Debug)]
pub struct Byte;

impl BoundaryAssumption for Byte {
    open spec fn offset_ok(bytes: Seq<u8>, offset: int) -> bool {
        true
    }
}

/// Assumes the offset of the parse helper is always at UTF-8 boundaries.
#[derive(Clone, Copy, PartialEq, Eq, PartialOrd, Ord, Hash, Debug)]
pub struct Char;

impl BoundaryAssumption for Char {
    open spec fn offset_ok(bytes: Seq<u8>, offset: int) -> bool {
        is_char_boundary(bytes, offset)
    }
}

} // verus!
