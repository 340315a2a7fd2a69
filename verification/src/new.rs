use vstd::prelude::*;

verus! {

use core::marker::PhantomData;
use vstd::string::StringSliceAdditionalSpecFns;
use crate::{Byte, Char, ParseHelper};

impl<'a> From<&'a str> for ParseHelper<'a, Char> {
    fn from(value: &'a str) -> (r: Self) {
        Self::new_char_oriented(value)
    }
}

impl<'a> vstd::std_specs::convert::FromSpecImpl<&'a str> for ParseHelper<'a, Char> {
    open spec fn obeys_from_spec() -> bool {
        true
    }

    open spec fn from_spec(value: &'a str) -> Self {
        ParseHelper { input: value, byte_position: 0, boundary_assumption: PhantomData }
    }
}

impl<'a> ParseHelper<'a, Byte> {
    /// Creates a new [`ParseHelper`] that assumes
    /// steps can be taken one byte at a time.
    pub fn new_byte_oriented(input: &'a str) -> (r: Self)
        ensures
            r.input == input,
            r.pos() == 0,
            r.wf(),
    {
        let _n = crate::text::str_byte_len(input);
        Self { input, byte_position: 0, boundary_assumption: PhantomData }
    }
}

impl<'a> ParseHelper<'a, Char> {
    /// Creates a new [`ParseHelper`] that assumes
    /// steps can only be taken one UTF-8 codepoint at a time,
    /// and we can never end up between codepoints.
    pub fn new_char_oriented(input: &'a str) -> (r: Self)
        ensures
            r.input == input,
            r.pos() == 0,
            r.wf(),
    {
        let _n = crate::text::str_byte_len(input);
        proof {
            crate::text::lemma_input_valid_utf8(input);
            vstd::utf8::is_char_boundary_start_end_of_seq(input.spec_bytes());
        }
        Self { input, byte_position: 0, boundary_assumption: PhantomData }
    }
}

} // verus!
