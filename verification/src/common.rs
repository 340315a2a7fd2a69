use vstd::prelude::*;

verus! {

use vstd::string::StringSliceAdditionalSpecFns;
use crate::{Char, ParseHelper};

/// Whether the character has the Unicode `XID_Start` property, the class a
/// Rust-style identifier may begin with.
pub uninterp spec fn xid_start_char(c: char) -> bool;

/// Whether the character has the Unicode `XID_Continue` property, the class a
/// Rust-style identifier may continue with.
pub uninterp spec fn xid_continue_char(c: char) -> bool;

/// Relies on icu_properties::sets::xid_start and
/// icu_properties::sets::CodePointSetDataBorrowed::contains: membership of
/// the codepoint in the compiled XID_Start set, a function of the character
/// alone.
#[verifier::external_body]
fn is_xid_start(c: char) -> (r: bool)
    ensures
        r == xid_start_char(c),
{
    icu_properties::sets::xid_start().contains(c)
}

/// Relies on icu_properties::sets::xid_continue and
/// icu_properties::sets::CodePointSetDataBorrowed::contains: membership of
/// the codepoint in the compiled XID_Continue set, a function of the
/// character alone.
#[verifier::external_body]
fn is_xid_continue(c: char) -> (r: bool)
    ensures
        r == xid_continue_char(c),
{
    icu_properties::sets::xid_continue().contains(c)
}

impl<'a> ParseHelper<'a, Char> {
    /// Parses a Rust-style identifier starting with `XID_START` and followed
    /// by zero or more `XID_CONT` characters.
    pub fn accept_rust_ident(&mut self) -> (r: Option<&'a str>)
        requires
            old(self).wf(),
        ensures
            final(self).input == old(self).input,
            final(self).wf(),
            match r {
                Some(s) => {
                    &&& old(self).remaining_chars().len() > 0
                    &&& s@.len() >= 1
                    &&& s@[0] == old(self).remaining_chars()[0]
                    &&& xid_start_char(s@[0])
                    &&& forall|j: int| 1 <= j < s@.len() ==> xid_continue_char(s@[j])
                    &&& old(self).remaining_chars() == s@ + final(self).remaining_chars()
                    &&& final(self).remaining_chars().len() > 0 ==> !xid_continue_char(
                        final(self).remaining_chars()[0],
                    )
                    &&& s.spec_bytes() == old(self).bytes().subrange(
                        old(self).pos(),
                        final(self).pos(),
                    )
                },
                None => {
                    &&& *final(self) == *old(self)
                    &&& old(self).remaining_chars().len() > 0 ==> !xid_start_char(
                        old(self).remaining_chars()[0],
                    )
                },
            },
    {
        let upcoming = self.upcoming_char();
        match upcoming {
            None => None,
            Some(first_char) => {
                if !is_xid_start(first_char) {
                    None
                } else {
                    let start = self.byte_position;
                    let head = self.accept_char_with(
                        |x: char| -> (b: bool)
                            ensures
                                b == xid_start_char(x)
                            { is_xid_start(x) },
                    );
                    let ghost mid = *self;
                    let tail = self.accept_until_char_with(
                        |x: char| -> (b: bool)
                            ensures
                                b == !xid_continue_char(x)
                            { !is_xid_continue(x) },
                    );
                    proof {
                        crate::text::lemma_input_valid_utf8(self.input);
                        crate::text::lemma_decode_split3(
                            self.bytes(),
                            start as int,
                            mid.pos(),
                            self.pos(),
                        );
                        crate::text::lemma_str_view_decode(head.unwrap());
                        assert(old(self).remaining_chars() =~= seq![
                            old(self).remaining_chars()[0],
                        ] + old(self).remaining_chars().drop_first());
                    }
                    let s = crate::text::substr_range(self.input, start, self.byte_position);
                    proof {
                        assert(s@ =~= head.unwrap()@ + tail@);
                        assert(old(self).remaining_chars() =~= s@ + self.remaining_chars());
                    }
                    Some(s)
                }
            },
        }
    }
}

} // verus!
