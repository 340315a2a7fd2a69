use vstd::prelude::*;

verus! {

use vstd::slice::slice_subrange;
use vstd::string::StringSliceAdditionalSpecFns;
use vstd::utf8::decode_utf8;
use crate::text::is_whitespace_char;
use crate::{Char, ParseHelper};

impl<'a> ParseHelper<'a, Char> {
    /// Returns the remaining string, the part that has not yet been accepted.
    pub fn leftover(&self) -> (r: &'a str)
        requires
            self.wf(),
        ensures
            r.spec_bytes() == self.remaining_bytes(),
            r@ == self.remaining_chars(),
    {
        proof {
            crate::text::lemma_input_valid_utf8(self.input);
            vstd::utf8::is_char_boundary_start_end_of_seq(self.bytes());
        }
        let n = crate::text::str_byte_len(self.input);
        crate::text::substr_range(self.input, self.byte_position, n)
    }

    /// Returns the next character to be accepted.
    pub fn upcoming_char(&self) -> (r: Option<char>)
        requires
            self.wf(),
        ensures
            (self.remaining_chars().len() > 0) == (self.pos() < self.byte_len()),
            self.remaining_chars().len() > 0 ==> r == Some(self.remaining_chars()[0]),
            self.remaining_chars().len() == 0 ==> r is None,
    {
        broadcast use
            vstd::string::axiom_spec_iter,
            vstd::string::next_postcondition;

        proof {
            crate::text::lemma_input_valid_utf8(self.input);
            vstd::utf8::valid_utf8_split(self.bytes(), self.pos());
            if self.pos() < self.byte_len() {
                crate::text::lemma_first_char_decode(self.bytes(), self.pos());
            } else {
                assert(self.remaining_bytes() =~= Seq::<u8>::empty());
            }
        }
        let rest = self.leftover();
        let mut it = rest.chars();
        it.next()
    }

    /// Accepts a sequence of characters from the input.
    ///
    /// Returns a string slice containing the same things that were asked to
    /// be accepted, but notably the lifetime is different. The new lifetime
    /// is that of the input.
    pub fn accept(&mut self, s: &str) -> (r: Option<&'a str>)
        requires
            old(self).wf(),
        ensures
            final(self).input == old(self).input,
            final(self).wf(),
            match r {
                Some(m) => {
                    &&& old(self).remaining_bytes().len() >= s.spec_bytes().len()
                    &&& old(self).bytes().subrange(
                        old(self).pos(),
                        old(self).pos() + s.spec_bytes().len(),
                    ) == s.spec_bytes()
                    &&& m.spec_bytes() == s.spec_bytes()
                    &&& m@ == s@
                    &&& final(self).pos() == old(self).pos() + s.spec_bytes().len()
                },
                None => {
                    &&& *final(self) == *old(self)
                    &&& !(old(self).remaining_bytes().len() >= s.spec_bytes().len() && old(
                        self,
                    ).bytes().subrange(old(self).pos(), old(self).pos() + s.spec_bytes().len())
                        == s.spec_bytes())
                },
            },
    {
        broadcast use vstd::slice::axiom_spec_len;

        let needle = s.as_bytes();
        let b = self.input.as_bytes();
        if needle.len() > b.len() - self.byte_position {
            return None;
        }
        let window = slice_subrange(b, self.byte_position, self.byte_position + needle.len());
        if crate::text::bytes_eq(window, needle) {
            let start = self.byte_position;
            proof {
                crate::text::lemma_input_valid_utf8(self.input);
                crate::text::lemma_input_valid_utf8(s);
                crate::text::lemma_prefix_match_boundary(
                    self.bytes(),
                    self.pos(),
                    s.spec_bytes(),
                );
            }
            self.byte_position = self.byte_position + needle.len();
            let m = crate::text::substr_range(self.input, start, self.byte_position);
            proof {
                crate::text::lemma_str_view_decode(s);
            }
            Some(m)
        } else {
            None
        }
    }

    /// Accepts a character if the passed closure evaluates to true.
    ///
    /// Returns what it accepted, if anything.
    pub fn accept_char_with<F: Fn(char) -> bool>(&mut self, f: F) -> (r: Option<&'a str>)
        requires
            old(self).wf(),
            forall|c: char| call_requires(f, (c,)),
        ensures
            final(self).input == old(self).input,
            final(self).wf(),
            match r {
                Some(s) => {
                    &&& old(self).remaining_chars().len() > 0
                    &&& call_ensures(f, (old(self).remaining_chars()[0],), true)
                    &&& s@ == seq![old(self).remaining_chars()[0]]
                    &&& s.spec_bytes() == old(self).bytes().subrange(
                        old(self).pos(),
                        final(self).pos(),
                    )
                    &&& old(self).pos() < final(self).pos()
                    &&& final(self).remaining_chars() == old(self).remaining_chars().drop_first()
                },
                None => {
                    &&& *final(self) == *old(self)
                    &&& old(self).remaining_chars().len() > 0 ==> call_ensures(
                        f,
                        (old(self).remaining_chars()[0],),
                        false,
                    )
                },
            },
    {
        let upcoming = self.upcoming_char();
        match upcoming {
            None => None,
            Some(next_char) => {
                if f(next_char) {
                    let old_pos = self.byte_position;
                    proof {
                        crate::text::lemma_input_valid_utf8(self.input);
                        crate::text::lemma_first_char_decode(self.bytes(), self.pos());
                    }
                    let w = crate::text::scalar_width_at(self.input, self.byte_position);
                    self.byte_position = self.byte_position + w;
                    Some(crate::text::substr_range(self.input, old_pos, self.byte_position))
                } else {
                    None
                }
            },
        }
    }

    /// Accepts until the closure matches the current character.
    ///
    /// Returns what's accepted until then, but not including the matching
    /// character.
    pub fn accept_until_char_with<F: Fn(char) -> bool>(&mut self, f: F) -> (r: &'a str)
        requires
            old(self).wf(),
            forall|c: char| call_requires(f, (c,)),
        ensures
            final(self).input == old(self).input,
            final(self).wf(),
            old(self).pos() <= final(self).pos(),
            r.spec_bytes() == old(self).bytes().subrange(old(self).pos(), final(self).pos()),
            r@ == decode_utf8(r.spec_bytes()),
            old(self).remaining_chars() == r@ + final(self).remaining_chars(),
            forall|j: int| 0 <= j < r@.len() ==> call_ensures(f, (r@[j],), false),
            final(self).remaining_chars().len() > 0 ==> call_ensures(
                f,
                (final(self).remaining_chars()[0],),
                true,
            ),
    {
        let start = self.byte_position;
        proof {
            crate::text::lemma_input_valid_utf8(self.input);
            assert(self.bytes().subrange(old(self).pos(), self.pos()) =~= Seq::<u8>::empty());
            assert(decode_utf8(Seq::<u8>::empty()) =~= Seq::<char>::empty());
            assert(old(self).remaining_chars() =~= decode_utf8(
                self.bytes().subrange(old(self).pos(), self.pos()),
            ) + self.remaining_chars());
        }
        loop
            invariant
                old(self).wf(),
                self.wf(),
                self.input == old(self).input,
                start == old(self).byte_position,
                old(self).pos() <= self.pos(),
                forall|c: char| call_requires(f, (c,)),
                old(self).remaining_chars() == decode_utf8(
                    self.bytes().subrange(old(self).pos(), self.pos()),
                ) + self.remaining_chars(),
                forall|j: int|
                    0 <= j < decode_utf8(
                        self.bytes().subrange(old(self).pos(), self.pos()),
                    ).len() ==> call_ensures(
                        f,
                        (decode_utf8(self.bytes().subrange(old(self).pos(), self.pos()))[j],),
                        false,
                    ),
            ensures
                old(self).wf(),
                self.wf(),
                self.input == old(self).input,
                start == old(self).byte_position,
                old(self).pos() <= self.pos(),
                old(self).remaining_chars() == decode_utf8(
                    self.bytes().subrange(old(self).pos(), self.pos()),
                ) + self.remaining_chars(),
                forall|j: int|
                    0 <= j < decode_utf8(
                        self.bytes().subrange(old(self).pos(), self.pos()),
                    ).len() ==> call_ensures(
                        f,
                        (decode_utf8(self.bytes().subrange(old(self).pos(), self.pos()))[j],),
                        false,
                    ),
                self.remaining_chars().len() > 0 ==> call_ensures(
                    f,
                    (self.remaining_chars()[0],),
                    true,
                ),
            decreases self.byte_len() - self.pos(),
        {
            let upcoming = self.upcoming_char();
            match upcoming {
                None => {
                    break ;
                },
                Some(next_char) => {
                    if f(next_char) {
                        break ;
                    }
                    proof {
                        crate::text::lemma_input_valid_utf8(self.input);
                        crate::text::lemma_decode_span_extend(
                            self.bytes(),
                            old(self).pos(),
                            self.pos(),
                        );
                        crate::text::lemma_first_char_decode(self.bytes(), self.pos());
                    }
                    let w = crate::text::scalar_width_at(self.input, self.byte_position);
                    self.byte_position = self.byte_position + w;
                },
            }
        }
        proof {
            crate::text::lemma_input_valid_utf8(self.input);
        }
        crate::text::substr_range(self.input, start, self.byte_position)
    }

    /// Accepts a single character from the input if it equals `c`.
    pub fn accept_char(&mut self, c: char) -> (r: Option<&'a str>)
        requires
            old(self).wf(),
        ensures
            final(self).input == old(self).input,
            final(self).wf(),
            match r {
                Some(s) => {
                    &&& old(self).remaining_chars().len() > 0
                    &&& old(self).remaining_chars()[0] == c
                    &&& s@ == seq![c]
                    &&& s.spec_bytes() == old(self).bytes().subrange(
                        old(self).pos(),
                        final(self).pos(),
                    )
                    &&& old(self).pos() < final(self).pos()
                    &&& final(self).remaining_chars() == old(self).remaining_chars().drop_first()
                },
                None => {
                    &&& *final(self) == *old(self)
                    &&& !(old(self).remaining_chars().len() > 0 && old(self).remaining_chars()[0]
                        == c)
                },
            },
    {
        self.accept_char_with(
            |x: char| -> (b: bool)
                ensures
                    b == (x == c)
                { x == c },
        )
    }

    /// Accepts until a specific character is encountered.
    ///
    /// Returns what's accepted until then, but not including the matching
    /// character.
    pub fn accept_until_char(&mut self, c: char) -> (r: &'a str)
        requires
            old(self).wf(),
        ensures
            final(self).input == old(self).input,
            final(self).wf(),
            old(self).pos() <= final(self).pos(),
            r.spec_bytes() == old(self).bytes().subrange(old(self).pos(), final(self).pos()),
            old(self).remaining_chars() == r@ + final(self).remaining_chars(),
            forall|j: int| 0 <= j < r@.len() ==> r@[j] != c,
            final(self).remaining_chars().len() > 0 ==> final(self).remaining_chars()[0] == c,
    {
        self.accept_until_char_with(
            |x: char| -> (b: bool)
                ensures
                    b == (x == c)
                { x == c },
        )
    }

    /// Accepts until whitespace is encountered.
    ///
    /// Returns what's accepted until then, but not including the whitespace.
    pub fn accept_until_whitespace(&mut self) -> (r: &'a str)
        requires
            old(self).wf(),
        ensures
            final(self).input == old(self).input,
            final(self).wf(),
            old(self).pos() <= final(self).pos(),
            r.spec_bytes() == old(self).bytes().subrange(old(self).pos(), final(self).pos()),
            old(self).remaining_chars() == r@ + final(self).remaining_chars(),
            forall|j: int| 0 <= j < r@.len() ==> !is_whitespace_char(r@[j]),
            final(self).remaining_chars().len() > 0 ==> is_whitespace_char(
                final(self).remaining_chars()[0],
            ),
    {
        self.accept_until_char_with(
            |x: char| -> (b: bool)
                ensures
                    b == is_whitespace_char(x)
                { crate::text::char_is_whitespace(x) },
        )
    }

    /// Accepts a single whitespace character.
    pub fn accept_whitespace(&mut self) -> (r: Option<&'a str>)
        requires
            old(self).wf(),
        ensures
            final(self).input == old(self).input,
            final(self).wf(),
            match r {
                Some(s) => {
                    &&& old(self).remaining_chars().len() > 0
                    &&& is_whitespace_char(old(self).remaining_chars()[0])
                    &&& s@ == seq![old(self).remaining_chars()[0]]
                    &&& s.spec_bytes() == old(self).bytes().subrange(
                        old(self).pos(),
                        final(self).pos(),
                    )
                    &&& final(self).remaining_chars() == old(self).remaining_chars().drop_first()
                },
                None => {
                    &&& *final(self) == *old(self)
                    &&& !(old(self).remaining_chars().len() > 0 && is_whitespace_char(
                        old(self).remaining_chars()[0],
                    ))
                },
            },
    {
        self.accept_char_with(
            |i: char| -> (b: bool)
                ensures
                    b == is_whitespace_char(i)
                { crate::text::char_is_whitespace(i) },
        )
    }

    /// Accepts a sequence of zero or more whitespace characters.
    pub fn accept_zero_or_more_whitespace(&mut self) -> (r: &'a str)
        requires
            old(self).wf(),
        ensures
            final(self).input == old(self).input,
            final(self).wf(),
            old(self).pos() <= final(self).pos(),
            r.spec_bytes() == old(self).bytes().subrange(old(self).pos(), final(self).pos()),
            old(self).remaining_chars() == r@ + final(self).remaining_chars(),
            forall|j: int| 0 <= j < r@.len() ==> is_whitespace_char(r@[j]),
            final(self).remaining_chars().len() > 0 ==> !is_whitespace_char(
                final(self).remaining_chars()[0],
            ),
    {
        self.accept_until_char_with(
            |x: char| -> (b: bool)
                ensures
                    b == !is_whitespace_char(x)
                { !crate::text::char_is_whitespace(x) },
        )
    }

    /// Accepts a sequence of one or more whitespace characters.
    pub fn accept_one_or_more_whitespace(&mut self) -> (r: Option<&'a str>)
        requires
            old(self).wf(),
        ensures
            final(self).input == old(self).input,
            final(self).wf(),
            match r {
                Some(s) => {
                    &&& old(self).remaining_chars().len() > 0
                    &&& is_whitespace_char(old(self).remaining_chars()[0])
                    &&& s@.len() >= 1
                    &&& forall|j: int| 0 <= j < s@.len() ==> is_whitespace_char(s@[j])
                    &&& s.spec_bytes() == old(self).bytes().subrange(
                        old(self).pos(),
                        final(self).pos(),
                    )
                    &&& old(self).remaining_chars() == s@ + final(self).remaining_chars()
                    &&& final(self).remaining_chars().len() > 0 ==> !is_whitespace_char(
                        final(self).remaining_chars()[0],
                    )
                },
                None => {
                    &&& *final(self) == *old(self)
                    &&& !(old(self).remaining_chars().len() > 0 && is_whitespace_char(
                        old(self).remaining_chars()[0],
                    ))
                },
            },
    {
        let upcoming = self.upcoming_char();
        match upcoming {
            None => None,
            Some(next_char) => {
                if !crate::text::char_is_whitespace(next_char) {
                    None
                } else {
                    let s = self.accept_until_char_with(
                        |x: char| -> (b: bool)
                            ensures
                                b == !is_whitespace_char(x)
                            { !crate::text::char_is_whitespace(x) },
                    );
                    proof {
                        if s@.len() == 0 {
                            assert(old(self).remaining_chars() =~= self.remaining_chars());
                        }
                    }
                    Some(s)
                }
            },
        }
    }
}

} // verus!
