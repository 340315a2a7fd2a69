use parse_helper::{Byte, Char, ParseHelper};

// Advancing over "ab cd" in char mode, slicing the marked prefix at the end.
#[test]
fn words_and_whitespace() {
    let mut ph = ParseHelper::new_char_oriented("ab cd");
    let start = ph.mark();

    assert_eq!(ph.accept_until_whitespace(), "ab");
    assert_eq!(ph.accept_one_or_more_whitespace(), Some(" "));
    assert_eq!(ph.accept_char('c'), Some("c"));

    let end = ph.mark();
    assert_eq!(ph.slice(start..end), "ab c");
}

// An empty input is done immediately, in either mode, and peeking and
// scanning find nothing.
#[test]
fn empty_input() {
    let byte_cursor = ParseHelper::new_byte_oriented("");
    assert!(byte_cursor.done());
    assert_eq!(byte_cursor.upcoming_byte(), None);
    assert_eq!(byte_cursor.bytes_left(), 0);

    let mut char_cursor = ParseHelper::new_char_oriented("");
    assert!(char_cursor.done());
    assert_eq!(char_cursor.upcoming_char(), None);
    assert_eq!(char_cursor.accept_until_char('x'), "");
    assert_eq!(char_cursor.accept_char('x'), None);
}

// A byte cursor parked inside a multi-byte codepoint refuses the checked
// conversion; the skipping conversion advances past the rest of the
// codepoint and succeeds.
#[test]
fn mid_codepoint_conversion() {
    let mut x = ParseHelper::new_byte_oriented("h\u{e9}llo");
    x.skip_bytes(2);
    assert!(!x.is_at_utf8_boundary());

    let checked = x.create_backup().into_char_oriented();
    assert!(checked.is_none());

    let skipped = x.skip_into_char_oriented();
    assert_eq!(skipped.bytes_accepted(), 3);
    assert_eq!(skipped.leftover(), "llo");
}

// A successful accept returns exactly the consumed view; a failed accept
// moves nothing.
#[test]
fn accept_literal_bytes() {
    let mut x = ParseHelper::new_byte_oriented("abcd");
    assert_eq!(x.accept(b"ax"), None);
    assert_eq!(x.bytes_accepted(), 0);
    assert_eq!(x.accept(b"ab"), Some(b"ab".as_slice()));
    assert_eq!(x.bytes_accepted(), 2);
    assert_eq!(x.accept(b"cde"), None);
    assert_eq!(x.leftover(), b"cd");
    assert_eq!(x.accept(b"cd"), Some(b"cd".as_slice()));
    assert!(x.done());
}

#[test]
fn accept_literal_str() {
    let mut x = ParseHelper::new_char_oriented("gr\u{fc}ne W\u{e4}lder");
    assert_eq!(x.accept("gr\u{fc}m"), None);
    assert_eq!(x.bytes_accepted(), 0);
    assert_eq!(x.accept("gr\u{fc}ne"), Some("gr\u{fc}ne"));
    assert_eq!(x.accept(" W\u{e4}"), Some(" W\u{e4}"));
    assert_eq!(x.leftover(), "lder");
}

// The full-range slice covers the whole buffer no matter how far the cursor
// has moved.
#[test]
fn full_range_slice_is_input() {
    let mut x = ParseHelper::new_char_oriented("hello");
    assert_eq!(x.slice(..), "hello");
    x.accept_until_char('l');
    assert_eq!(x.slice(..), "hello");
    x.accept_until_char('\u{0}');
    assert!(x.done());
    assert_eq!(x.slice(..), "hello");
}

// A mark taken now, sliced open-ended, equals the leftover view.
#[test]
fn mark_then_slice_is_leftover() {
    let mut x = ParseHelper::new_char_oriented("hello");
    x.accept_char('h');
    let m = x.mark();
    assert_eq!(m.byte_position(), 1);
    assert_eq!(x.slice(m..), x.leftover());
    assert_eq!(x.slice(m..), "ello");
}

// The optional slicing combinator either returns the consumed span with the
// cursor past it, or restores the cursor exactly.
#[test]
fn backtracking_combinator() {
    let mut x = ParseHelper::new_char_oriented("ab cd");

    let failed = x.slice_accepted_option(|ph| {
        ph.accept_char('a')?;
        ph.accept_char('x')?;
        Some(())
    });
    assert_eq!(failed, None);
    assert_eq!(x.bytes_accepted(), 0);
    assert_eq!(x.leftover(), "ab cd");

    let matched = x.slice_accepted_option(|ph| {
        ph.accept_char('a')?;
        ph.accept_char('b')?;
        Some(())
    });
    assert_eq!(matched, Some("ab"));
    assert_eq!(x.leftover(), " cd");
}

#[test]
fn slice_accepted_returns_span() {
    let mut ph = ParseHelper::new_char_oriented("ab cd");

    let (_, all_accepted) = ph.slice_accepted(|ph| {
        ph.accept_until_whitespace();
        ph.accept_one_or_more_whitespace();
        ph.accept_char('c');
    });

    assert_eq!(all_accepted, "ab c");
}

// Peeking never advances the cursor.
#[test]
fn peeking_is_pure() {
    let x = ParseHelper::new_byte_oriented("h\u{e9}");
    assert_eq!(x.upcoming_byte(), Some(b'h'));
    assert_eq!(x.upcoming_byte(), Some(b'h'));
    assert_eq!(x.bytes_accepted(), 0);

    let mut c = ParseHelper::new_char_oriented("h\u{e9}");
    assert_eq!(c.upcoming_char(), Some('h'));
    assert_eq!(c.bytes_accepted(), 0);
    c.accept_char('h');
    assert_eq!(c.upcoming_char(), Some('\u{e9}'));
    assert_eq!(c.bytes_accepted(), 1);
}

// A char cursor converts to a byte cursor at the same position for free.
#[test]
fn char_to_byte_conversion() {
    let mut c = ParseHelper::new_char_oriented("h\u{e9}llo");
    c.accept_char('h');
    c.accept_char('\u{e9}');
    let b: ParseHelper<Byte> = c.into_byte_oriented();
    assert_eq!(b.bytes_accepted(), 3);
    assert_eq!(b.leftover(), b"llo");
    assert!(b.is_at_utf8_boundary());
}

// Byte-level predicate scans.
#[test]
fn byte_predicates() {
    let mut x = ParseHelper::new_byte_oriented("a1b2");
    assert_eq!(x.accept_byte_with(|b| b.is_ascii_digit()), None);
    assert_eq!(x.accept_byte_with(|b| b.is_ascii_lowercase()), Some(b'a'));
    assert_eq!(x.accept_until_byte_with(|b| b == b'2'), b"1b");
    assert!(x.accept_byte(b'2'));
    assert!(!x.accept_byte(b'2'));
    assert!(x.done());
}

// Char-level predicate scans over multi-byte characters.
#[test]
fn char_predicates() {
    let mut x = ParseHelper::new_char_oriented("\u{e9}\u{e8}=");
    assert_eq!(x.accept_char_with(|c| c.is_numeric()), None);
    assert_eq!(x.accept_char_with(|c| c == '\u{e9}'), Some("\u{e9}"));
    assert_eq!(x.accept_until_char_with(|c| c == '='), "\u{e8}");
    assert_eq!(x.accept_char('='), Some("="));
}

// The non-ASCII entries of the whitespace table are honoured.
#[test]
fn unicode_whitespace() {
    let mut x = ParseHelper::new_char_oriented("\u{a0}\u{2003}\u{2028}x");
    assert_eq!(x.accept_whitespace(), Some("\u{a0}"));
    assert_eq!(
        x.accept_one_or_more_whitespace(),
        Some("\u{2003}\u{2028}")
    );
    assert_eq!(x.accept_whitespace(), None);
    assert_eq!(x.leftover(), "x");
}

// Identifier scanning through the Unicode identifier classes.
#[test]
fn rust_idents() {
    let mut ph = ParseHelper::new_char_oriented("hello wor1d 12a");

    assert_eq!(ph.accept_rust_ident(), Some("hello"));
    ph.accept_zero_or_more_whitespace();
    assert_eq!(ph.accept_rust_ident(), Some("wor1d"));
    ph.accept_zero_or_more_whitespace();
    assert_eq!(ph.accept_rust_ident(), None);
}

#[test]
fn rust_idents_unicode() {
    let mut ph = ParseHelper::new_char_oriented("gr\u{fc}n_1;_x");
    assert_eq!(ph.accept_rust_ident(), Some("gr\u{fc}n_1"));
    assert_eq!(ph.accept_char(';'), Some(";"));
    // '_' has XID_Continue but not XID_Start
    assert_eq!(ph.accept_rust_ident(), None);
    assert_eq!(ph.leftover(), "_x");
}

// Skipping lands exactly where asked, and boundary checks see it.
#[test]
fn skipping_and_boundaries() {
    let mut x = ParseHelper::new_byte_oriented("a\u{1f600}b");
    assert!(x.is_at_utf8_boundary());
    x.skip_byte();
    assert!(x.is_at_utf8_boundary());
    x.skip_bytes(2);
    assert!(!x.is_at_utf8_boundary());
    x.skip_to_next_utf8_char_boundary();
    assert_eq!(x.bytes_accepted(), 5);
    assert_eq!(x.leftover(), b"b");

    let _c: ParseHelper<Char> = x.skip_into_char_oriented();
}
