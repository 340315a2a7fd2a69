use parse_helper::ParseHelper;

#[test]
fn test_bytes_left() {
    let mut x = ParseHelper::new_byte_oriented("hello");
    assert_eq!(x.byte_position, 0);
    assert_eq!(x.len(), 5);
    assert_eq!(x.bytes_left(), 5);
    assert!(!x.done());
    assert!(!x.is_empty());

    x.skip_byte();
    x.skip_byte();
    x.skip_byte();

    assert_eq!(x.byte_position, 3);
    assert_eq!(x.len(), 5);
    assert_eq!(x.bytes_left(), 2);
    assert!(!x.done());
    assert!(!x.is_empty());

    x.skip_byte();
    x.skip_byte();

    assert_eq!(x.byte_position, 5);
    assert_eq!(x.len(), 5);
    assert_eq!(x.bytes_left(), 0);
    assert!(x.done());
    assert!(!x.is_empty());
}

#[test]
fn test_backup() {
    let mut x = ParseHelper::new_char_oriented("hello");

    let b = x.create_backup();

    assert_eq!(x.accept_until_char('l'), "he");
    assert_eq!(x.leftover(), "llo");

    x.restore_backup(b);

    assert_eq!(x.accept_until_char('l'), "he");
    assert_eq!(x.leftover(), "llo");
}

#[test]
fn test_slice() {
    let mut x = ParseHelper::new_char_oriented("hello");

    let start = x.mark();
    assert_eq!(x.accept_until_char('l'), "he");
    assert_eq!(x.leftover(), "llo");

    let cur = x.mark();
    assert_eq!(x.slice(..cur), "he");
    assert_eq!(x.slice(cur..), "llo");
    assert_eq!(x.slice(start..cur), "he");
    assert_eq!(x.slice(..), "hello");
}

#[test]
fn test_slice_byte() {
    let mut x = ParseHelper::new_byte_oriented("hello");

    let start = x.mark();
    assert_eq!(x.accept_until_byte(b'l'), b"he");
    assert_eq!(x.leftover(), b"llo");

    let cur = x.mark();
    assert_eq!(x.slice(..cur), "he");
    assert_eq!(x.slice(..=cur), "hel");
    assert_eq!(x.slice(cur..), "llo");
    assert_eq!(x.slice(start..cur), "he");
    assert_eq!(x.slice(..), "hello");
    assert_eq!(x.slice(start..=cur), "hel");
}

#[test]
fn test_from() {
    assert_eq!(ParseHelper::from("hello").leftover(), "hello");
}

#[test]
fn accept_until_byte() {
    assert_eq!(
        ParseHelper::new_char_oriented("abc").accept_until_char('a'),
        ""
    );
    assert_eq!(
        ParseHelper::new_char_oriented("abc").accept_until_char('b'),
        "a"
    );
    assert_eq!(
        ParseHelper::new_char_oriented("abc").accept_until_char('x'),
        "abc"
    );

    let mut ph = ParseHelper::new_char_oriented("abc");
    assert_eq!(ph.accept_until_char('b'), "a");
    assert_eq!(ph.leftover(), "bc");
    assert!(ph.accept_char('b').is_some());
    assert!(ph.accept_char('c').is_some());
}

#[test]
fn accept_until_char() {
    assert_eq!(
        ParseHelper::new_char_oriented("abc").accept_until_char('a'),
        ""
    );
    assert_eq!(
        ParseHelper::new_char_oriented("abc").accept_until_char('b'),
        "a"
    );
    assert_eq!(
        ParseHelper::new_char_oriented("abc").accept_until_char('x'),
        "abc"
    );

    let mut ph = ParseHelper::new_char_oriented("abc");
    assert_eq!(ph.accept_until_char('b'), "a");
    assert_eq!(ph.leftover(), "bc");
    assert!(ph.accept_char('b').is_some());
    assert!(ph.accept_char('c').is_some());
}

#[test]
fn accept_whitespace() {
    let mut ph = ParseHelper::new_char_oriented("ab \t   cd");
    assert_eq!(ph.accept_until_whitespace(), "ab");
    assert_eq!(ph.accept_whitespace(), Some(" "));
    assert_eq!(ph.accept_whitespace(), Some("\t"));
    assert_eq!(ph.accept_one_or_more_whitespace(), Some("   "));
    assert_eq!(ph.accept_one_or_more_whitespace(), None);
    assert_eq!(ph.accept_zero_or_more_whitespace(), "");
    assert_eq!(ph.leftover(), "cd");
}
