use amqp_convert::bytes::compare_bytes;
use amqp_convert::bytes::Placement;
use amqp_convert::symbol::Symbol;

#[test]
fn symbol_holds_its_bytes() {
    let s = Symbol::from_vec(vec![1, 2, 3]);
    assert_eq!(s.to_slice(), &[1, 2, 3]);
    assert_eq!(s.len(), 3);
    assert_eq!(Symbol::from_slice(&[1, 2, 3]), s);
    assert_eq!(Symbol::from_vec(vec![]).len(), 0);
}

#[test]
fn symbol_from_text_holds_its_utf8() {
    assert_eq!(Symbol::from_str("amqp:error").to_slice(), b"amqp:error");
    assert_eq!(Symbol::from_str("é").to_slice(), &[0xc3, 0xa9]);
    assert_eq!(Symbol::from_str("").len(), 0);
}

#[test]
fn symbol_reads_as_text() {
    assert_eq!(Symbol::from_str("hello").to_string(), "hello");
    assert_eq!(Symbol::from_vec(vec![b'a', 0x80]).to_string(), "a\u{fffd}");
}

#[test]
fn symbols_are_equal_by_bytes() {
    assert_eq!(Symbol::from_str("a"), Symbol::from_vec(vec![b'a']));
    assert_ne!(Symbol::from_str("a"), Symbol::from_str("b"));
    assert_ne!(Symbol::from_str("a"), Symbol::from_str("aa"));
    assert_ne!(Symbol::from_str(""), Symbol::from_str("a"));
    let s = Symbol::from_str("copy");
    assert_eq!(s.clone(), s);
}

#[test]
fn symbols_are_ordered_by_bytes() {
    assert!(Symbol::from_str("a") < Symbol::from_str("b"));
    assert!(Symbol::from_str("a") < Symbol::from_str("aa"));
    assert!(Symbol::from_str("") < Symbol::from_str("a"));
    assert!(Symbol::from_str("Z") < Symbol::from_str("a"));
    assert!(Symbol::from_vec(vec![1, 255]) < Symbol::from_vec(vec![2]));
    assert!(Symbol::from_str("b") > Symbol::from_str("a"));
    assert!(Symbol::from_str("a") <= Symbol::from_str("a"));
    assert!(Symbol::from_str("a") >= Symbol::from_str("a"));
    assert!(!(Symbol::from_str("a") < Symbol::from_str("a")));
}

#[test]
fn sorting_symbols_sorts_their_bytes() {
    let words = ["pear", "apple", "", "app", "zebra", "Zebra"];
    let mut symbols: Vec<Symbol> = words.iter().map(|w| Symbol::from_str(w)).collect();
    symbols.sort();
    let sorted: Vec<&[u8]> = symbols.iter().map(|s| s.to_slice()).collect();
    let mut expected: Vec<&[u8]> = words.iter().map(|w| w.as_bytes()).collect();
    expected.sort();
    assert_eq!(sorted, expected);
    for pair in symbols.windows(2) {
        assert!(pair[0] < pair[1]);
        assert_eq!(pair[0].placement(&pair[1]), Placement::Before);
        assert_eq!(pair[1].placement(&pair[0]), Placement::After);
    }
}

#[test]
fn placement_of_byte_strings() {
    assert_eq!(compare_bytes(b"", b""), Placement::Same);
    assert_eq!(compare_bytes(b"abc", b"abc"), Placement::Same);
    assert_eq!(compare_bytes(b"", b"a"), Placement::Before);
    assert_eq!(compare_bytes(b"a", b""), Placement::After);
    assert_eq!(compare_bytes(b"abc", b"abd"), Placement::Before);
    assert_eq!(compare_bytes(b"abd", b"abc"), Placement::After);
    assert_eq!(compare_bytes(b"ab", b"abc"), Placement::Before);
    assert_eq!(compare_bytes(b"b", b"abc"), Placement::After);
    assert_eq!(compare_bytes(&[0xff], &[0x00, 0xff]), Placement::After);
}

#[test]
fn placement_agrees_with_the_order_of_slices() {
    let samples: [&[u8]; 7] = [b"", b"a", b"ab", b"b", b"ba", &[0, 1], &[255]];
    for a in samples {
        for b in samples {
            let expected = if a < b {
                Placement::Before
            } else if a == b {
                Placement::Same
            } else {
                Placement::After
            };
            assert_eq!(compare_bytes(a, b), expected);
        }
    }
}

#[test]
fn empty_symbol_is_empty() {
    assert!(Symbol::from_vec(vec![]).is_empty());
    assert!(!Symbol::from_str("a").is_empty());
}
