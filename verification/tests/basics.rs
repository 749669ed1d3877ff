use aircore::bytes::{append, copy_range, push_be, read_be, same_bytes};
use aircore::text::{contains_char, format_digits, join, join3, same_text, strip_prefix, text_is};

#[test]
fn numbers_are_written_most_significant_byte_first() {
    let mut out = vec![9u8];
    push_be(&mut out, 0x0102_0304, 4);
    assert_eq!(out, vec![9, 1, 2, 3, 4]);
    push_be(&mut out, 0xABCD, 1);
    assert_eq!(out, vec![9, 1, 2, 3, 4, 0xCD]);
    push_be(&mut out, 7, 0);
    assert_eq!(out.len(), 6);
}

#[test]
fn numbers_are_read_as_they_were_written() {
    for (n, width) in [(0u128, 4usize), (u32::MAX as u128, 4), (u64::MAX as u128, 8), (u128::MAX, 16)] {
        let mut out = Vec::new();
        push_be(&mut out, n, width);
        assert_eq!(out.len(), width);
        assert_eq!(read_be(&out), n);
        let mut again = Vec::new();
        push_be(&mut again, read_be(&out), width);
        assert_eq!(again, out);
    }
    assert_eq!(read_be(&[]), 0);
    assert_eq!(read_be(&[1, 0]), 256);
}

#[test]
fn byte_strings_are_copied_and_compared() {
    let mut out = vec![1u8];
    append(&mut out, &[2, 3]);
    assert_eq!(out, vec![1, 2, 3]);
    assert_eq!(copy_range(&out, 1, 3), vec![2, 3]);
    assert_eq!(copy_range(&out, 2, 2), Vec::<u8>::new());
    assert!(same_bytes(&[1, 2], &[1, 2]));
    assert!(!same_bytes(&[1, 2], &[1, 3]));
    assert!(!same_bytes(&[1, 2], &[1]));
    assert!(same_bytes(&[], &[]));
}

#[test]
fn texts_are_joined_and_compared() {
    assert_eq!(join("á", "b"), "áb");
    assert_eq!(join3("a", "", "c"), "ac");
    assert!(same_text("ñ", "ñ"));
    assert!(!same_text("ñ", "n"));
    assert!(contains_char("añ/b", '/'));
    assert!(!contains_char("añb", '/'));
    assert!(!contains_char("", '/'));
    assert_eq!(strip_prefix("IP:ñ", "IP:"), Some("ñ".to_string()));
    assert_eq!(strip_prefix("IP", "IP:"), None);
    assert_eq!(strip_prefix("XP:1", "IP:"), None);
    assert_eq!(strip_prefix("x", ""), Some("x".to_string()));
}

#[test]
fn bytes_are_compared_as_text() {
    assert!(text_is("hola ñ".as_bytes(), "hola ñ"));
    assert!(!text_is(b"hola", "hola "));
    assert!(!text_is(b"hol\xff", "hol"));
    assert!(text_is(b"", ""));
}

#[test]
fn digits_are_padded() {
    for n in [0u64, 7, 4821, 999_999, 1_000_000] {
        assert_eq!(format_digits(n, 10, 6), format!("{:06}", n));
        assert_eq!(format_digits(n, 16, 6), format!("{:06X}", n));
    }
    assert_eq!(format_digits(u64::MAX, 16, 16), "FFFFFFFFFFFFFFFF");
    assert_eq!(format_digits(5, 2, 0), "101");
    assert_eq!(format_digits(0, 10, 0), "");
}
