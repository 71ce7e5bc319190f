use nixos_core::text::{bytes_le, contains_subslice, parse_u64, split_bytes, split_fields,
    split_once, strip_suffix_bytes, trim_bytes, u64_to_dec};

#[test]
fn substring_search_over_bytes() {
    assert!(contains_subslice(b"system.stateVersion = 1", b"stateVersion"));
    assert!(contains_subslice(b"abc", b""));
    assert!(!contains_subslice(b"abc", b"abcd"));
    assert!(!contains_subslice(b"abab", b"ba-"));
}

#[test]
fn splitting_keeps_empty_segments() {
    let parts = split_bytes(b"a\n\nb\n", b'\n');
    assert_eq!(
        parts,
        vec![b"a".to_vec(), b"".to_vec(), b"b".to_vec(), b"".to_vec()]
    );
    assert_eq!(split_bytes(b"", b'\n'), vec![b"".to_vec()]);
}

#[test]
fn fields_collapse_separator_runs() {
    let fields = split_fields(b"a.service   loaded  active", b' ');
    assert_eq!(
        fields,
        vec![b"a.service".to_vec(), b"loaded".to_vec(), b"active".to_vec()]
    );
}

#[test]
fn split_once_takes_the_first_separator() {
    assert_eq!(split_once(b"Key=a=b", b'='), Some((b"Key".to_vec(), b"a=b".to_vec())));
    assert_eq!(split_once(b"no separator", b'='), None);
}

#[test]
fn trimming_removes_ascii_whitespace_at_both_ends() {
    assert_eq!(trim_bytes(b"  hello \r\n"), b"hello".to_vec());
    assert_eq!(trim_bytes(b"\t\n "), b"".to_vec());
    assert_eq!(trim_bytes(b"solid"), b"solid".to_vec());
}

#[test]
fn decimal_formatting_and_parsing_agree() {
    assert_eq!(u64_to_dec(0), b"0".to_vec());
    assert_eq!(u64_to_dec(907), b"907".to_vec());
    assert_eq!(u64_to_dec(u64::MAX), b"18446744073709551615".to_vec());
    assert_eq!(parse_u64(b"907"), Some(907));
    assert_eq!(parse_u64(b"0"), Some(0));
    assert_eq!(parse_u64(b"18446744073709551615"), Some(u64::MAX));
    assert_eq!(parse_u64(b"18446744073709551616"), None);
    assert_eq!(parse_u64(b""), None);
    assert_eq!(parse_u64(b"12a"), None);
}

#[test]
fn suffix_stripping_removes_repetitions() {
    assert_eq!(strip_suffix_bytes(b"nginx.service", b".service"), b"nginx".to_vec());
    assert_eq!(
        strip_suffix_bytes(b"a.service.service", b".service"),
        b"a".to_vec()
    );
    assert_eq!(strip_suffix_bytes(b"nginx", b".service"), b"nginx".to_vec());
}

#[test]
fn lexicographic_order_on_bytes() {
    assert!(bytes_le(b"abc", b"abd"));
    assert!(bytes_le(b"ab", b"abc"));
    assert!(!bytes_le(b"abd", b"abc"));
    assert!(bytes_le(b"", b"a"));
    assert!(bytes_le(b"same", b"same"));
}
