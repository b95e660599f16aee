use feedmind::hash::{safe_hash, sha256_hex, sha256_tag, to_hex};
use feedmind::text::{
    contains, join, number_to_text, slice, split_on, starts_with, strip_leading, strip_trailing,
    take_chars, trim, until_last, word_count,
};

#[test]
fn digest_of_known_bytes() {
    assert_eq!(
        sha256_hex(b"abc"),
        "ba7816bf8f01cfea414140de5dae2223b00361a396177a9cb410ff61f20015ad"
    );
    assert_eq!(
        sha256_tag(b""),
        "sha256:e3b0c44298fc1c149afbf4c8996fb92427ae41e4649b934ca495991b7852b855"
    );
}

#[test]
fn short_reference_is_the_start_of_the_digest() {
    assert_eq!(safe_hash("abc"), "ba7816bf8f01cfea");
    assert_ne!(safe_hash("abc"), safe_hash("abd"));
}

#[test]
fn hexadecimal_keeps_bytes_apart() {
    assert_eq!(to_hex(&vec![0, 15, 16, 171, 255]), "000f10abff");
    assert_ne!(to_hex(&vec![1, 16]), to_hex(&vec![16, 1]));
}

#[test]
fn white_space_is_cut_off_on_both_sides() {
    assert_eq!(trim("  a b\t\n"), "a b");
    assert_eq!(trim("\u{00a0}x\u{2003}"), "x");
    assert_eq!(trim("   "), "");
}

#[test]
fn splitting_and_joining() {
    assert_eq!(split_on("a,,b", ','), vec!["a", "", "b"]);
    assert_eq!(split_on("", ','), vec![""]);
    assert_eq!(join(&vec!["a".to_string(), "b".to_string()], "::"), "a::b");
    assert_eq!(join(&vec![], "::"), "");
}

#[test]
fn words_are_runs_without_white_space() {
    assert_eq!(word_count(""), 0);
    assert_eq!(word_count("  one   two\nthree "), 3);
}

#[test]
fn numbers_in_decimal() {
    assert_eq!(number_to_text(0), "0");
    assert_eq!(number_to_text(-1205), "-1205");
    assert_eq!(number_to_text(i64::MIN), "-9223372036854775808");
    assert_eq!(number_to_text(i64::MAX), "9223372036854775807");
}

#[test]
fn parts_of_texts() {
    assert_eq!(take_chars("h\u{e9}llo", 2), "h\u{e9}");
    assert_eq!(take_chars("ab", 5), "ab");
    assert!(starts_with("https://x", "http"));
    assert!(!starts_with("htt", "http"));
    assert!(contains("application/xml", "xml"));
    assert!(contains("abc", ""));
    assert!(!contains("ab", "abc"));
    assert_eq!(until_last("a/b/c", '/'), Some("a/b".to_string()));
    assert_eq!(until_last("abc", '/'), None);
    assert_eq!(strip_trailing("a//", '/'), "a");
    assert_eq!(strip_leading("ababc", "ab"), "c");
    assert_eq!(slice("h\u{e9}llo", 1, 3), "\u{e9}");
}
