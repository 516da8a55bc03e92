use dsboard::number::{is_fraction_text, parse_u64};
use dsboard::order::{pair_rank, rank, Rank};
use dsboard::text::{
    begins_with, chars_of, contains_text, finishes_with, i64_text, padded_text, text_eq,
    trim_end_slashes, u64_text, usize_text,
};

#[test]
fn numbers_in_decimal() {
    assert_eq!(u64_text(0), "0");
    assert_eq!(u64_text(u64::MAX), "18446744073709551615");
    assert_eq!(usize_text(65_536), "65536");
    assert_eq!(i64_text(-28_800), "-28800");
    assert_eq!(i64_text(i64::MIN), "-9223372036854775808");
}

#[test]
fn numbers_filled_with_zeros() {
    assert_eq!(padded_text(7, 2), "07");
    assert_eq!(padded_text(2026, 4), "2026");
    assert_eq!(padded_text(12_026, 4), "12026");
    assert_eq!(padded_text(-1, 4), "-001");
}

#[test]
fn decimal_texts_read_back() {
    for n in [0, 9, 10, 60, 1_000_000, u64::MAX] {
        assert_eq!(parse_u64(&u64_text(n)), Some(n));
    }
}

#[test]
fn texts_that_are_no_unsigned_number() {
    assert_eq!(parse_u64(""), None);
    assert_eq!(parse_u64("+"), None);
    assert_eq!(parse_u64("-1"), None);
    assert_eq!(parse_u64(" 1"), None);
    assert_eq!(parse_u64("1.0"), None);
    assert_eq!(parse_u64("18446744073709551616"), None);
    assert_eq!(parse_u64("+0042"), Some(42));
}

#[test]
fn fractions_are_those_that_std_reads() {
    for s in [
        "1", "1.5", ".5", "5.", "-0.25", "+3", "1e9", "1E-9", "2.5e+3", "inf", "-Infinity", "NaN",
        "10.4094516000000000", "", ".", "e5", "1e", "1e+", "--1", "0x10", "1_0", " 1", "infi",
        "nan1", "+", "1.2.3",
    ] {
        assert_eq!(is_fraction_text(s), s.parse::<f64>().is_ok(), "{}", s);
    }
}

#[test]
fn searching_in_texts() {
    assert!(contains_text("application/zip", "zip"));
    assert!(contains_text("", ""));
    assert!(!contains_text("application/json", "zip"));
    assert!(!contains_text("zi", "zip"));
    assert!(begins_with("amount-2026.csv", "amount-"));
    assert!(!begins_with("am", "amount-"));
    assert!(finishes_with("amount-2026.csv", ".csv"));
    assert!(!finishes_with("amount-2026.csv.bak", ".csv"));
    assert!(text_eq("余额", "余额") && !text_eq("余额", "余"));
    assert_eq!(chars_of("余a"), vec!['余', 'a']);
}

#[test]
fn slashes_at_the_end_go() {
    assert_eq!(trim_end_slashes("https://a.b//"), "https://a.b");
    assert_eq!(trim_end_slashes("https://a.b"), "https://a.b");
    assert_eq!(trim_end_slashes("///"), "");
}

#[test]
fn texts_are_ordered_as_std_orders_them() {
    let words = ["", "a", "ab", "b", "é", "余", "\u{ffff}", "\u{10000}"];
    for a in words {
        for b in words {
            let want = if a < b {
                Rank::Below
            } else if a == b {
                Rank::Same
            } else {
                Rank::Above
            };
            assert!(rank(a, b) == want);
        }
    }
    assert!(pair_rank("a", "z", "b", "a") == Rank::Below);
    assert!(pair_rank("a", "z", "a", "a") == Rank::Above);
    assert!(pair_rank("a", "z", "a", "z") == Rank::Same);
}
