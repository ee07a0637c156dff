use rfinex::amount::is_amount_text;
use rfinex::text::{chars_of, i64_to_decimal, str_eq, str_rank, u64_to_decimal, Rank};

#[test]
fn unsigned_numbers_are_written_in_decimal() {
    assert_eq!(u64_to_decimal(0), "0");
    assert_eq!(u64_to_decimal(7), "7");
    assert_eq!(u64_to_decimal(10), "10");
    assert_eq!(u64_to_decimal(1_700_000_000), "1700000000");
    assert_eq!(u64_to_decimal(u64::MAX), "18446744073709551615");
}

#[test]
fn signed_numbers_are_written_with_their_sign() {
    assert_eq!(i64_to_decimal(0), "0");
    assert_eq!(i64_to_decimal(-1), "-1");
    assert_eq!(i64_to_decimal(42), "42");
    assert_eq!(i64_to_decimal(i64::MAX), "9223372036854775807");
    assert_eq!(i64_to_decimal(i64::MIN), "-9223372036854775808");
}

#[test]
fn decimal_notation_agrees_with_the_standard_one() {
    for n in [0u64, 1, 9, 10, 99, 100, 101, 65535, 4_294_967_296, u64::MAX - 1] {
        assert_eq!(u64_to_decimal(n), n.to_string());
    }
    for i in [-10i64, -9, -1, 0, 1, 1_600_000_000, i64::MIN + 1] {
        assert_eq!(i64_to_decimal(i), i.to_string());
    }
}

#[test]
fn texts_are_ranked_by_their_characters() {
    assert_eq!(str_rank("", ""), Rank::Same);
    assert_eq!(str_rank("", "a"), Rank::Before);
    assert_eq!(str_rank("a", ""), Rank::After);
    assert_eq!(str_rank("abc", "abd"), Rank::Before);
    assert_eq!(str_rank("abd", "abc"), Rank::After);
    assert_eq!(str_rank("abc", "abc"), Rank::Same);
    assert_eq!(str_rank("ab", "abc"), Rank::Before);
    assert_eq!(str_rank("Z", "a"), Rank::Before);
    assert_eq!(str_rank("é", "z"), Rank::After);
}

#[test]
fn ranking_agrees_with_the_order_of_strings() {
    let words = ["", "a", "A", "ab", "b", "é", "z", "~", "日本", "10", "9", "\u{10000}", "\u{ffff}"];
    for a in words {
        for b in words {
            let expected = if a < b {
                Rank::Before
            } else if a == b {
                Rank::Same
            } else {
                Rank::After
            };
            assert_eq!(str_rank(a, b), expected);
            assert_eq!(str_eq(a, b), a == b);
        }
    }
}

#[test]
fn characters_are_listed_one_by_one() {
    assert_eq!(chars_of(""), Vec::<char>::new());
    assert_eq!(chars_of("1.5"), vec!['1', '.', '5']);
    assert_eq!(chars_of("é日"), vec!['é', '日']);
}

#[test]
fn plain_numbers_are_amounts() {
    for text in ["0", "1", "007", "1.0", "1.", ".5", "0.00000001", "123456789.123456789"] {
        assert!(is_amount_text(text));
    }
}

#[test]
fn signs_and_exponents_are_allowed() {
    for text in ["+1", "-1", "-0.5", "+.5", "1e5", "1E5", "1e+5", "1e-5", "1.e5", ".5e5", "-1.25E-10"] {
        assert!(is_amount_text(text));
    }
}

#[test]
fn infinities_and_nan_are_allowed_in_any_case() {
    for text in ["inf", "INF", "Inf", "infinity", "Infinity", "INFINITY", "nan", "NaN", "-inf", "+infinity", "-nan"] {
        assert!(is_amount_text(text));
    }
}

#[test]
fn other_texts_are_no_amounts() {
    for text in [
        "", ".", "+", "-", "e5", ".e5", "1e", "1e+", "1e5.0", "1.2.3", "1,5", " 1", "1 ", "1 000",
        "0x10", "1_000", "abc", "in", "infinit", "infinityy", "na", "nan0", "++1", "--1", "+-1",
        "1e5e5", "1f", "\u{661}", "１", "1\n",
    ] {
        assert!(!is_amount_text(text));
    }
}

#[test]
fn amounts_are_what_parses_as_a_float() {
    let texts = [
        "0", "1.", ".5", ".", "", "1e5", "1E+5", "1e", "+1.0", "-inf", "NaN", "Infinity", "infinit",
        " 1", "1 ", "1.2.3", "0x10", "1_000", "+", "-", "e", "E5", "1e-", "-.e1", "-.5e1", "iNfInItY",
        "nAn", "+nan", "1e+0005", "00.00", "9999999999999999999999999999", "1e99999", "\u{661}",
        "inf1", "1inf", "+ 1", "1..", "..1",
    ];
    for text in texts {
        assert_eq!(is_amount_text(text), text.parse::<f64>().is_ok());
    }
}
