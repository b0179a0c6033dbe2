use repeaterpi::numeral::is_numeral_text;
use repeaterpi::numeral::Numeral;

#[test]
fn plain_decimals_are_numerals() {
    for text in ["0", "7", "72.4", "1002.3", "0.5", "00012", "13"] {
        assert!(is_numeral_text(text.as_bytes()), "{}", text);
    }
}

#[test]
fn a_numeral_may_carry_one_sign() {
    for text in ["-1.5", "+3", "-0", "+.5", "-5."] {
        assert!(is_numeral_text(text.as_bytes()), "{}", text);
    }
    for text in ["--1", "+-1", "-+1", "1-", "+", "-"] {
        assert!(!is_numeral_text(text.as_bytes()), "{}", text);
    }
}

#[test]
fn a_dot_needs_a_digit_on_one_side() {
    assert!(is_numeral_text(b".5"));
    assert!(is_numeral_text(b"5."));
    assert!(is_numeral_text(b"5.5"));
    assert!(!is_numeral_text(b"."));
    assert!(!is_numeral_text(b"1.2.3"));
    assert!(!is_numeral_text(b".."));
}

#[test]
fn an_exponent_needs_digits() {
    for text in ["1e5", "1E5", "1e-5", "1.5e+10", ".5e0", "5.e3", "0e000"] {
        assert!(is_numeral_text(text.as_bytes()), "{}", text);
    }
    for text in ["e5", "1e", "1e+", "1e-", "1e5.0", "1ee5", "1e5e5", ".e5", "1e 5"] {
        assert!(!is_numeral_text(text.as_bytes()), "{}", text);
    }
}

#[test]
fn special_words_are_numerals_in_either_case() {
    for text in
        ["inf", "INF", "Inf", "infinity", "Infinity", "INFINITY", "nan", "NaN", "NAN", "-inf", "+nan"]
    {
        assert!(is_numeral_text(text.as_bytes()), "{}", text);
    }
    for text in ["in", "infi", "infinit", "infinityy", "na", "nana", "inf.", "nan1", "i", "n"] {
        assert!(!is_numeral_text(text.as_bytes()), "{}", text);
    }
}

#[test]
fn blanks_and_other_text_are_no_numerals() {
    for text in ["", " ", " 1", "1 ", "1\r", "\t1", "abc", "0x10", "1_000", "1,2", "12a", "a12"] {
        assert!(!is_numeral_text(text.as_bytes()), "{:?}", text);
    }
}

#[test]
fn bytes_that_are_no_text_are_no_numeral() {
    assert!(!is_numeral_text(&[0x31, 0xff]));
    assert!(!is_numeral_text(&[0xff]));
    assert!(!is_numeral_text("١٢".as_bytes()));
    assert!(!is_numeral_text(&[0x31, 0x00]));
}

#[test]
fn parse_keeps_the_text() {
    let n = Numeral::parse(b"-12.50e3").unwrap();
    assert_eq!(n.as_bytes(), b"-12.50e3");
    assert_eq!(n.clone(), n);
    assert!(Numeral::parse(b"12,5").is_none());
    assert!(Numeral::parse(b"").is_none());
}

#[test]
fn every_numeral_is_a_number_to_the_standard_library() {
    for text in [
        "0", "72.4", "-1.5", "+3", ".5", "5.", "1e5", "1E-5", "1.5e+10", "inf", "-INF", "Infinity",
        "nan", "NaN", "+nan", "00012", "1e400", "0.000000000000000000000000000000000001",
    ] {
        let n = Numeral::parse(text.as_bytes()).unwrap();
        let shown = std::str::from_utf8(n.as_bytes()).unwrap();
        assert!(shown.parse::<f64>().is_ok(), "{}", text);
    }
}

fn words(alphabet: &[u8], length: usize) -> Vec<Vec<u8>> {
    let mut all: Vec<Vec<u8>> = vec![Vec::new()];
    for _ in 0..length {
        let mut longer: Vec<Vec<u8>> = Vec::new();
        for word in &all {
            for &b in alphabet {
                let mut w = word.clone();
                w.push(b);
                longer.push(w);
            }
        }
        all = longer;
    }
    all
}

#[test]
fn grammar_agrees_with_the_standard_library_on_short_texts() {
    let alphabet = b"01.eE+-infaty N";
    for length in 0..5 {
        for word in words(alphabet, length) {
            let text = std::str::from_utf8(&word).unwrap();
            assert_eq!(
                is_numeral_text(&word),
                text.parse::<f64>().is_ok(),
                "{:?}",
                text
            );
        }
    }
}

#[test]
fn grammar_agrees_with_the_standard_library_on_the_long_word() {
    let letters = b"iInNfFtTyY";
    for a in letters {
        for b in letters {
            let mut word = b"infini".to_vec();
            word.push(*a);
            word.push(*b);
            let text = std::str::from_utf8(&word).unwrap();
            assert_eq!(is_numeral_text(&word), text.parse::<f64>().is_ok(), "{:?}", text);
        }
    }
    for text in ["INFINITY", "iNfInItY", "infinity1", "1infinity", "-Infinity", "+-infinity"] {
        assert_eq!(is_numeral_text(text.as_bytes()), text.parse::<f64>().is_ok(), "{:?}", text);
    }
}
