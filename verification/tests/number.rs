use rf_utility::number::{
    check_exponent, check_float_literal, check_mantissa, check_number, check_special,
    is_float_text,
};

fn chars(text: &str) -> Vec<char> {
    text.chars().collect()
}

#[test]
fn accepts_numbers() {
    for text in [
        "0", "10", "007", "1.5", "1.", ".5", "-1", "+1", "-.5", "1e5", "1E5", "1e+5", "1e-5",
        "1.e5", ".5e0", "-12.75E-3", "inf", "+inf", "-inf", "infinity", "-Infinity", "INF", "nan",
        "NaN", "-nan", "+NAN", "iNfInItY",
    ] {
        assert!(is_float_text(text), "{:?}", text);
        assert!(check_float_literal(&chars(text)), "{:?}", text);
    }
}

#[test]
fn rejects_what_is_no_number() {
    for text in [
        "", "+", "-", ".", "-.", "e", "e5", "1e", "1e+", "1e-", ".e5", "1.2.3", "1..2", "1e5.",
        "1e5e5", "--1", "+-1", "1-", "1+1", " 1", "1 ", "1 2", "1_000", "0x10", "1f", "infin",
        "infinit", "infinityy", "na", "nann", "in", "i", "n", "٣", "１", "1,5", "ｅ",
    ] {
        assert!(!is_float_text(text), "{:?}", text);
        assert!(!check_float_literal(&chars(text)), "{:?}", text);
    }
}

/// All texts of the given length over `alphabet`, one after the other.
fn for_each_text(alphabet: &[char], len: usize, visit: &mut dyn FnMut(&str)) {
    let mut index = vec![0usize; len];
    loop {
        let text: String = index.iter().map(|&i| alphabet[i]).collect();
        visit(&text);
        let mut at = 0;
        while at < len {
            index[at] += 1;
            if index[at] < alphabet.len() {
                break;
            }
            index[at] = 0;
            at += 1;
        }
        if at == len {
            break;
        }
    }
}

#[test]
fn agrees_with_std_on_short_texts() {
    let alphabet = ['0', '7', '.', 'e', 'E', '+', '-', ' ', 'x'];
    for len in 0..=6 {
        for_each_text(&alphabet, len, &mut |text| {
            assert_eq!(is_float_text(text), text.parse::<f64>().is_ok(), "{:?}", text);
        });
    }
}

#[test]
fn agrees_with_std_on_special_values() {
    let alphabet = ['i', 'n', 'f', 'a', 'N', 'I', 't', 'y', '-', '1'];
    for len in 0..=5 {
        for_each_text(&alphabet, len, &mut |text| {
            assert_eq!(is_float_text(text), text.parse::<f64>().is_ok(), "{:?}", text);
        });
    }
    for text in ["infinity", "Infinity", "INFINITY", "+infinity", "-infinitY", "infinit", "infinity1"] {
        assert_eq!(is_float_text(text), text.parse::<f64>().is_ok(), "{:?}", text);
    }
}

#[test]
fn mantissa() {
    for text in ["0", "12", "1.", ".1", "1.5", "000.000"] {
        assert!(check_mantissa(&chars(text)), "{:?}", text);
    }
    for text in ["", ".", "1..", "1.2.", "-1", "1e5", "a", "1 "] {
        assert!(!check_mantissa(&chars(text)), "{:?}", text);
    }
}

#[test]
fn exponent() {
    for text in ["e0", "E0", "e+1", "E-12", "e123"] {
        assert!(check_exponent(&chars(text)), "{:?}", text);
    }
    for text in ["", "e", "E", "e+", "e-", "5", "e1.", "e++1", "x1", "e 1"] {
        assert!(!check_exponent(&chars(text)), "{:?}", text);
    }
}

#[test]
fn number() {
    for text in ["1", "1.5", "1e5", ".5E-3", "2.e+7"] {
        assert!(check_number(&chars(text)), "{:?}", text);
    }
    for text in ["", "-1", "+1", "e5", ".e5", "1e", "inf", "nan", "1e5x"] {
        assert!(!check_number(&chars(text)), "{:?}", text);
    }
}

#[test]
fn special() {
    for text in ["inf", "INF", "Inf", "infinity", "INFINITY", "nan", "NaN", "NAN"] {
        assert!(check_special(&chars(text)), "{:?}", text);
    }
    for text in ["", "in", "infi", "infinit", "na", "nano", "-inf", "1", "ınf"] {
        assert!(!check_special(&chars(text)), "{:?}", text);
    }
}

#[test]
fn case_of_letters_plays_no_part() {
    for text in [
        "1E5", "1e5", "INF", "Inf", "-InFiNiTy", "NaN", "NAN", "1X", "E5", "1E", "Nan1", "+nAn",
        "1.5E+3", "INFINIT",
    ] {
        assert_eq!(is_float_text(text), is_float_text(&text.to_ascii_lowercase()), "{:?}", text);
        assert_eq!(is_float_text(text), is_float_text(&text.to_ascii_uppercase()), "{:?}", text);
    }
}

#[test]
fn numbers_hold_no_white_space() {
    for text in ["1 ", " 1", "1 e5", "1e 5", "- 1", "in f", "\t1", "1\u{a0}", "\u{2003}nan"] {
        assert!(!is_float_text(text), "{:?}", text);
    }
}
