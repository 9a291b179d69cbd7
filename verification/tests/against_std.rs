use nubdb::error::Error;
use nubdb::frame::extract_line;
use nubdb::reply::{decode_counter, decode_exists, decode_flag, decode_size, decode_value};

const ALPHABET: [char; 16] = [
    '0', '1', '9', '+', '-', ' ', '\t', '\n', '\r', '"', 'a', '(', 'K', '\u{a0}', '\u{3000}', 'é',
];

/// Every text of at most `longest` characters over the alphabet.
fn texts(longest: usize) -> Vec<String> {
    let mut all = vec![String::new()];
    let mut last = vec![String::new()];
    for _ in 0..longest {
        let mut next = Vec::new();
        for text in &last {
            for c in ALPHABET {
                let mut longer = text.clone();
                longer.push(c);
                next.push(longer);
            }
        }
        all.extend(next.iter().cloned());
        last = next;
    }
    all
}

#[test]
fn extract_line_trims_as_std_does() {
    for text in texts(4) {
        let expected = if text.ends_with('\n') { Some(text.trim().to_string()) } else { None };
        assert_eq!(extract_line(&text), expected, "{:?}", text);
    }
}

#[test]
fn value_strips_quotes_as_std_does() {
    for text in texts(4) {
        let expected = if text == "(nil)" {
            None
        } else {
            Some(text.trim_matches('"').to_string())
        };
        assert_eq!(decode_value(&text), expected, "{:?}", text);
    }
    for text in ["(nil)", "\"(nil)\"", "\"\"\"a\"b\"\"", "\"\"\"\"\"\"", "\"a\"\"\"\"\""] {
        let expected = if text == "(nil)" {
            None
        } else {
            Some(text.trim_matches('"').to_string())
        };
        assert_eq!(decode_value(text), expected, "{:?}", text);
    }
}

#[test]
fn flags_compare_as_std_does() {
    for text in texts(3) {
        assert_eq!(decode_flag(&text), text == "OK", "{:?}", text);
        assert_eq!(decode_exists(&text), text == "1", "{:?}", text);
    }
}

#[test]
fn counter_parses_as_std_does() {
    for text in texts(4) {
        let expected = text.parse::<i64>().map_err(|_| Error::Decode);
        assert_eq!(decode_counter(&text), expected, "{:?}", text);
    }
}

#[test]
fn counter_parses_long_digit_runs_as_std_does() {
    let around = [
        i64::MAX as i128 - 1,
        i64::MAX as i128,
        i64::MAX as i128 + 1,
        i64::MIN as i128 + 1,
        i64::MIN as i128,
        i64::MIN as i128 - 1,
        u64::MAX as i128,
        u64::MAX as i128 + 1,
        -(u64::MAX as i128),
        i128::MAX,
        i128::MIN,
        0,
    ];
    for number in around {
        for text in [number.to_string(), format!("+{}", number), format!("0{}", number)] {
            let expected = text.parse::<i64>().map_err(|_| Error::Decode);
            assert_eq!(decode_counter(&text), expected, "{:?}", text);
        }
    }
    let mut number: i64 = 1;
    for step in 0..4000i64 {
        assert_eq!(decode_counter(&number.to_string()), Ok(number));
        number = number.wrapping_mul(6_364_136_223_846_793_005).wrapping_add(step);
    }
}

#[test]
fn size_parses_the_first_token_as_std_does() {
    for text in texts(4) {
        let expected = match text.split_whitespace().next() {
            Some(token) => token.parse::<usize>().map_err(|_| Error::Decode),
            None => Ok(0),
        };
        assert_eq!(decode_size(&text), expected, "{:?}", text);
    }
    let mut number: usize = 1;
    for step in 0..4000usize {
        assert_eq!(decode_size(&format!("{} keys", number)), Ok(number));
        number = number.wrapping_mul(0x9E37_79B9usize).wrapping_add(step);
    }
}
