use nabu_power::text::{
    chars_of, i64_to_string, lines_of, parse_i32_of, parse_unsigned_of, split_once_of, string_of,
    trim_str, u64_to_string, words_of,
};

fn strings(v: Vec<Vec<char>>) -> Vec<String> {
    v.iter().map(|w| string_of(w)).collect()
}

#[test]
fn lines_as_std_gives_them() {
    for s in ["a\r\nb\n\nc\r", "", "\n", "x", "x\n", "a\n\n", "\r\n"] {
        let ours = strings(lines_of(&chars_of(s)));
        let std: Vec<String> = s.lines().map(String::from).collect();
        assert_eq!(ours, std, "input {:?}", s);
    }
}

#[test]
fn words_as_std_gives_them() {
    for s in ["  a b\tc\n", "", "   ", "x\u{3000}y\u{a0}z", "one"] {
        let ours = strings(words_of(&chars_of(s)));
        let std: Vec<String> = s.split_whitespace().map(String::from).collect();
        assert_eq!(ours, std, "input {:?}", s);
    }
}

#[test]
fn trimming() {
    for s in ["  a b \n", "", "\t\n", "x", "\u{2003}y\u{2028}"] {
        assert_eq!(trim_str(s), s.trim());
    }
}

#[test]
fn splitting_once() {
    let (k, v) = split_once_of(&chars_of("a=b=c"), '=').unwrap();
    assert_eq!((string_of(&k), string_of(&v)), ("a".to_string(), "b=c".to_string()));
    assert!(split_once_of(&chars_of("abc"), '=').is_none());
}

#[test]
fn numbers_as_std_parses_them() {
    for s in ["0", "+5", "-5", "2147483647", "2147483648", "-2147483648", "-2147483649", "", "+", "-", "1a", "٣"] {
        assert_eq!(parse_i32_of(&chars_of(s)), s.parse::<i32>().ok(), "input {:?}", s);
    }
    for s in ["ff", "FF", "+a", "-a", "", "ffffffffffffffff", "10000000000000000", "g"] {
        assert_eq!(parse_unsigned_of(&chars_of(s), 16, u64::MAX), u64::from_str_radix(s, 16).ok(), "input {:?}", s);
    }
}

#[test]
fn decimal_writing() {
    for n in [0u64, 7, 10, 1234567890, u64::MAX] {
        assert_eq!(u64_to_string(n), n.to_string());
    }
    for v in [0i64, -1, 42, i64::MIN, i64::MAX] {
        assert_eq!(i64_to_string(v), v.to_string());
    }
}
