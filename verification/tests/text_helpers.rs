use telemetroid::decimal::{parse_u64_exec, push_decimal, push_signed_decimal, u64_to_string};
use telemetroid::strings::{
    find, join_strings, line_ranges, normalize_spaces, replace_all_exec, rfind, split_pieces,
    split_words, string_from, to_chars, trimmed,
};

fn chars(s: &str) -> Vec<char> {
    s.chars().collect()
}

fn text(v: &Vec<char>) -> String {
    v.iter().collect()
}

#[test]
fn decimal_parsing_matches_u64_from_str() {
    for s in ["0", "42", "+7", "007", "18446744073709551615", "18446744073709551616", "", "+", "-1", " 1", "1 ", "1_000", "١"] {
        assert_eq!(parse_u64_exec(&chars(s)), s.parse::<u64>().ok(), "input {:?}", s);
    }
}

#[test]
fn decimal_rendering_matches_display() {
    for n in [0u64, 7, 10, 99, 1000, u64::MAX] {
        assert_eq!(u64_to_string(n), n.to_string());
        let mut s = String::from("x");
        push_decimal(&mut s, n as u128);
        assert_eq!(s, format!("x{}", n));
    }
    for n in [0i64, -1, 15, -273, i64::MIN, i64::MAX] {
        let mut s = String::new();
        push_signed_decimal(&mut s, n);
        assert_eq!(s, n.to_string());
    }
}

#[test]
fn searching() {
    assert_eq!(find(&chars("a bytes) b bytes)"), &chars(" bytes)")), Some(1));
    assert_eq!(rfind(&chars("a bytes) b bytes)"), &chars(" bytes)")), Some(10));
    assert_eq!(find(&chars("abc"), &chars("d")), None);
    assert_eq!(rfind(&chars("abc"), &chars("")), Some(3));
    assert_eq!(find(&chars("abc"), &chars("")), Some(0));
}

#[test]
fn splitting_and_trimming() {
    let words: Vec<String> = split_words(&chars("  a\tbb \n c ")).iter().map(text).collect();
    assert_eq!(words, vec!["a", "bb", "c"]);
    let pieces: Vec<String> = split_pieces(&chars("1:02::3"), ':').iter().map(text).collect();
    assert_eq!(pieces, "1:02::3".split(':').collect::<Vec<_>>());
    assert_eq!(text(&trimmed(&chars(" \u{a0}x y\u{2003}\n"))), " \u{a0}x y\u{2003}\n".trim());
    assert_eq!(text(&normalize_spaces(&chars("  a   b "))), "a b");
    assert_eq!(text(&replace_all_exec(&chars("(R)x(R)"), &chars("(R)"), &chars(""))), "x");
    assert_eq!(string_from(&chars("héllo")), "héllo");
    assert_eq!(text(&to_chars("ab")), "ab");
    assert_eq!(join_strings(&vec!["a".to_string(), "b".to_string()], " · "), "a · b");
}

#[test]
fn lines_match_str_lines() {
    for s in ["", "a", "a\n", "a\r\nb", "\n\n", "x\r", "a\nb\r\n\r\nc"] {
        let v = chars(s);
        let got: Vec<String> = line_ranges(&v).iter().map(|&(lo, hi)| v[lo..hi].iter().collect()).collect();
        let want: Vec<String> = s.lines().map(|l| l.to_string()).collect();
        assert_eq!(got, want, "input {:?}", s);
    }
}
