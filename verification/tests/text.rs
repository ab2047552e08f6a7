use zhelper::number::{float_text, number_text, only_digits, read_i64, read_u32, read_u64, read_u8};
use zhelper::text::{
    begins, chars_of, finishes, holds, is_text, join, last_position, left_column, lines_of,
    position, replaced, right_column, shorter_than, space_char, split_on, string_of, trimmed,
    trimmed_string, without_leading, words_of,
};

fn cs(s: &str) -> Vec<char> {
    s.chars().collect()
}

fn st(v: &[char]) -> String {
    v.iter().collect()
}

#[test]
fn white_space_is_that_of_unicode() {
    for n in 0..=0x10ffffu32 {
        if let Some(c) = char::from_u32(n) {
            assert_eq!(space_char(c), c.is_whitespace(), "{:?}", c);
        }
    }
}

#[test]
fn strings_and_characters() {
    assert_eq!(chars_of("aé✓"), cs("aé✓"));
    assert_eq!(string_of(&cs("aé✓")), "aé✓");
    assert!(is_text(&cs("abc"), "abc"));
    assert!(!is_text(&cs("abc"), "abd"));
}

#[test]
fn trimming() {
    for s in ["", " ", "a", "  a b \n", "\u{3000}x\u{85}", "\tq", "x\r\n"] {
        assert_eq!(st(trimmed(&cs(s))), s.trim());
        assert_eq!(trimmed_string(s), s.trim());
    }
}

#[test]
fn searching() {
    let s = "one, two, three, two";
    for p in ["two", "one", "x", "", ", ", "three, two", "two "] {
        assert_eq!(position(&cs(s), p), s.find(p), "{:?}", p);
        assert_eq!(holds(&cs(s), p), s.contains(p));
        assert_eq!(begins(&cs(s), p), s.starts_with(p));
        assert_eq!(finishes(&cs(s), p), s.ends_with(p));
    }
    assert_eq!(last_position(&cs(s), "two"), Some(17));
    assert_eq!(last_position(&cs(s), "zwei"), None);
}

#[test]
fn splitting() {
    for (s, p) in [("a,b,,c", ","), ("", ","), (",", ","), ("aXXbXXXc", "XX"), ("abc", "z")] {
        let v = cs(s);
        let got: Vec<String> = split_on(&v, p).iter().map(|x| st(x)).collect();
        let want: Vec<String> = s.split(p).map(|x| x.to_string()).collect();
        assert_eq!(got, want, "{:?} {:?}", s, p);
    }
}

#[test]
fn replacing() {
    for (s, p, by) in [("a  b   c", "  ", " "), ("Intel(R) Core(TM)", "(R)", ""), ("aaaa", "aa", "b")] {
        assert_eq!(st(&replaced(&cs(s), p, by)), s.replace(p, by));
    }
}

#[test]
fn leading_matches() {
    for s in ["(uint32 (uint32 7", "x", "", "(uint32 "] {
        assert_eq!(st(without_leading(&cs(s), "(uint32 ")), s.trim_start_matches("(uint32 "));
    }
}

#[test]
fn lines_and_words() {
    for s in ["", "a", "a\nb", "a\r\nb\r\n", "\n\n", "a\rb\n", "x\n\ny", "a\r"] {
        let v = cs(s);
        let got: Vec<String> = lines_of(&v).iter().map(|x| st(x)).collect();
        let want: Vec<String> = s.lines().map(|x| x.to_string()).collect();
        assert_eq!(got, want, "{:?}", s);
    }
    for s in ["", " a  b\tc \n", "abc", "\u{2003}x y"] {
        let v = cs(s);
        let got: Vec<String> = words_of(&v).iter().map(|x| st(x)).collect();
        let want: Vec<String> = s.split_whitespace().map(|x| x.to_string()).collect();
        assert_eq!(got, want, "{:?}", s);
    }
}

#[test]
fn byte_lengths() {
    for s in ["", "abc", "é", "€€", "🦀", "0123456789012345678", "01234567890123456789"] {
        for n in [0usize, 1, 2, 4, 6, 20] {
            assert_eq!(shorter_than(&cs(s), n), s.len() < n, "{:?} {}", s, n);
        }
    }
}

#[test]
fn columns_are_filled_up() {
    for s in ["", "a", "éé", "a long label that is wider"] {
        assert_eq!(left_column(s, 5), format!("{:<5}", s));
        assert_eq!(right_column(s, 5), format!("{:>5}", s));
    }
    assert_eq!(right_column("7", 3), "  7");
    assert_eq!(left_column("PL1", 6), "PL1   ");
}

#[test]
fn joining() {
    let parts: Vec<String> = vec!["a".to_string(), "".to_string(), "c".to_string()];
    assert_eq!(join(&parts, " "), "a  c");
    assert_eq!(join(&Vec::new(), " "), "");
    assert_eq!(join(&vec!["only".to_string()], ", "), "only");
}

#[test]
fn numbers_are_read_as_the_standard_library_reads_them() {
    let texts = [
        "", "0", "7", "255", "256", "+5", "-5", "-0", "+", "-", "007", "4294967295", "4294967296",
        "18446744073709551615", "18446744073709551616", "9223372036854775807",
        "9223372036854775808", "-9223372036854775808", "-9223372036854775809", "1 ", " 1", "1a",
        "1_000", "٣", "--1", "+-1",
    ];
    for s in texts {
        assert_eq!(read_u8(&cs(s)), s.parse::<u8>().ok(), "{:?}", s);
        assert_eq!(read_u32(&cs(s)), s.parse::<u32>().ok(), "{:?}", s);
        assert_eq!(read_u64(&cs(s)), s.parse::<u64>().ok(), "{:?}", s);
        assert_eq!(read_i64(&cs(s)), s.parse::<i64>().ok(), "{:?}", s);
    }
}

#[test]
fn decimal_points_are_read_as_the_standard_library_reads_them() {
    let texts = [
        "", "1", "1.", ".5", ".", "1.5", "+1.5", "-1.5", "1e5", "1e", "1e+", "1e+5", "1E-5", "e5",
        "inf", "-inf", "+Infinity", "INFINITY", "infin", "nan", "NaN", "-nan", "nann", "1.5.2",
        "1 ", " 1", "0x10", "1_0", "165.00178527832031", "59.951", "1.e3", ".e3", ".5e1", "+.5",
        "٣", "1e5.0", "--1", "+",
    ];
    for s in texts {
        assert_eq!(float_text(&cs(s)), s.parse::<f64>().is_ok(), "{:?}", s);
        assert_eq!(float_text(&cs(s)), s.parse::<f32>().is_ok(), "{:?}", s);
    }
}

#[test]
fn numbers_are_written_and_read_back() {
    for n in [0u64, 1, 9, 10, 80, 100, 255, 65535, 1234567890, u64::MAX] {
        assert_eq!(number_text(n), n.to_string());
        assert_eq!(read_u64(&cs(&number_text(n))), Some(n));
    }
    assert!(only_digits(&cs("0123456789")));
    assert!(only_digits(&[]));
    assert!(!only_digits(&cs("12x")));
    assert!(!only_digits(&cs("٣")));
}
