use djinn::chars::{
    from_chars, is_space_char, joined, push_all, push_decimal, push_signed_decimal, same_chars,
    split_fields, split_lines, to_chars, trimmed,
};

const SAMPLES: [&str; 24] = [
    "",
    " ",
    "\n",
    "\r\n",
    "a",
    "a b",
    "  a  b  ",
    "a\tb\nc d\r\ne",
    "one\n\ntwo\n",
    "one\r\n\r\ntwo\r\n",
    "trailing cr\r",
    "cr in \r the middle\n",
    "\r\r\n",
    "\n\n\n",
    "no newline at end",
    "\u{a0}nbsp\u{a0}",
    "ideographic\u{3000}space",
    "zero\u{200b}width is no space",
    "\u{2028}line separator\u{2029}",
    "\u{85}next line\u{85}",
    "thin\u{2009}space \u{1680} ogham",
    "h\u{e9}llo w\u{f6}rld \u{1f600} ok",
    "127.0.0.1   localhost\n::1\tip6-localhost ip6-loopback\n",
    "   \t \n \u{205f} \u{202f} ",
];

fn chars(s: &str) -> Vec<char> {
    s.chars().collect()
}

fn text(v: &[char]) -> String {
    v.iter().collect()
}

#[test]
fn whitespace_is_the_unicode_property() {
    for n in 0..=0x10ffff_u32 {
        if let Some(c) = char::from_u32(n) {
            assert_eq!(is_space_char(c), c.is_whitespace(), "U+{:04X}", n);
        }
    }
}

#[test]
fn characters_round_trip_through_strings() {
    for sample in SAMPLES {
        assert_eq!(to_chars(sample), chars(sample));
        assert_eq!(from_chars(&chars(sample)), sample);
    }
    assert_eq!(from_chars(&vec!['a', '\u{1f600}', 'b']), "a\u{1f600}b");
    assert_eq!(from_chars(&Vec::new()), "");
}

#[test]
fn fields_are_the_runs_between_whitespace() {
    for sample in SAMPLES {
        let got: Vec<String> = split_fields(&chars(sample)).iter().map(|f| text(f)).collect();
        let want: Vec<String> = sample.split_whitespace().map(|f| f.to_string()).collect();
        assert_eq!(got, want, "{:?}", sample);
    }
    let got = split_fields(&chars("  10.0.0.5\tdevbox  mirror "));
    assert_eq!(got, vec![chars("10.0.0.5"), chars("devbox"), chars("mirror")]);
}

#[test]
fn lines_end_at_newlines() {
    for sample in SAMPLES {
        let got: Vec<String> = split_lines(&chars(sample)).iter().map(|f| text(f)).collect();
        let want: Vec<String> = sample.lines().map(|f| f.to_string()).collect();
        assert_eq!(got, want, "{:?}", sample);
    }
    assert_eq!(split_lines(&chars("a\r\nb\n\nc\r")), vec![
        chars("a"),
        chars("b"),
        chars(""),
        chars("c\r")
    ]);
    assert_eq!(split_lines(&chars("\n")), vec![chars("")]);
    assert!(split_lines(&chars("")).is_empty());
}

#[test]
fn trimming_drops_whitespace_at_both_ends() {
    for sample in SAMPLES {
        assert_eq!(text(&trimmed(&chars(sample))), sample.trim(), "{:?}", sample);
    }
    assert_eq!(trimmed(&chars(" \t devbox \r\n")), chars("devbox"));
    assert_eq!(trimmed(&chars("a  b")), chars("a  b"));
    assert!(trimmed(&chars(" \n ")).is_empty());
}

#[test]
fn joining_puts_the_separator_between() {
    let parts = vec![chars("TERM"), chars("INSIDE_DJINN"), chars("WSLENV")];
    assert_eq!(text(&joined(&parts, &chars(","))), "TERM,INSIDE_DJINN,WSLENV");
    assert_eq!(text(&joined(&parts[..1].to_vec(), &chars(","))), "TERM");
    assert_eq!(text(&joined(&Vec::new(), &chars(","))), "");
    let gaps = vec![chars(""), chars("a"), chars("")];
    assert_eq!(text(&joined(&gaps, &chars("--"))), "--a--");
    for sample in SAMPLES {
        let fields = split_fields(&chars(sample));
        let want = sample.split_whitespace().collect::<Vec<&str>>().join(" ");
        assert_eq!(text(&joined(&fields, &chars(" "))), want);
    }
}

#[test]
fn equal_texts_are_told_from_unequal_ones() {
    assert!(same_chars(&chars("devbox"), &chars("devbox")));
    assert!(same_chars(&chars(""), &chars("")));
    assert!(!same_chars(&chars("devbox"), &chars("devboy")));
    assert!(!same_chars(&chars("devbox"), &chars("devboxmirror")));
    assert!(!same_chars(&chars("devboxmirror"), &chars("devbox")));
    assert!(!same_chars(&chars("a"), &chars("")));
}

#[test]
fn appending_keeps_what_was_there() {
    let mut out = chars("ab");
    push_all(&mut out, &chars("cd"));
    push_all(&mut out, &chars(""));
    assert_eq!(out, chars("abcd"));
}

#[test]
fn numbers_are_written_in_decimal() {
    for n in [0_u64, 1, 9, 10, 11, 99, 100, 4242, 1_000_000, u64::MAX] {
        let mut out = chars("pid ");
        push_decimal(&mut out, n);
        assert_eq!(text(&out), format!("pid {}", n));
    }
    for n in [0_i32, 1, -1, 7, -10, 4242, -4242, i32::MAX, i32::MIN] {
        let mut out = Vec::new();
        push_signed_decimal(&mut out, n);
        assert_eq!(text(&out), format!("{}", n));
    }
}
