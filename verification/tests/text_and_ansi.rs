use matoi::ansi::strip_ansi_codes;
use matoi::text::{chars_of, lines_of, parse_i64, parse_u32, push_decimal, splitn_of, string_of};

fn v(s: &str) -> Vec<char> {
    s.chars().collect()
}

#[test]
fn strip_removes_color_codes() {
    assert_eq!(strip_ansi_codes("\x1b[31mred\x1b[0m plain"), "red plain");
}

#[test]
fn strip_removes_osc_ended_by_bel() {
    assert_eq!(strip_ansi_codes("\x1b]0;title\x07text"), "text");
}

#[test]
fn strip_removes_osc_ended_by_st() {
    assert_eq!(strip_ansi_codes("a\x1b]8;;http://x\x1b\\link\x1b]8;;\x1b\\b"), "alinkb");
}

#[test]
fn strip_osc_keeps_going_past_lone_escape() {
    // An ESC inside an OSC that is not followed by a backslash does not end it.
    assert_eq!(strip_ansi_codes("\x1b]x\x1byz\x07after"), "after");
}

#[test]
fn strip_two_character_escape() {
    assert_eq!(strip_ansi_codes("a\x1b=b\x1b(c"), "abc");
}

#[test]
fn strip_truncated_sequences() {
    assert_eq!(strip_ansi_codes("abc\x1b"), "abc");
    assert_eq!(strip_ansi_codes("abc\x1b[12;3"), "abc");
    assert_eq!(strip_ansi_codes("abc\x1b]unterminated"), "abc");
}

#[test]
fn strip_keeps_plain_text_and_unicode() {
    assert_eq!(strip_ansi_codes("héllo ▶ wörld\n"), "héllo ▶ wörld\n");
    assert_eq!(strip_ansi_codes(""), "");
}

#[test]
fn strip_twice_is_strip_once() {
    let s = "\x1b[1m\x1b\x1b[2mx\x1b]y\x07z";
    let once = strip_ansi_codes(s);
    assert_eq!(strip_ansi_codes(&once), once);
    assert!(!once.contains('\x1b'));
}

#[test]
fn decimal_rendering() {
    let mut out = Vec::new();
    push_decimal(&mut out, 0);
    assert_eq!(string_of(&out), "0");
    let mut out = Vec::new();
    push_decimal(&mut out, 1234567890123);
    assert_eq!(string_of(&out), "1234567890123");
    let mut out = v("x=");
    push_decimal(&mut out, u64::MAX);
    assert_eq!(string_of(&out), format!("x={}", u64::MAX));
}

#[test]
fn parse_u32_like_std() {
    for s in ["0", "42", "+7", "007", "4294967295", "4294967296", "", "+", "-1", "1a", " 1", "99999999999"] {
        assert_eq!(parse_u32(&v(s)), s.parse::<u32>().ok(), "input {:?}", s);
    }
}

#[test]
fn parse_i64_like_std() {
    for s in [
        "0", "-0", "+5", "-5", "1700000000", "9223372036854775807", "9223372036854775808",
        "-9223372036854775808", "-9223372036854775809", "", "-", "+", "--1", "12x",
    ] {
        assert_eq!(parse_i64(&v(s)), s.parse::<i64>().ok(), "input {:?}", s);
    }
}

#[test]
fn lines_like_std() {
    for s in ["", "a", "a\n", "a\nb", "a\r\nb\r\n", "\n\n", "x\r", "a\rb\n", "\r\n"] {
        let got: Vec<String> = lines_of(&v(s)).iter().map(|l| string_of(l)).collect();
        let want: Vec<String> = s.lines().map(|l| l.to_string()).collect();
        assert_eq!(got, want, "input {:?}", s);
    }
}

#[test]
fn splitn_like_std() {
    for s in ["", "a", "a\tb", "1\tw\tc\t5\t1", "1\tw\tc\t5\t1\textra\tmore", "\t\t\t\t"] {
        let got: Vec<String> = splitn_of(&v(s), 5, '\t').iter().map(|l| string_of(l)).collect();
        let want: Vec<String> = s.splitn(5, '\t').map(|l| l.to_string()).collect();
        assert_eq!(got, want, "input {:?}", s);
    }
}

#[test]
fn chars_round_trip() {
    let s = "tmux ▶ ok";
    assert_eq!(string_of(&chars_of(s)), s);
}

#[test]
fn strip_keeps_plain_prefix() {
    let p = "prompt $ ";
    for s in ["\x1b[31mred\x1b[0m", "\x1b]0;t\x07x", "plain", "", "\x1b"] {
        assert_eq!(strip_ansi_codes(&format!("{}{}", p, s)), format!("{}{}", p, strip_ansi_codes(s)));
    }
    assert_eq!(strip_ansi_codes(p), p);
}
