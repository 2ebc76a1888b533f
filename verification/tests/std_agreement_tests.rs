use kagi_proxy::numbers::{digits_of, parse_unsigned};
use kagi_proxy::text::{find_chars, replace_all, split_lines, trim_chars};

fn chars(s: &str) -> Vec<char> {
    s.chars().collect()
}

fn text(v: &[char]) -> String {
    v.iter().collect()
}

const SAMPLES: &[&str] = &[
    "",
    "a",
    "\n",
    "\r\n",
    "a\r",
    "a\nb",
    "a\n\nb\n",
    "a\r\nb\r\r\nc",
    " \u{a0}x\u{3000} ",
    "\u{2028}line\u{85}",
    "&amp;&amp;amp;",
    "aaaa",
    "héllo\nwörld",
];

#[test]
fn lines_agree_with_std() {
    for s in SAMPLES {
        let ours: Vec<String> = split_lines(&chars(s)).iter().map(|l| text(l)).collect();
        let std: Vec<String> = s.lines().map(str::to_string).collect();
        assert_eq!(ours, std, "lines of {:?}", s);
    }
}

#[test]
fn trim_agrees_with_std() {
    for s in SAMPLES {
        assert_eq!(text(&trim_chars(&chars(s))), s.trim(), "trim of {:?}", s);
    }
}

#[test]
fn replace_agrees_with_std() {
    for s in SAMPLES {
        for (p, r) in [("&amp;", "&"), ("aa", "b"), ("\n", ""), ("l", "LL")] {
            assert_eq!(text(&replace_all(&chars(s), &chars(p), &chars(r))), s.replace(p, r));
        }
    }
}

#[test]
fn find_agrees_with_std() {
    for s in ["abcabc", "", "xyz", "aaab"] {
        for p in ["bc", "", "z", "aab", "abcd"] {
            let ours = find_chars(&chars(s), &chars(p));
            let std = s.find(p);
            assert_eq!(ours, std, "find {:?} in {:?}", p, s);
        }
    }
}

#[test]
fn parse_agrees_with_std() {
    for s in ["0", "42", "+42", "-1", "", "+", "18446744073709551615", "18446744073709551616", "1 ", "00012"] {
        assert_eq!(parse_unsigned(&chars(s), u64::MAX), s.parse::<u64>().ok(), "parse {:?}", s);
    }
}

#[test]
fn digits_agree_with_format() {
    for n in [0u64, 7, 10, 255, 4096, u64::MAX] {
        assert_eq!(text(&digits_of(n, 10)), format!("{}", n));
        assert_eq!(text(&digits_of(n, 16)), format!("{:x}", n));
    }
}
