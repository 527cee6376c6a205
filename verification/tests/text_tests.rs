use ubi::text::{
    contains_exec, dedup_exec, join_exec, lines_exec, replace_exec, split_exec, trim_end_matches_exec, trim_exec,
    trim_start_matches_exec, words_exec,
};

fn chars(s: &str) -> Vec<char> {
    s.chars().collect()
}

fn text(v: &[char]) -> String {
    v.iter().collect()
}

fn texts(v: &[Vec<char>]) -> Vec<String> {
    v.iter().map(|x| text(x)).collect()
}

const SAMPLES: [&str; 9] = ["", "a", "  padded\t\n", "a, b, , c", "line1\nline2\r\nline3", "x\n\n", "\u{3000}wide\u{a0}", "a--b----c", "no sep"];

#[test]
fn replace_agrees_with_std() {
    for s in SAMPLES.iter() {
        for (from, to) in [(", ", ";"), ("-", ""), ("--", "+"), ("a", "aa")].iter() {
            assert_eq!(text(&replace_exec(&chars(s), &chars(from), &chars(to))), s.replace(from, to), "{:?}", s);
        }
    }
}

#[test]
fn split_and_join_agree_with_std() {
    for s in SAMPLES.iter() {
        for sep in [", ", "-", "--", "\n"].iter() {
            let parts = split_exec(&chars(s), &chars(sep));
            let expected: Vec<String> = s.split(sep).map(|p| p.to_string()).collect();
            assert_eq!(texts(&parts), expected, "{:?} by {:?}", s, sep);
            assert_eq!(text(&join_exec(&parts, &chars(sep))), *s);
        }
    }
}

#[test]
fn trims_agree_with_std() {
    for s in SAMPLES.iter() {
        assert_eq!(text(&trim_exec(&chars(s))), s.trim(), "{:?}", s);
        assert_eq!(text(&trim_start_matches_exec(&chars(s), &chars("a"))), s.trim_start_matches("a"));
        assert_eq!(text(&trim_end_matches_exec(&chars(s), &chars("-c"))), s.trim_end_matches("-c"));
    }
    assert_eq!(text(&trim_end_matches_exec(&chars("m.rs.rs"), &chars(".rs"))), "m");
}

#[test]
fn lines_and_words_agree_with_std() {
    for s in SAMPLES.iter() {
        let expected: Vec<String> = s.lines().map(|l| l.to_string()).collect();
        assert_eq!(texts(&lines_exec(&chars(s))), expected, "{:?}", s);
        let words: Vec<String> = s.split_whitespace().map(|w| w.to_string()).collect();
        assert_eq!(texts(&words_exec(&chars(s))), words, "{:?}", s);
    }
}

#[test]
fn contains_agrees_with_std() {
    for s in SAMPLES.iter() {
        for p in ["", "a", "--", "line2", "zzz"].iter() {
            assert_eq!(contains_exec(&chars(s), &chars(p)), s.contains(p));
        }
    }
}

#[test]
fn dedup_keeps_first_occurrences() {
    let v = vec![chars("b"), chars("a"), chars("b"), chars("c"), chars("a")];
    assert_eq!(texts(&dedup_exec(&v)), vec!["b", "a", "c"]);
}
