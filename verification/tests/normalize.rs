use mdmigrate::normalize::{fold_quotes, normalize};

fn chars(s: &str) -> Vec<char> {
    s.chars().collect()
}

fn string(v: &[char]) -> String {
    v.iter().collect()
}

#[test]
fn quotes_and_ellipsis_fold_to_plain() {
    let out = fold_quotes(&chars("\u{2018}a\u{2019} \u{201c}b\u{201d} \u{2026}"));
    assert_eq!(string(&out), "'a' \"b\" ...");
}

#[test]
fn newline_runs_collapse() {
    let out = normalize(&chars("a\n\n\nb"));
    assert_eq!(string(&out), "a\nb");
}

#[test]
fn whitespace_before_tags_becomes_newline() {
    let out = normalize(&chars("a  <x>b"));
    assert_eq!(string(&out), "a\n<x>b");
}

#[test]
fn paragraph_pair_is_canonical() {
    let out = normalize(&chars("a </para> <para> b"));
    assert_eq!(string(&out), "a\n</para><para>\nb");
}

#[test]
fn normalize_applied_twice_equals_once() {
    let samples = [
        "a\n\n\nb",
        "a  <x>b",
        "a </para> <para> b",
        "\u{2018}x\u{2019}\n\ny",
        "plain",
        "<para>a</para>\n<para>b</para>",
    ];
    for s in samples {
        let once = normalize(&chars(s));
        let twice = normalize(&once);
        assert_eq!(string(&twice), string(&once), "sample {:?}", s);
    }
}
