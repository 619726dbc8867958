use cord_ripper::text::{
    char_is_whitespace, chars_of, comes_before, copy_range, has_prefix, has_suffix, has_text,
    lines_of, push_chars, push_text, remove_char, remove_text, replaced_char, same_text, split_on,
    text_of, text_of_range, trim_bounds, trimmed,
};

fn chars(s: &str) -> Vec<char> {
    s.chars().collect()
}

fn texts(v: &Vec<Vec<char>>) -> Vec<String> {
    v.iter().map(|p| p.iter().collect::<String>()).collect()
}

fn samples() -> Vec<&'static str> {
    vec![
        "",
        " ",
        "a",
        "  a b  ",
        "\t\r\n x \u{a0}",
        "\u{2003}wide\u{3000}",
        "\u{85}next line\u{85}",
        "\u{1680}ogham\u{205f}",
        "\u{200b}zero width is no space\u{200b}",
        "a,b,,c,",
        ",",
        ",,",
        "one\ntwo\r\nthree",
        "one\ntwo\n",
        "\n",
        "\r\n",
        "\n\n",
        "tail\r",
        "mid\rdle\n",
        "x\r\r\ny",
        "Failed to save",
        "Title #1 Failed to save title",
        "Failed to sav",
        "disc_1",
        "disc_disc_12",
        "didisc_sc_7",
        "\"quoted\"",
        " \" in \"ner\" \" ",
        "hé,llo wörld",
        "日本語,テキスト\n二行目",
    ]
}

#[test]
fn chars_and_text_are_inverse() {
    for s in samples() {
        assert_eq!(chars_of(s), chars(s));
        assert_eq!(text_of(&chars(s)), s);
    }
    assert_eq!(text_of_range(&chars("abcdef"), 2, 4), "cd");
    assert_eq!(text_of_range(&chars("abcdef"), 3, 3), "");
    assert_eq!(copy_range(&chars("abcdef"), 1, 6), chars("bcdef"));
}

#[test]
fn same_text_is_equality() {
    for a in samples() {
        for b in samples() {
            assert_eq!(same_text(a, b), a == b, "{:?} {:?}", a, b);
        }
    }
}

#[test]
fn whitespace_is_the_unicode_property() {
    for u in 0u32..0x11000 {
        if let Some(c) = char::from_u32(u) {
            assert_eq!(char_is_whitespace(c), c.is_whitespace(), "U+{:04X}", u);
        }
    }
}

#[test]
fn trimmed_agrees_with_str_trim() {
    for s in samples() {
        assert_eq!(text_of(&trimmed(&chars(s))), s.trim(), "{:?}", s);
        let (a, b) = trim_bounds(&chars(s));
        let all = chars(s);
        assert_eq!(all[a..b].iter().collect::<String>(), s.trim());
    }
}

#[test]
fn trimmed_of_blank_text_is_empty() {
    assert_eq!(trimmed(&chars(" \t\n ")), Vec::<char>::new());
    let (a, b) = trim_bounds(&chars("   "));
    assert_eq!(a, b);
}

#[test]
fn split_on_agrees_with_str_split() {
    for s in samples() {
        for sep in [',', ':', '\n'] {
            let expected: Vec<String> = s.split(sep).map(|p| p.to_string()).collect();
            assert_eq!(texts(&split_on(&chars(s), sep)), expected, "{:?}", s);
        }
    }
}

#[test]
fn split_on_keeps_empty_pieces() {
    assert_eq!(texts(&split_on(&chars("a,b,,c,"), ',')), vec!["a", "b", "", "c", ""]);
    assert_eq!(texts(&split_on(&chars(""), ',')), vec![""]);
}

#[test]
fn lines_of_agrees_with_str_lines() {
    for s in samples() {
        let expected: Vec<String> = s.lines().map(|p| p.to_string()).collect();
        assert_eq!(texts(&lines_of(&chars(s))), expected, "{:?}", s);
    }
}

#[test]
fn lines_of_edge_cases() {
    assert_eq!(texts(&lines_of(&chars(""))), Vec::<String>::new());
    assert_eq!(texts(&lines_of(&chars("a\r\nb\n"))), vec!["a", "b"]);
    assert_eq!(texts(&lines_of(&chars("a\n\nb"))), vec!["a", "", "b"]);
    assert_eq!(texts(&lines_of(&chars("a\r"))), vec!["a\r"]);
}

#[test]
fn searches_agree_with_str() {
    for s in samples() {
        for p in ["", "a", "Failed to save", "disc_", ",", "\n", "wörld", "テ"] {
            assert_eq!(has_text(&chars(s), &chars(p)), s.contains(p), "{:?} {:?}", s, p);
            assert_eq!(has_prefix(&chars(s), &chars(p)), s.starts_with(p), "{:?} {:?}", s, p);
            assert_eq!(has_suffix(&chars(s), &chars(p)), s.ends_with(p), "{:?} {:?}", s, p);
        }
    }
}

#[test]
fn removals_agree_with_str_replace() {
    for s in samples() {
        let all = chars(s);
        assert_eq!(text_of(&remove_char(&all, 0, all.len(), '"')), s.replace('"', ""));
        for p in ["disc_", "", "a", "aa", ".mkv", "\n"] {
            assert_eq!(text_of(&remove_text(&all, &chars(p))), s.replace(p, ""), "{:?} {:?}", s, p);
        }
        assert_eq!(text_of(&replaced_char(&all, '_', ' ')), s.replace('_', " "));
    }
    assert_eq!(text_of(&remove_text(&chars("aaa"), &chars("aa"))), "a");
    assert_eq!(text_of(&remove_char(&chars("x\"y\"z"), 1, 4, '"')), "y");
}

#[test]
fn appending_text() {
    let mut out = chars("ab");
    push_text(&mut out, "çd");
    push_chars(&mut out, &chars("ef"));
    assert_eq!(text_of(&out), "abçdef");
}

#[test]
fn comes_before_is_the_order_of_strings() {
    let mut all = samples();
    all.extend(["a.mkv", "b.mkv", "a", "ab", "B.mkv", "title_t00.mkv", "title_t01.mkv", "é", "z"]);
    for a in &all {
        for b in &all {
            assert_eq!(comes_before(&chars(a), &chars(b)), a < b, "{:?} {:?}", a, b);
        }
    }
}
