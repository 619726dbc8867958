use cord_ripper::decimal::{parse_u16, parse_u8, IntError};
use cord_ripper::makemkv::makemkv_helpers::{clean_str, episode_in_name};
use cord_ripper::text::{has_text, lines_of, remove_text, split_on, trimmed};
use std::num::IntErrorKind;

fn words(alphabet: &[char], longest: usize) -> Vec<String> {
    let mut all = vec![String::new()];
    let mut last = vec![String::new()];
    for _ in 0..longest {
        let mut next = Vec::new();
        for word in &last {
            for c in alphabet {
                let mut longer = word.clone();
                longer.push(*c);
                next.push(longer);
            }
        }
        all.extend(next.iter().cloned());
        last = next;
    }
    all
}

fn kind_of(e: &IntErrorKind) -> IntError {
    match e {
        IntErrorKind::Empty => IntError::Empty,
        IntErrorKind::InvalidDigit => IntError::InvalidDigit,
        _ => IntError::TooLarge,
    }
}

#[test]
fn every_short_text_is_split_like_std() {
    for word in words(&['a', ',', '\n', '\r', ' ', '"'], 5) {
        let chars: Vec<char> = word.chars().collect();
        let pieces: Vec<String> = split_on(&chars, ',').iter().map(|p| p.iter().collect()).collect();
        let expected: Vec<String> = word.split(',').map(|p| p.to_string()).collect();
        assert_eq!(pieces, expected, "{:?}", word);
        let lines: Vec<String> = lines_of(&chars).iter().map(|p| p.iter().collect()).collect();
        let expected: Vec<String> = word.lines().map(|p| p.to_string()).collect();
        assert_eq!(lines, expected, "{:?}", word);
    }
}

#[test]
fn every_short_text_is_trimmed_like_std() {
    for word in words(&['a', '\u{a0}', '\n', '\r', ' ', '"'], 5) {
        let chars: Vec<char> = word.chars().collect();
        assert_eq!(trimmed(&chars).iter().collect::<String>(), word.trim(), "{:?}", word);
        assert_eq!(clean_str(&word), word.trim().replace('"', ""), "{:?}", word);
    }
}

#[test]
fn every_short_text_is_searched_like_std() {
    let patterns: Vec<Vec<char>> = ["ab", "aba", "a", "bb", ""].iter().map(|p| p.chars().collect()).collect();
    for word in words(&['a', 'b', 'c'], 7) {
        let chars: Vec<char> = word.chars().collect();
        for pattern in &patterns {
            let text: String = pattern.iter().collect();
            assert_eq!(has_text(&chars, pattern), word.contains(&text), "{:?} {:?}", word, text);
            assert_eq!(
                remove_text(&chars, pattern).iter().collect::<String>(),
                word.replace(&text, ""),
                "{:?} {:?}",
                word,
                text
            );
        }
    }
}

#[test]
fn every_short_number_is_read_like_std() {
    for word in words(&['+', '-', '0', '2', '5', '6', '9', 'x'], 5) {
        let chars: Vec<char> = word.chars().collect();
        assert_eq!(parse_u8(&chars), word.parse::<u8>().map_err(|e| kind_of(e.kind())), "{:?}", word);
    }
    for word in words(&['+', '0', '3', '5', '6', 'x'], 6) {
        let chars: Vec<char> = word.chars().collect();
        assert_eq!(parse_u16(&chars), word.parse::<u16>().map_err(|e| kind_of(e.kind())), "{:?}", word);
    }
}

#[test]
fn every_episode_is_found_in_its_file() {
    for episode in 0u8..=255 {
        assert_eq!(episode_in_name(&format!("Episode {}.mkv", episode)), Some(episode));
    }
}
