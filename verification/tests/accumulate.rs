use wordcount::stats::{accumulate, is_ascii_ws, Stats};

/// Checks every field of `accumulate` against values computed independently
/// with the standard library: exact byte length, line-feed count plus a
/// trailing partial line, ASCII-whitespace word splitting of the lossy
/// decoding, and the scalar-value count of the lossy decoding.
fn check_against_std(input: &[u8]) {
    let stats = accumulate(&input.to_vec());
    let decoded = String::from_utf8_lossy(input);
    let newlines = input.iter().filter(|&&b| b == b'\n').count();
    let expected_lines = newlines
        + if !input.is_empty() && *input.last().unwrap() != b'\n' {
            1
        } else {
            0
        };
    assert_eq!(stats.bytes, input.len());
    assert_eq!(stats.lines, expected_lines);
    assert_eq!(stats.words, decoded.split_ascii_whitespace().count());
    assert_eq!(stats.chars, decoded.chars().count());
}

#[test]
fn empty_input_yields_all_zero() {
    let stats = accumulate(&Vec::new());
    assert_eq!(
        stats,
        Stats {
            bytes: 0,
            lines: 0,
            words: 0,
            chars: 0
        }
    );
}

#[test]
fn hello_world_scenario() {
    let stats = accumulate(&b"hello world\nfoo\n".to_vec());
    assert_eq!(
        stats,
        Stats {
            bytes: 16,
            lines: 2,
            words: 3,
            chars: 16
        }
    );
}

#[test]
fn no_trailing_newline_scenario() {
    let stats = accumulate(&b"no newline at end".to_vec());
    assert_eq!(
        stats,
        Stats {
            bytes: 17,
            lines: 1,
            words: 4,
            chars: 17
        }
    );
}

#[test]
fn multibyte_character_bytes_exceed_chars() {
    let euro = accumulate(&"\u{20AC}".as_bytes().to_vec());
    assert_eq!(euro.bytes, 3);
    assert_eq!(euro.chars, 1);

    let mixed = accumulate(&"a\u{20AC}b\n".as_bytes().to_vec());
    assert_eq!(mixed.bytes, 6);
    assert_eq!(mixed.chars, 4);
    assert!(mixed.bytes > mixed.chars);
    assert_eq!(mixed.words, 1);
    assert_eq!(mixed.lines, 1);
}

#[test]
fn whitespace_only_input_has_no_words() {
    let stats = accumulate(&b"   \n\t\n".to_vec());
    assert_eq!(stats.words, 0);
    assert_eq!(stats.lines, 2);
    assert_eq!(stats.bytes, 6);
    assert_eq!(stats.chars, 6);
}

#[test]
fn accumulation_is_deterministic() {
    let input = b"some fixed input\nwith two lines".to_vec();
    let first = accumulate(&input);
    let second = accumulate(&input);
    assert_eq!(first, second);
}

#[test]
fn bytes_equal_input_length() {
    for input in [
        &b""[..],
        b"a",
        b"\n",
        b"hello world\nfoo\n",
        b"\xFF\xFE",
        "\u{20AC}\u{1F600}".as_bytes(),
    ] {
        assert_eq!(accumulate(&input.to_vec()).bytes, input.len());
    }
}

#[test]
fn lines_count_newlines_plus_partial_tail() {
    assert_eq!(accumulate(&b"\n\n\n".to_vec()).lines, 3);
    assert_eq!(accumulate(&b"\n\nx".to_vec()).lines, 3);
    assert_eq!(accumulate(&b"x".to_vec()).lines, 1);
    assert_eq!(accumulate(&b"x\n".to_vec()).lines, 1);
}

#[test]
fn words_split_on_all_ascii_whitespace() {
    // Space, tab, line feed, form feed, and carriage return all delimit;
    // vertical tab (0x0B) does not.
    assert_eq!(accumulate(&b"a b\tc\nd\x0Ce\rf".to_vec()).words, 6);
    assert_eq!(accumulate(&b"a\x0Bb".to_vec()).words, 1);
    assert_eq!(accumulate(&b"  leading and trailing  ".to_vec()).words, 3);
}

#[test]
fn ascii_input_has_chars_equal_bytes() {
    let stats = accumulate(&b"plain ascii text\n".to_vec());
    assert_eq!(stats.chars, stats.bytes);
}

#[test]
fn invalid_utf8_counts_replacement_characters() {
    // One replacement character per maximal subpart of an ill-formed
    // sequence, exactly as std's lossy decoding produces them.
    assert_eq!(accumulate(&vec![0xFF]).chars, 1);
    assert_eq!(accumulate(&vec![0x80]).chars, 1);
    // Overlong encoding: two ill-formed bytes, two replacements.
    assert_eq!(accumulate(&vec![0xC0, 0x80]).chars, 2);
    // Surrogate: each byte of the tail restarts, three replacements.
    assert_eq!(accumulate(&vec![0xED, 0xA0, 0x80]).chars, 3);
    // Truncated three- and four-byte sequences: one replacement each.
    assert_eq!(accumulate(&vec![0xE2, 0x82]).chars, 1);
    assert_eq!(accumulate(&vec![0xF0, 0x9F, 0x98]).chars, 1);
    // Past the last code point: four replacements.
    assert_eq!(accumulate(&vec![0xF4, 0x90, 0x80, 0x80]).chars, 4);
}

#[test]
fn replacement_characters_count_as_word_bytes() {
    // An ill-formed byte between spaces decodes to a replacement character,
    // which is not whitespace, so it forms a word.
    assert_eq!(accumulate(&b" \xFF \xFF\xFF ".to_vec()).words, 2);
}

#[test]
fn agrees_with_std_on_varied_inputs() {
    let cases: Vec<Vec<u8>> = vec![
        vec![],
        b"hello world\nfoo\n".to_vec(),
        b"no newline at end".to_vec(),
        b"   \n\t\n".to_vec(),
        "a\u{20AC}b caf\u{E9}\nnaive\u{308} \u{1F600}\n".as_bytes().to_vec(),
        vec![0xFF, 0x20, 0xC0, 0x80, 0x0A],
        vec![0xE0, 0xA0, 0x0A, 0x80],
        vec![0xED, 0xA0, 0x80, 0x65, 0x64],
        vec![0xF0, 0x9F, 0x98, 0x81, 0xF0, 0x9F, 0x98],
        vec![0x0A, 0x0A, 0x0D, 0x09, 0x20],
        vec![0xC2, 0xA0, 0x62],
        vec![0xE2, 0x82, 0xAC, 0xE2, 0x82],
    ];
    for input in cases {
        check_against_std(&input);
    }
}

#[test]
fn whitespace_classification_is_ascii() {
    assert!(is_ascii_ws(b' '));
    assert!(is_ascii_ws(b'\t'));
    assert!(is_ascii_ws(b'\n'));
    assert!(is_ascii_ws(0x0C));
    assert!(is_ascii_ws(b'\r'));
    assert!(!is_ascii_ws(0x0B));
    assert!(!is_ascii_ws(b'a'));
    assert!(!is_ascii_ws(0x80));
}
