use rust_rag::chunking::chunk_text;

fn chars(s: &str) -> Vec<char> {
    s.chars().collect()
}

fn count(s: &str) -> usize {
    s.chars().count()
}

#[test]
fn blank_text_has_no_chunks() {
    assert!(chunk_text("", 600, 100).is_empty());
    assert!(chunk_text("   \n\t  ", 600, 100).is_empty());
    assert!(chunk_text("\u{3000}\u{a0}\u{2028}", 10, 2).is_empty());
}

#[test]
fn short_text_is_one_trimmed_chunk() {
    assert_eq!(chunk_text("  hello world \n", 600, 100), vec!["hello world".to_string()]);
    assert_eq!(chunk_text("abcde", 5, 1), vec!["abcde".to_string()]);
}

#[test]
fn unicode_white_space_is_trimmed() {
    assert_eq!(chunk_text("\u{3000}\u{85}abc\u{a0}\u{2009}", 10, 2), vec!["abc".to_string()]);
    assert_eq!(chunk_text("\u{200b}abc", 10, 2), vec!["\u{200b}abc".to_string()]);
}

#[test]
fn long_text_is_cut_into_overlapping_windows() {
    let out = chunk_text("abcdefghij", 4, 1);
    assert_eq!(out, vec!["abcd".to_string(), "defg".to_string(), "ghij".to_string()]);
    let out = chunk_text("abcdefghijk", 4, 1);
    assert_eq!(
        out,
        vec!["abcd".to_string(), "defg".to_string(), "ghij".to_string(), "jk".to_string()]
    );
    let out = chunk_text("abcdef", 3, 0);
    assert_eq!(out, vec!["abc".to_string(), "def".to_string()]);
}

#[test]
fn windows_count_characters_not_bytes() {
    let out = chunk_text("ééééé", 2, 1);
    assert_eq!(
        out,
        vec!["éé".to_string(), "éé".to_string(), "éé".to_string(), "éé".to_string()]
    );
}

#[test]
fn one_character_too_long_gives_two_chunks() {
    let text: String = std::iter::repeat('x').take(601).collect();
    let out = chunk_text(&text, 600, 100);
    assert_eq!(out.len(), 2);
    assert_eq!(count(&out[0]), 600);
    assert_eq!(count(&out[1]), 101);
}

#[test]
fn law_chunk_sizes_overlap_and_cover() {
    let text = "  The quick brown fox jumps over the lazy dog; pack my box with five dozen liquor jugs.  ";
    for (max, overlap) in [(10usize, 3usize), (7, 0), (5, 4), (50, 10), (1, 0)] {
        let out = chunk_text(text, max, overlap);
        for c in &out {
            let n = count(c);
            assert!(n > 0 && n <= max);
        }
        for pair in out.windows(2) {
            let a = chars(&pair[0]);
            let b = chars(&pair[1]);
            assert_eq!(&b[..overlap], &a[a.len() - overlap..]);
        }
        let mut rebuilt: Vec<char> = Vec::new();
        for (i, c) in out.iter().enumerate() {
            let cs = chars(c);
            if i + 1 < out.len() {
                rebuilt.extend_from_slice(&cs[..cs.len() - overlap]);
            } else {
                rebuilt.extend_from_slice(&cs);
            }
        }
        assert_eq!(rebuilt, chars(text.trim()));
    }
}

#[test]
fn ingest_sized_chunks_of_a_long_document() {
    let text: String = (0..1500).map(|i| char::from(b'a' + (i % 26) as u8)).collect();
    let out = chunk_text(&text, 600, 100);
    assert_eq!(out.len(), 3);
    assert_eq!(count(&out[0]), 600);
    assert_eq!(count(&out[1]), 600);
    assert_eq!(count(&out[2]), 500);
    assert_eq!(chars(&out[1])[..100], chars(&out[0])[500..]);
}

#[test]
fn law_chunk_count_formula() {
    for n in 0usize..40 {
        let text: String = std::iter::repeat('z').take(n).collect();
        for (max, overlap) in [(5usize, 2usize), (4, 0), (3, 2), (10, 9)] {
            let expected = if n == 0 {
                0
            } else if n <= max {
                1
            } else {
                1 + ((n - max) + (max - overlap) - 1) / (max - overlap)
            };
            assert_eq!(chunk_text(&text, max, overlap).len(), expected, "n={} max={} overlap={}", n, max, overlap);
        }
    }
}
