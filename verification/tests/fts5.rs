use text_diff::fts5::{
    contains_table, generate_random_words, is_white_space, join_words, parse_usize,
    query_is_blank, text_from_row,
    texts_from_rows, Text, EXPECTED_FTS5_TABLE, TABLE_NAME,
};

#[test]
fn parses_like_std() {
    for s in ["0", "42", "+7", "007", "", "+", "-1", "1a", " 1", "18446744073709551616", "4294967296"] {
        assert_eq!(parse_usize(s), s.parse::<usize>().ok(), "input {:?}", s);
    }
    assert_eq!(parse_usize(&usize::MAX.to_string()), Some(usize::MAX));
}

#[test]
fn rows_become_texts() {
    let row = vec!["12".to_string(), "hello".to_string(), "extra".to_string()];
    assert_eq!(text_from_row(&row), Some(Text { id: 12, text: "hello".to_string() }));
    assert_eq!(text_from_row(&vec!["12".to_string()]), None);
    assert_eq!(text_from_row(&vec!["x".to_string(), "t".to_string()]), None);
    let rows = vec![
        vec!["1".to_string(), "one".to_string()],
        vec!["bad".to_string(), "skip".to_string()],
        vec![],
        vec!["3".to_string(), "three".to_string()],
    ];
    assert_eq!(
        texts_from_rows(&rows),
        vec![Text { id: 1, text: "one".to_string() }, Text { id: 3, text: "three".to_string() }]
    );
}

#[test]
fn table_lookup() {
    let names = vec!["other".to_string(), "data".to_string()];
    assert!(contains_table(&names, TABLE_NAME));
    assert!(!contains_table(&names, EXPECTED_FTS5_TABLE));
    assert!(!contains_table(&vec![], "data"));
}

#[test]
fn words_are_joined_by_single_spaces() {
    assert_eq!(join_words(&vec![]), "");
    assert_eq!(join_words(&vec!["a".to_string()]), "a");
    assert_eq!(join_words(&vec!["a".to_string(), "bc".to_string(), "".to_string()]), "a bc ");
}

#[test]
fn random_words_are_five() {
    let s = generate_random_words();
    let words: Vec<&str> = s.split(' ').collect();
    assert_eq!(words.len(), 5);
    assert!(words.iter().all(|w| !w.is_empty()));
}

#[test]
fn white_space_agrees_with_std_on_every_char() {
    for u in 0u32..=0x10FFFF {
        if let Some(c) = char::from_u32(u) {
            assert_eq!(is_white_space(c), c.is_whitespace(), "char {:#x}", u);
        }
    }
}

#[test]
fn blank_queries_trim_to_nothing() {
    for q in ["", " ", "\t\n ", "\u{3000}\u{a0}", "a", " a ", "\u{200b}"] {
        assert_eq!(query_is_blank(q), q.trim().is_empty(), "query {:?}", q);
    }
    assert!(query_is_blank("   "));
    assert!(!query_is_blank(" x"));
}

#[test]
fn random_words_hold_no_newline() {
    let s = generate_random_words();
    assert!(!s.contains('\n'));
    assert!(s.len() >= 9);
}
