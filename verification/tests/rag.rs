use tenon::rag::{embedding_order, embeds, MAX_TEXT_BYTES};

#[test]
fn shortest_texts_are_embedded_first_in_stable_order() {
    let texts = vec![
        "ccc".to_string(),
        "a".to_string(),
        String::new(),
        "bb".to_string(),
        "x".to_string(),
        "y".repeat(MAX_TEXT_BYTES + 1),
    ];
    assert_eq!(embedding_order(&texts), vec![1, 4, 3, 0]);
}

#[test]
fn length_is_counted_in_bytes() {
    let texts = vec!["é".to_string(), "ab".to_string(), "a".to_string()];
    assert_eq!(embedding_order(&texts), vec![2, 0, 1]);
    assert!(embeds(&"y".repeat(MAX_TEXT_BYTES)));
    assert!(!embeds(&"y".repeat(MAX_TEXT_BYTES + 1)));
    assert!(!embeds(""));
}
