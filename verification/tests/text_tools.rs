use explorer_kit::models::{resolve_repo, sentence_pairs, verbose_token_line, weights_file};
use explorer_kit::retrieval::{extract_docs_text, rag_prompt, word_excerpt_of};
use explorer_kit::text::{chars_less, chars_of, push_bool, push_decimal, push_signed_decimal};

#[test]
fn decimal_rendering() {
    let mut s = String::from("n=");
    push_decimal(&mut s, 0);
    push_decimal(&mut s, 1234567890);
    assert_eq!(s, "n=01234567890");
    let mut s = String::new();
    push_signed_decimal(&mut s, -42);
    push_signed_decimal(&mut s, i64::MIN);
    assert_eq!(s, format!("-42{}", i64::MIN));
    let mut s = String::new();
    push_decimal(&mut s, u64::MAX);
    assert_eq!(s, u64::MAX.to_string());
    let mut s = String::new();
    push_bool(&mut s, true);
    push_bool(&mut s, false);
    assert_eq!(s, "truefalse");
}

#[test]
fn lexicographic_order() {
    assert!(chars_less(&chars_of("Ann"), &chars_of("Anna")));
    assert!(!chars_less(&chars_of("Anna"), &chars_of("Ann")));
    assert!(!chars_less(&chars_of("same"), &chars_of("same")));
    assert!(chars_less(&chars_of("Zebra"), &chars_of("apple")));
    assert!(chars_less(&chars_of(""), &chars_of("a")));
    assert_eq!(chars_of("héllo"), vec!['h', 'é', 'l', 'l', 'o']);
}

#[test]
fn excerpt_cuts_after_words() {
    assert_eq!(word_excerpt_of("a b c d", 2), "a b ");
    assert_eq!(word_excerpt_of("a b", 300), "a b ");
    assert_eq!(word_excerpt_of("", 3), " ");
    assert_eq!(word_excerpt_of("word", 0), "");
    assert_eq!(word_excerpt_of("a  b", 2), "a  ");
    assert_eq!(word_excerpt_of("one", 1), "one ");
}

#[test]
fn excerpt_of_long_text_keeps_300_words() {
    let words: Vec<String> = (0..400).map(|i| format!("w{}", i)).collect();
    let body = words.join(" ");
    let expected: String = words[..300].iter().map(|w| format!("{} ", w)).collect();
    assert_eq!(word_excerpt_of(&body, 300), expected);
    assert_eq!(extract_docs_text(&vec![body.clone(), "short one".to_string()]), format!("{}\nshort one \n", expected));
    assert_eq!(extract_docs_text(&vec![]), "");
}

#[test]
fn rag_prompt_joins_context_and_question() {
    let docs = vec![
        ("T1".to_string(), "B1".to_string()),
        ("T2".to_string(), "B2".to_string()),
    ];
    assert_eq!(rag_prompt(&docs, "Why?"), "Title: T1\nBody: B1\n\nTitle: T2\nBody: B2\n\nWhy?");
    assert_eq!(rag_prompt(&vec![], "Q"), "\nQ");
    assert_eq!(rag_prompt(&vec![("A".to_string(), "B".to_string())], "Q"), "Title: A\nBody: B\n\nQ");
}

#[test]
fn repository_choice() {
    assert_eq!(
        resolve_repo(None, None),
        ("sentence-transformers/all-MiniLM-L6-v2".to_string(), "refs/pr/21".to_string())
    );
    assert_eq!(resolve_repo(Some("m".to_string()), None), ("m".to_string(), "main".to_string()));
    assert_eq!(
        resolve_repo(None, Some("r".to_string())),
        ("sentence-transformers/all-MiniLM-L6-v2".to_string(), "r".to_string())
    );
    assert_eq!(resolve_repo(Some("m".to_string()), Some("r".to_string())), ("m".to_string(), "r".to_string()));
    assert_eq!(weights_file(true), "pytorch_model.bin");
    assert_eq!(weights_file(false), "model.safetensors");
}

#[test]
fn pairs_of_sentences() {
    assert_eq!(sentence_pairs(4), vec![(0, 1), (0, 2), (0, 3), (1, 2), (1, 3), (2, 3)]);
    assert_eq!(sentence_pairs(8).len(), 28);
    assert!(sentence_pairs(1).is_empty());
    assert!(sentence_pairs(0).is_empty());
}

#[test]
fn token_lines() {
    assert_eq!(verbose_token_line(42, "\u{2581}Hello"), "     42 -> ' Hello'");
    assert_eq!(verbose_token_line(13, "<0x0A>"), "     13 -> '\n'");
    assert_eq!(verbose_token_line(12345678, "x"), "12345678 -> 'x'");
    assert_eq!(verbose_token_line(7, "a<0x0A>b<0x0A>\u{2581}\u{2581}"), "      7 -> 'a\nb\n  '");
    assert_eq!(verbose_token_line(0, "<0x0A<0x0A>>"), "      0 -> '<0x0A\n>'");
}
