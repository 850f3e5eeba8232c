use emas::text::{
    char_in_class, chars_of, contains_chars, decimal_chars, enclosed_chars, head_chars,
    keep_alphanumerics, lowercase, matches_at, same_chars, scan_backward, scan_forward,
    split_sentences, split_words, starts_with_chars, string_of, strip_punctuation, tail_chars,
    trim, utf8_len, CharClass,
};

fn v(s: &str) -> Vec<char> {
    s.chars().collect()
}

fn s(v: &[char]) -> String {
    v.iter().collect()
}

fn strings(parts: &[Vec<char>]) -> Vec<String> {
    parts.iter().map(|p| s(p)).collect()
}

#[test]
fn chars_and_strings_convert_both_ways() {
    assert_eq!(chars_of("héllo"), vec!['h', 'é', 'l', 'l', 'o']);
    assert_eq!(string_of(&vec!['a', 'ß', '!']), "aß!");
    assert_eq!(string_of(&chars_of("")), "");
}

#[test]
fn lowercase_follows_unicode() {
    assert_eq!(s(&lowercase(&v("ABC Déjà VU"))), "abc déjà vu");
    assert_eq!(s(&lowercase(&v("ΣΑΣ"))), "σας");
}

#[test]
fn classes_of_characters() {
    assert!(char_in_class(' ', CharClass::Whitespace));
    assert!(char_in_class('\u{a0}', CharClass::Whitespace));
    assert!(!char_in_class('a', CharClass::Whitespace));
    assert!(char_in_class('a', CharClass::NonWhitespace));
    assert!(char_in_class('a', CharClass::NonTerminator));
    assert!(!char_in_class('.', CharClass::NonTerminator));
    assert!(!char_in_class('!', CharClass::NonTerminator));
    assert!(char_in_class('?', CharClass::NonTerminator));
    assert!(char_in_class('-', CharClass::NonAlphanumeric));
    assert!(!char_in_class('é', CharClass::NonAlphanumeric));
    assert!(!char_in_class('7', CharClass::NonAlphanumeric));
    assert!(char_in_class('7', CharClass::Digit));
    assert!(!char_in_class('٣', CharClass::Digit));
    assert!(char_in_class('x', CharClass::Only('x')));
    assert!(!char_in_class('y', CharClass::Only('x')));
    assert!(char_in_class('y', CharClass::Except('x')));
}

#[test]
fn trimming() {
    assert_eq!(s(&trim(&v("  hello world \n\t"))), "hello world");
    assert_eq!(s(&trim(&v("   "))), "");
    assert_eq!(s(&trim(&v(""))), "");
    assert_eq!(s(&trim(&v("x"))), "x");
    assert_eq!(s(&strip_punctuation(&v("\"(word)!\""))), "word");
    assert_eq!(s(&strip_punctuation(&v("don't"))), "don't");
    assert_eq!(s(&strip_punctuation(&v("..."))), "");
}

#[test]
fn scanning_runs() {
    let text = v("aaa  bbb");
    assert_eq!(scan_forward(&text, 0, CharClass::NonWhitespace), 3);
    assert_eq!(scan_forward(&text, 3, CharClass::Whitespace), 5);
    assert_eq!(scan_forward(&text, 5, CharClass::NonWhitespace), 8);
    assert_eq!(scan_forward(&text, 8, CharClass::NonWhitespace), 8);
    assert_eq!(scan_backward(&text, 0, 8, CharClass::NonWhitespace), 5);
    assert_eq!(scan_backward(&text, 6, 8, CharClass::NonWhitespace), 6);
    assert_eq!(scan_backward(&text, 0, 5, CharClass::Whitespace), 3);
}

#[test]
fn sentences_are_split_at_stops() {
    assert_eq!(strings(&split_sentences(&v("One. Two! Three"))), vec!["One", " Two", " Three"]);
    assert_eq!(strings(&split_sentences(&v("End."))), vec!["End", ""]);
    assert_eq!(strings(&split_sentences(&v(""))), vec![""]);
    assert_eq!(strings(&split_sentences(&v("a..b"))), vec!["a", "", "b"]);
    assert_eq!(strings(&split_sentences(&v("what? no"))), vec!["what? no"]);
}

#[test]
fn words_are_split_at_whitespace() {
    assert_eq!(strings(&split_words(&v("  the quick\tbrown\n\nfox "))), vec!["the", "quick", "brown", "fox"]);
    assert_eq!(split_words(&v("")).len(), 0);
    assert_eq!(split_words(&v(" \n ")).len(), 0);
    assert_eq!(strings(&split_words(&v("one"))), vec!["one"]);
}

#[test]
fn heads_and_tails() {
    assert_eq!(s(&tail_chars(&v("abcdef"), 3)), "def");
    assert_eq!(s(&tail_chars(&v("abc"), 3)), "abc");
    assert_eq!(s(&tail_chars(&v("ab"), 3)), "ab");
    assert_eq!(s(&tail_chars(&v("abc"), 0)), "");
    assert_eq!(s(&head_chars(&v("abcdef"), 2)), "ab");
    assert_eq!(s(&head_chars(&v("ab"), 5)), "ab");
}

#[test]
fn searching() {
    assert!(contains_chars(&v("the agents failed to see"), &v("failed to")));
    assert!(!contains_chars(&v("the agents fail"), &v("failed to")));
    assert!(contains_chars(&v("abc"), &v("")));
    assert!(contains_chars(&v(""), &v("")));
    assert!(!contains_chars(&v(""), &v("a")));
    assert!(contains_chars(&v("abc"), &v("abc")));
    assert!(contains_chars(&v("aab"), &v("ab")));
    assert!(starts_with_chars(&v("good work"), &v("good")));
    assert!(!starts_with_chars(&v("a good work"), &v("good")));
    assert!(!starts_with_chars(&v("go"), &v("good")));
    assert!(matches_at(&v("hello"), &v("llo"), 2));
    assert!(!matches_at(&v("hello"), &v("llo"), 3));
    assert!(!matches_at(&v("hello"), &v("llo"), usize::MAX));
    assert!(same_chars(&v("abc"), &v("abc")));
    assert!(!same_chars(&v("abc"), &v("abd")));
    assert!(!same_chars(&v("abc"), &v("ab")));
}

#[test]
fn lengths_and_filters() {
    assert_eq!(utf8_len(&v("abc")), 3);
    assert_eq!(utf8_len(&v("é€")), 5);
    assert_eq!(s(&keep_alphanumerics(&v("it's 4-2!"))), "its42");
    assert_eq!(s(&keep_alphanumerics(&v("--"))), "");
}

#[test]
fn numerals() {
    assert_eq!(s(&decimal_chars(0)), "0");
    assert_eq!(s(&decimal_chars(7)), "7");
    assert_eq!(s(&decimal_chars(10)), "10");
    assert_eq!(s(&decimal_chars(1234567890)), "1234567890");
    assert_eq!(s(&decimal_chars(u64::MAX)), "18446744073709551615");
}

#[test]
fn enclosed_parts() {
    assert_eq!(enclosed_chars(&v("x [1, [2]] y"), '[', ']').map(|p| s(&p)), Some("[1, [2]]".to_string()));
    assert_eq!(enclosed_chars(&v("] ["), '[', ']'), None);
    assert_eq!(enclosed_chars(&v("[ only"), '[', ']'), None);
    assert_eq!(enclosed_chars(&v("only ]"), '[', ']'), None);
    assert_eq!(enclosed_chars(&v(""), '[', ']'), None);
    assert_eq!(enclosed_chars(&v("{}"), '{', '}').map(|p| s(&p)), Some("{}".to_string()));
}
