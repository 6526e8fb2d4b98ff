use murmure::dictionary::{validate_dictionary_format, Dictionary, DictEntry, DictionaryError,
    export_word_list, merge_imported_words, import_word_list};

#[test]
fn test_validate_dictionary_format_valid_multiple_words() {
    let result = validate_dictionary_format("hello\nWORLD\ntest".to_string());
    assert!(result.is_ok());
    assert_eq!(result.unwrap(), vec!["hello", "world", "test"]);
}

#[test]
fn test_validate_dictionary_format_trims_whitespace() {
    let result = validate_dictionary_format("  hello  \n  world  \n  test  ".to_string());
    assert!(result.is_ok());
    assert_eq!(result.unwrap(), vec!["hello", "world", "test"]);
}

#[test]
fn test_validate_dictionary_format_skips_empty_entries() {
    let result = validate_dictionary_format("hello\n\nworld\n\ntest".to_string());
    assert!(result.is_ok());
    assert_eq!(result.unwrap(), vec!["hello", "world", "test"]);
}

#[test]
fn test_validate_dictionary_format_invalid_with_numbers() {
    let result = validate_dictionary_format("hello\nworld123\ntest".to_string());
    assert!(result.is_err());
    match result.unwrap_err() {
        DictionaryError::InvalidWordFormat(word) => {
            assert_eq!(word, "world123");
        }
        _ => panic!("Expected InvalidWordFormat error"),
    }
}

#[test]
fn test_validate_dictionary_format_invalid_with_special_characters() {
    let result = validate_dictionary_format("hello\nworld-test\ntest".to_string());
    assert!(result.is_err());
    match result.unwrap_err() {
        DictionaryError::InvalidWordFormat(word) => {
            assert_eq!(word, "world-test");
        }
        _ => panic!("Expected InvalidWordFormat error"),
    }
}

#[test]
fn test_validate_dictionary_format_invalid_with_spaces_in_word() {
    let result = validate_dictionary_format("hello \nworld test\ntest".to_string());
    assert!(result.is_err());
    match result.unwrap_err() {
        DictionaryError::InvalidWordFormat(word) => {
            assert_eq!(word, "world test");
        }
        _ => panic!("Expected InvalidWordFormat error"),
    }
}

#[test]
fn test_validate_dictionary_format_empty_string() {
    let result = validate_dictionary_format("".to_string());
    assert!(result.is_err());
    match result.unwrap_err() {
        DictionaryError::EmptyDictionary => {}
        _ => panic!("Expected EmptyDictionary error"),
    }
}

#[test]
fn test_validate_dictionary_format_only_newlines() {
    let result = validate_dictionary_format("\n\n\n".to_string());
    assert!(result.is_err());
    match result.unwrap_err() {
        DictionaryError::EmptyDictionary => {}
        _ => panic!("Expected EmptyDictionary error"),
    }
}

fn entry(word: &str, languages: &[&str]) -> DictEntry {
    DictEntry {
        word: word.to_string(),
        languages: languages.iter().map(|l| l.to_string()).collect(),
    }
}

#[test]
fn dictionary_new_keeps_first_of_duplicate_words() {
    let d = Dictionary::new(vec![
        entry("smith", &["english"]),
        entry("dupont", &["french"]),
        entry("smith", &["french"]),
    ]);
    let entries = d.get();
    assert_eq!(entries.len(), 2);
    assert_eq!(entries[0].word, "smith");
    assert_eq!(entries[0].languages, vec!["english"]);
    assert_eq!(entries[1].word, "dupont");
}

#[test]
fn dictionary_find_word_and_set() {
    let mut d = Dictionary::new(vec![entry("smith", &["english"])]);
    assert_eq!(d.find_word(&"smith".to_string()), Some(0));
    assert_eq!(d.find_word(&"dupont".to_string()), None);
    d.set(vec![entry("dupont", &["french"])]);
    assert_eq!(d.find_word(&"smith".to_string()), None);
    assert_eq!(d.find_word(&"dupont".to_string()), Some(0));
}

#[test]
fn dictionary_insert_default_adds_both_default_languages() {
    let mut d = Dictionary::new(Vec::new());
    d.insert_default("smith".to_string());
    let entries = d.get();
    assert_eq!(entries.len(), 1);
    assert_eq!(entries[0].word, "smith");
    assert_eq!(entries[0].languages, vec!["english", "french"]);
}

#[test]
fn dictionary_insert_default_keeps_existing_entry() {
    let mut d = Dictionary::new(vec![entry("smith", &["english"])]);
    d.insert_default("smith".to_string());
    let entries = d.get();
    assert_eq!(entries.len(), 1);
    assert_eq!(entries[0].languages, vec!["english"]);
}

#[test]
fn dictionary_merge_imported_words_appends_new_only() {
    let mut d = Dictionary::new(vec![entry("smith", &["english"])]);
    merge_imported_words(&mut d, &vec!["smith".to_string(), "dupont".to_string()]);
    let entries = d.get();
    assert_eq!(entries.len(), 2);
    assert_eq!(entries[0].word, "smith");
    assert_eq!(entries[0].languages, vec!["english"]);
    assert_eq!(entries[1].word, "dupont");
    assert_eq!(entries[1].languages, vec!["english", "french"]);
}

#[test]
fn dictionary_export_joins_words_with_newlines() {
    let d = Dictionary::new(vec![entry("smith", &["english"]), entry("dupont", &["french"])]);
    assert_eq!(export_word_list(&d), "smith\ndupont");
    let empty = Dictionary::new(Vec::new());
    assert_eq!(export_word_list(&empty), "");
}

#[test]
fn dictionary_words_lists_keys_in_order() {
    let d = Dictionary::new(vec![entry("alpha", &["english"]), entry("beta", &["french"])]);
    assert_eq!(d.words(), vec!["alpha", "beta"]);
}

#[test]
fn import_word_list_merges_valid_imports() {
    let mut d = Dictionary::new(vec![entry("smith", &["english"])]);
    assert!(import_word_list(&mut d, "  Dupont \n\nsmith\n".to_string()).is_ok());
    assert_eq!(d.words(), vec!["smith", "dupont"]);
}

#[test]
fn import_word_list_rejects_and_keeps_dictionary() {
    let mut d = Dictionary::new(vec![entry("smith", &["english"])]);
    let r = import_word_list(&mut d, "good\nbad1\n".to_string());
    match r {
        Err(DictionaryError::InvalidWordFormat(w)) => assert_eq!(w, "bad1"),
        _ => panic!("Expected InvalidWordFormat error"),
    }
    assert_eq!(d.words(), vec!["smith"]);
}
