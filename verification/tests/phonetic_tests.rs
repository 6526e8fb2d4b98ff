use murmure::phonetic::{apply_corrections, fix_transcription_with_config,
    fix_transcription_with_dictionary, fix_transcription_embedded, embedded_phonetic_rules};
use murmure::dictionary::{Dictionary, DictEntry};

fn entry(word: &str, languages: &[&str]) -> DictEntry {
    DictEntry {
        word: word.to_string(),
        languages: languages.iter().map(|l| l.to_string()).collect(),
    }
}

fn pairs(items: &[(&str, &str)]) -> Vec<(String, String)> {
    items.iter().map(|(w, c)| (w.to_string(), c.to_string())).collect()
}

#[test]
fn corrections_replace_phonetically_matching_token() {
    // "smyth" and "smith" share the code "smit"; every occurrence of the
    // token text is replaced by the dictionary word
    let tokens = pairs(&[("my", "mi"), ("name", "nam"), ("is", "is"), ("smyth", "smit|zmit")]);
    let dict = pairs(&[("smith", "smit|xmit")]);
    let out = apply_corrections("my name is smyth".to_string(), &tokens, &dict);
    assert_eq!(out, "my name is smith");
}

#[test]
fn corrections_replace_every_occurrence_of_the_token() {
    let tokens = pairs(&[("smyth", "smit")]);
    let dict = pairs(&[("smith", "smit")]);
    let out = apply_corrections("smyth met smyth".to_string(), &tokens, &dict);
    assert_eq!(out, "smith met smith");
}

#[test]
fn corrections_earlier_match_consumes_the_token_text() {
    // once "smyth" is rewritten to "smith", the later entry with the same
    // code finds no "smyth" left in the text to replace
    let tokens = pairs(&[("smyth", "smit")]);
    let dict = pairs(&[("smith", "smit"), ("smythe", "smit")]);
    let out = apply_corrections("smyth".to_string(), &tokens, &dict);
    assert_eq!(out, "smith");
}

#[test]
fn corrections_without_overlap_change_nothing() {
    let tokens = pairs(&[("my", "mi"), ("name", "nam")]);
    let dict = pairs(&[("smith", "smit")]);
    let out = apply_corrections("my name".to_string(), &tokens, &dict);
    assert_eq!(out, "my name");
}

#[test]
fn corrections_are_idempotent_once_no_matches_remain() {
    let tokens = pairs(&[("smyth", "smit")]);
    let dict = pairs(&[("smith", "smit")]);
    let once = apply_corrections("he is smyth".to_string(), &tokens, &dict);
    assert_eq!(once, "he is smith");
    // re-running on the corrected text: its tokens no longer match
    let tokens_after = pairs(&[("he", "h"), ("is", "is"), ("smith", "xmit")]);
    let twice = apply_corrections(once.clone(), &tokens_after, &dict);
    assert_eq!(twice, once);
}

#[test]
fn corrections_with_identical_codes_fix_to_canonical_word() {
    // a word that already matches is replaced by itself: fixed point
    let tokens = pairs(&[("smith", "smit")]);
    let dict = pairs(&[("smith", "smit")]);
    let out = apply_corrections("smith".to_string(), &tokens, &dict);
    assert_eq!(out, "smith");
}

#[test]
fn fix_transcription_is_deterministic() {
    let d = Dictionary::new(vec![entry("smith", &["english"])]);
    let a = fix_transcription_embedded("my name is smyth".to_string(), &d);
    let b = fix_transcription_embedded("my name is smyth".to_string(), &d);
    assert_eq!(a, b);
}

#[test]
fn fix_transcription_replaces_sound_alike_word() {
    let d = Dictionary::new(vec![entry("smith", &["english"])]);
    let out = fix_transcription_embedded("my name is smyth".to_string(), &d);
    assert_eq!(out, "my name is smith");
}

#[test]
fn fix_transcription_honours_multi_tag_words() {
    // a word carrying two language tags is encoded under its own tag set
    let d = Dictionary::new(vec![entry("smith", &["english", "german"])]);
    let out = fix_transcription_embedded("my name is smyth".to_string(), &d);
    assert_eq!(out, "my name is smith");
}

#[test]
fn fix_transcription_with_empty_dictionary_is_identity() {
    let d = Dictionary::new(Vec::new());
    let out = fix_transcription_embedded("my name is smyth".to_string(), &d);
    assert_eq!(out, "my name is smyth");
}

#[test]
fn fix_transcription_is_idempotent_on_corrected_text() {
    let d = Dictionary::new(vec![entry("smith", &["english"])]);
    let once = fix_transcription_embedded("my name is smyth".to_string(), &d);
    let twice = fix_transcription_embedded(once.clone(), &d);
    assert_eq!(twice, once);
}

#[test]
fn fix_transcription_with_loaded_rules_reports_the_branch() {
    let d = Dictionary::new(vec![entry("smith", &["english"])]);
    let cfg = embedded_phonetic_rules();
    let (out, applied) =
        fix_transcription_with_dictionary("my name is smyth".to_string(), &d, Some(&cfg));
    assert!(applied);
    assert_eq!(out, "my name is smith");
    let same = fix_transcription_with_config("my name is smyth".to_string(), &d, &cfg);
    assert_eq!(same, out);
}

#[test]
fn fix_transcription_missing_ruleset_passes_text_through() {
    // an unresolvable or invalid ruleset makes the stage a no-op
    let d = Dictionary::new(vec![entry("smith", &["english"])]);
    let (out, applied) =
        fix_transcription_with_dictionary("my name is smyth".to_string(), &d, None);
    assert!(!applied);
    assert_eq!(out, "my name is smyth");
}
