use murmure::pipeline::{PipelineRun, Stage, word_count, recording_duration_ms};
use murmure::llm::{plan_llm_request, LlmPlan, strip_trailing_slashes, build_prompt,
    refine_response, dictionary_words_list};

#[test]
fn pipeline_empty_transcript_short_circuits() {
    let run = PipelineRun::begin("   \t\n".to_string(), false);
    assert!(run.finished());
    assert!(!run.llm_wanted());
    assert_eq!(run.final_text(), "");
}

#[test]
fn pipeline_blank_includes_truly_empty() {
    let run = PipelineRun::begin("".to_string(), true);
    assert!(run.finished());
    assert_eq!(run.final_text(), "");
}

#[test]
fn pipeline_stages_run_in_fixed_order() {
    let mut run = PipelineRun::begin("raw text".to_string(), false);
    assert_eq!(run.stage, Stage::DictionaryCorrect);
    run.apply_stage(Some("dict text".to_string()));
    assert_eq!(run.stage, Stage::LlmRefine);
    assert!(run.llm_wanted());
    run.apply_stage(Some("llm text".to_string()));
    assert_eq!(run.stage, Stage::FormatRules);
    run.apply_stage(Some("formatted text".to_string()));
    assert_eq!(run.stage, Stage::Persist);
    run.apply_stage(None);
    assert!(run.finished());
    assert_eq!(run.final_text(), "formatted text");
}

#[test]
fn pipeline_llm_failure_falls_back_to_dictionary_text() {
    let mut run = PipelineRun::begin("raw text".to_string(), false);
    run.apply_stage(Some("dictionary corrected".to_string()));
    // the LLM stage fails: its outcome is a pass-through
    run.apply_stage(None);
    // formatting fails too, and persistence never alters the text
    run.apply_stage(None);
    run.apply_stage(None);
    assert!(run.finished());
    assert_eq!(run.final_text(), "dictionary corrected");
}

#[test]
fn pipeline_bypass_skips_llm() {
    let mut run = PipelineRun::begin("raw".to_string(), true);
    run.apply_stage(Some("corrected".to_string()));
    assert_eq!(run.stage, Stage::LlmRefine);
    assert!(!run.llm_wanted());
}

#[test]
fn pipeline_persist_outcome_never_changes_text() {
    let mut run = PipelineRun::begin("raw".to_string(), true);
    run.apply_stage(None);
    run.apply_stage(None);
    run.apply_stage(None);
    assert_eq!(run.stage, Stage::Persist);
    run.apply_stage(Some("should be ignored".to_string()));
    assert_eq!(run.final_text(), "raw");
}

#[test]
fn word_count_counts_whitespace_separated_words() {
    assert_eq!(word_count(""), 0);
    assert_eq!(word_count("   "), 0);
    assert_eq!(word_count("one"), 1);
    assert_eq!(word_count("my name is smyth"), 4);
    assert_eq!(word_count("  spaced   out\twords\n"), 3);
}

#[test]
fn llm_plan_bypass_short_circuits() {
    let plan = plan_llm_request(true, "m", "http://localhost:11434/api", "t", "x", &Vec::new());
    assert!(matches!(plan, LlmPlan::Bypass));
}

#[test]
fn llm_plan_without_model_reports_failure() {
    let plan = plan_llm_request(false, "", "http://localhost:11434/api", "t", "x", &Vec::new());
    assert!(matches!(plan, LlmPlan::NoModel));
}

#[test]
fn llm_plan_builds_url_and_prompt() {
    let words = vec!["smith".to_string(), "dupont".to_string()];
    let plan = plan_llm_request(
        false,
        "llama",
        "http://localhost:11434/api///",
        "Fix {{TRANSCRIPT}} using {{DICTIONARY}}.",
        "my name is smyth",
        &words,
    );
    match plan {
        LlmPlan::Request { url, prompt } => {
            assert_eq!(url, "http://localhost:11434/api/generate");
            assert_eq!(prompt, "Fix my name is smyth using smith, dupont.");
        }
        _ => panic!("expected a request plan"),
    }
}

#[test]
fn strip_trailing_slashes_only_removes_trailing() {
    assert_eq!(strip_trailing_slashes("http://a/b/"), "http://a/b");
    assert_eq!(strip_trailing_slashes("http://a/b"), "http://a/b");
    assert_eq!(strip_trailing_slashes("///"), "");
    assert_eq!(strip_trailing_slashes(""), "");
}

#[test]
fn build_prompt_replaces_every_placeholder() {
    let p = build_prompt("{{TRANSCRIPT}} and {{TRANSCRIPT}} with {{DICTIONARY}}", "A", "B");
    assert_eq!(p, "A and A with B");
}

#[test]
fn refine_response_trims_whitespace() {
    assert_eq!(refine_response("  fixed text \n"), "fixed text");
    assert_eq!(refine_response("unchanged"), "unchanged");
}

#[test]
fn dictionary_words_list_joins_with_commas() {
    assert_eq!(dictionary_words_list(&vec!["a".to_string(), "b".to_string()]), "a, b");
    assert_eq!(dictionary_words_list(&Vec::new()), "");
}

#[test]
fn recording_duration_in_milliseconds() {
    assert_eq!(recording_duration_ms(16000, 16000), 1000);
    assert_eq!(recording_duration_ms(8000, 16000), 500);
    assert_eq!(recording_duration_ms(0, 48000), 0);
    assert_eq!(recording_duration_ms(44100, 0), 0);
}
