//! The post-capture processing pipeline. Transcription happens outside (it
//! is an opaque collaborator); from the raw transcript on, the stages run in
//! a fixed order and each stage's failure degrades to a pass-through of the
//! previous stage's text. A blank raw transcript short-circuits everything.

use vstd::prelude::*;
use crate::text::{blank, str_is_blank, split_ws};

verus! {

/// The stages that follow transcription, in their fixed order.
#[derive(PartialEq, Eq, Structural, Clone, Copy, Debug)]
pub enum Stage {
    DictionaryCorrect,
    LlmRefine,
    FormatRules,
    Persist,
    Done,
}

/// The fixed stage order; no stage may run out of order or be skipped.
pub open spec fn next_stage(s: Stage) -> Stage {
    match s {
        Stage::DictionaryCorrect => Stage::LlmRefine,
        Stage::LlmRefine => Stage::FormatRules,
        Stage::FormatRules => Stage::Persist,
        Stage::Persist => Stage::Done,
        Stage::Done => Stage::Done,
    }
}

/// How one stage outcome transforms the pipeline's text: a successful text
/// stage replaces it, a failed (or bypassed) stage passes it through, and
/// persistence never alters it.
pub open spec fn step_text(stage: Stage, text: Seq<char>, outcome: Option<Seq<char>>) -> Seq<
    char,
> {
    match outcome {
        Option::Some(t) => if stage == Stage::Persist {
            text
        } else {
            t
        },
        Option::None => text,
    }
}

/// A failed LLM stage is a no-op pass-through: the pipeline's output is the
/// dictionary-corrected text it received.
pub proof fn lemma_llm_failure_is_passthrough(text: Seq<char>)
    ensures
        step_text(Stage::LlmRefine, text, Option::None) == text,
{
}

/// When the LLM stage fails and the remaining stages pass text through, the
/// final text equals the dictionary-corrected text.
pub proof fn lemma_pipeline_degrades_to_dictionary_text(
    text: Seq<char>,
    persist_outcome: Option<Seq<char>>,
)
    ensures
        step_text(
            Stage::Persist,
            step_text(Stage::FormatRules, step_text(Stage::LlmRefine, text, Option::None), Option::None),
            persist_outcome,
        ) == text,
{
}

/// One pipeline run for one recording session.
pub struct PipelineRun {
    /// The next stage to attempt.
    pub stage: Stage,
    /// The best text produced so far.
    pub text: String,
    /// Caller-requested fast path: skip the LLM stage entirely.
    pub bypass_llm: bool,
}

impl PipelineRun {
    /// Begin processing a raw transcript. A blank transcript short-circuits
    /// the whole pipeline and yields the empty string.
    pub fn begin(raw_text: String, bypass_llm: bool) -> (run: PipelineRun)
        ensures
            run.bypass_llm == bypass_llm,
            blank(raw_text@) ==> run.stage == Stage::Done && run.text@ == Seq::<char>::empty(),
            !blank(raw_text@) ==> run.stage == Stage::DictionaryCorrect && run.text == raw_text,
    {
        if str_is_blank(raw_text.as_str()) {
            PipelineRun { stage: Stage::Done, text: String::new(), bypass_llm }
        } else {
            PipelineRun { stage: Stage::DictionaryCorrect, text: raw_text, bypass_llm }
        }
    }

    /// Whether every stage has been attempted.
    pub fn finished(&self) -> (b: bool)
        ensures
            b == (self.stage == Stage::Done),
    {
        matches!(self.stage, Stage::Done)
    }

    /// Whether the language-model collaborator should be called at all:
    /// only at the LLM stage, and not on the bypass fast path.
    pub fn llm_wanted(&self) -> (b: bool)
        ensures
            b == (self.stage == Stage::LlmRefine && !self.bypass_llm),
    {
        matches!(self.stage, Stage::LlmRefine) && !self.bypass_llm
    }

    /// Record one stage's outcome and advance to the next stage in the
    /// fixed order. `None` means the stage failed, was bypassed, or had no
    /// text to contribute: the current text passes through unchanged.
    pub fn apply_stage(&mut self, outcome: Option<String>)
        requires
            old(self).stage != Stage::Done,
        ensures
            final(self).stage == next_stage(old(self).stage),
            final(self).bypass_llm == old(self).bypass_llm,
            final(self).text@ == step_text(old(self).stage, old(self).text@, match outcome {
                Option::Some(t) => Option::Some(t@),
                Option::None => Option::None,
            }),
    {
        match outcome {
            Option::Some(t) => {
                if !matches!(self.stage, Stage::Persist) {
                    self.text = t;
                }
            },
            Option::None => {},
        }
        let next = match self.stage {
            Stage::DictionaryCorrect => Stage::LlmRefine,
            Stage::LlmRefine => Stage::FormatRules,
            Stage::FormatRules => Stage::Persist,
            Stage::Persist => Stage::Done,
            Stage::Done => Stage::Done,
        };
        self.stage = next;
    }

    /// The final text; meaningful once every stage has been attempted.
    pub fn final_text(self) -> (t: String)
        ensures
            t == self.text,
    {
        self.text
    }
}

/// Duration of a recording in milliseconds, as persisted with each
/// session's statistics; a missing sample rate yields 0.
pub fn recording_duration_ms(total_samples: u64, sample_rate: u32) -> (ms: u64)
    requires
        total_samples <= u32::MAX,
    ensures
        sample_rate == 0 ==> ms == 0,
        sample_rate > 0 ==> ms == total_samples * 1000 / (sample_rate as int),
{
    if sample_rate == 0 {
        0
    } else {
        (total_samples * 1000) / (sample_rate as u64)
    }
}

/// Number of whitespace-separated words in a text, as persisted with each
/// session's statistics.
pub fn word_count(text: &str) -> (n: u64)
    ensures
        n == split_ws(text@).len(),
{
    let chars = crate::text::chars_of(text);
    let tokens = crate::text::split_whitespace_chars(&chars);
    proof {
        assert(tokens.deep_view().len() == tokens@.len());
    }
    tokens.len() as u64
}

} // verus!
