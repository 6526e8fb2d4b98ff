//! Decisions of the language-model refinement stage: whether to call the
//! collaborator at all, and with which endpoint and prompt. The HTTP call
//! itself happens outside; it hands back the response body, and the
//! verified code turns it into the refined text.

use vstd::prelude::*;
use crate::text::{trimmed, trim_chars, replace_all, replace_all_chars, joined, join_strings,
    chars_of, string_of, eq_chars};

verus! {

/// `s` without its trailing slashes.
pub open spec fn trim_end_slashes(s: Seq<char>) -> Seq<char>
    decreases s.len(),
{
    if s.len() > 0 && s.last() == '/' {
        trim_end_slashes(s.drop_last())
    } else {
        s
    }
}

/// The prompt template with its transcript and dictionary placeholders
/// filled in.
pub open spec fn prompt_of(template: Seq<char>, transcript: Seq<char>, words: Seq<char>) -> Seq<
    char,
> {
    replace_all(replace_all(template, "{{TRANSCRIPT}}"@, transcript), "{{DICTIONARY}}"@, words)
}

/// Drop the trailing slashes of an endpoint base URL.
pub fn strip_trailing_slashes(url: &str) -> (r: String)
    ensures
        r@ == trim_end_slashes(url@),
{
    let v = chars_of(url);
    let mut end: usize = v.len();
    proof {
        assert(v@.subrange(0, v@.len() as int) =~= v@);
    }
    while end > 0 && v[end - 1] == '/'
        invariant
            end <= v@.len(),
            trim_end_slashes(v@) == trim_end_slashes(v@.subrange(0, end as int)),
        decreases end,
    {
        proof {
            let cur = v@.subrange(0, end as int);
            assert(cur.last() == v@[end - 1]);
            assert(cur.drop_last() =~= v@.subrange(0, end - 1));
        }
        end = end - 1;
    }
    let mut out: Vec<char> = Vec::new();
    let mut i: usize = 0;
    while i < end
        invariant
            i <= end <= v@.len(),
            out@ == v@.subrange(0, i as int),
        decreases end - i,
    {
        out.push(v[i]);
        i = i + 1;
        assert(out@ =~= v@.subrange(0, i as int));
    }
    proof {
        let cur = v@.subrange(0, end as int);
        if end > 0 {
            assert(cur.last() == v@[end - 1]);
        }
        assert(trim_end_slashes(cur) == cur);
        assert(out@ =~= cur);
    }
    string_of(&out)
}

/// Fill the prompt template: every `{{TRANSCRIPT}}` placeholder becomes the
/// transcript, then every `{{DICTIONARY}}` placeholder the word list.
pub fn build_prompt(template: &str, transcript: &str, words: &str) -> (r: String)
    ensures
        r@ == prompt_of(template@, transcript@, words@),
{
    let t = chars_of(template);
    let pat1 = chars_of("{{TRANSCRIPT}}");
    let step1 = replace_all_chars(&t, &pat1, &chars_of(transcript));
    let pat2 = chars_of("{{DICTIONARY}}");
    let step2 = replace_all_chars(&step1, &pat2, &chars_of(words));
    string_of(&step2)
}

/// The comma-separated dictionary word list handed to the prompt.
pub fn dictionary_words_list(words: &Vec<String>) -> (r: String)
    ensures
        r@ == joined(words.deep_view(), ", "@),
{
    join_strings(words, ", ")
}

/// What the refinement stage decides to do with a transcription.
pub enum LlmPlan {
    /// The caller requested the fast path: return the text unchanged.
    Bypass,
    /// No model is configured: the stage fails and the text passes through.
    NoModel,
    /// Send `prompt` to the generate endpoint at `url`.
    Request { url: String, prompt: String },
}

/// Decide the refinement stage's action. On the bypass fast path nothing is
/// sent; without a configured model the stage reports failure; otherwise
/// the endpoint URL and the filled-in prompt are fixed exactly.
pub fn plan_llm_request(
    bypass: bool,
    model: &str,
    base_url: &str,
    template: &str,
    transcript: &str,
    dictionary_words: &Vec<String>,
) -> (p: LlmPlan)
    ensures
        bypass ==> p matches LlmPlan::Bypass,
        !bypass && model@.len() == 0 ==> p matches LlmPlan::NoModel,
        !bypass && model@.len() > 0 ==> (p matches LlmPlan::Request { url, prompt } && url@
            == trim_end_slashes(base_url@) + "/generate"@ && prompt@ == prompt_of(
            template@,
            transcript@,
            joined(dictionary_words.deep_view(), ", "@),
        )),
{
    if bypass {
        return LlmPlan::Bypass;
    }
    if model.unicode_len() == 0 {
        return LlmPlan::NoModel;
    }
    let base = strip_trailing_slashes(base_url);
    let url = base.concat("/generate");
    let words = dictionary_words_list(dictionary_words);
    let prompt = build_prompt(template, transcript, words.as_str());
    LlmPlan::Request { url, prompt }
}

/// The refined text of a successful response body: the body, trimmed.
pub fn refine_response(body: &str) -> (r: String)
    ensures
        r@ == trimmed(body@),
{
    let v = chars_of(body);
    let t = trim_chars(&v);
    string_of(&t)
}

} // verus!
