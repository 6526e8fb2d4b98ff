//! Phonetic dictionary correction: dictionary words and transcript tokens
//! are encoded with the Beider-Morse encoder of the `rphonetic` crate, and a
//! token that sounds like a dictionary word has every occurrence of its
//! exact text replaced by that word. Everything from the code strings on is
//! verified for every value the encoder could return; under the rule tables
//! compiled into the crate the codes themselves are pinned by the named
//! encoding `bm_code`, while a rule set loaded from disk stays opaque and
//! must be validated by its loader before the encoder may touch it.

use vstd::prelude::*;
use crate::text::{split_on, split_ws, replace_all, chars_of, string_of, split_whitespace_chars,
    replace_all_chars, split_on_char, eq_chars};
use crate::dictionary::{Dictionary, DictEntry, clone_strings};

verus! {

// ---------------------------------------------------------------------------
// Trusted surface over the rphonetic crate.
// ---------------------------------------------------------------------------

#[verifier::external_type_specification]
#[verifier::external_body]
pub struct ExConfigFiles(rphonetic::ConfigFiles);

/// The rule set carries every table the generic Beider-Morse encoder
/// consults: the language lists for all three name types, and the `any`
/// and `common` rule tables its lookups unwrap. A rule set read from disk
/// holds this only if its language files list `any`; callers that load one
/// must validate that before handing it in.
pub uninterp spec fn encoder_ready(cfg: rphonetic::ConfigFiles) -> bool;

/// The rule set is the one compiled into the crate. Its tables are the
/// same in every process, so encodings under it are a function of the word
/// and the language tags alone.
pub uninterp spec fn from_embedded_rules(cfg: rphonetic::ConfigFiles) -> bool;

/// The Beider-Morse encoding of `word` under the language tags `tags`,
/// as the embedded rule tables produce it: a pipe-separated string of
/// phonetic spellings.
pub uninterp spec fn bm_code(word: Seq<char>, tags: Seq<Seq<char>>) -> Seq<char>;

/// The tag list names at least two different languages.
pub open spec fn two_distinct(tags: Seq<Seq<char>>) -> bool {
    exists|i: int, j: int|
        #![trigger tags[i], tags[j]]
        0 <= i < tags.len() && 0 <= j < tags.len() && tags[i] != tags[j]
}

/// Relies on `ConfigFiles::default` of rphonetic: the rule tables compiled
/// into the crate. They carry the generic/any/common tables the encoder
/// consults, so the result is ready for encoding, and they never vary, so
/// encodings under them are the function `bm_code` names.
#[verifier::external_body]
pub fn embedded_phonetic_rules() -> (r: rphonetic::ConfigFiles)
    ensures
        encoder_ready(r),
        from_embedded_rules(r),
{
    rphonetic::ConfigFiles::default()
}

/// Relies on `BeiderMorseBuilder::new`/`build` and
/// `BeiderMorse::encode_with_languages` of rphonetic: the pipe-separated
/// phonetic spellings of `word` under the given language tags. The
/// preconditions keep the encoder's internal table lookups total: a ready
/// rule set has the tables, and two or more distinct tags make the engine
/// resolve through the combined `any` tables instead of a single
/// language's, which the rule set might not carry. Of a rule set other
/// than the embedded one, nothing is assumed about the result.
#[verifier::external_body]
pub(crate) fn encode_word_with(
    cfg: &rphonetic::ConfigFiles,
    word: &str,
    tags: &Vec<String>,
) -> (r: String)
    requires
        encoder_ready(*cfg),
        two_distinct(tags.deep_view()),
    ensures
        from_embedded_rules(*cfg) ==> r@ == bm_code(word@, tags.deep_view()),
{
    let refs: Vec<&str> = tags.iter().map(|t| t.as_str()).collect();
    let langs = rphonetic::LanguageSet::from(refs);
    let bm = rphonetic::BeiderMorseBuilder::new(cfg).build();
    bm.encode_with_languages(word, &langs)
}

// ---------------------------------------------------------------------------
// Verified matching logic, over whatever code strings came back.
// ---------------------------------------------------------------------------

/// The candidate codes of a pipe-separated encoding.
pub open spec fn codes_of(code: Seq<char>) -> Seq<Seq<char>> {
    split_on(code, '|')
}

/// Two code sets overlap when they share a code.
pub open spec fn codes_intersect(a: Seq<Seq<char>>, b: Seq<Seq<char>>) -> bool {
    exists|i: int, j: int| 0 <= i < a.len() && 0 <= j < b.len() && a[i] == b[j]
}

/// One token corrected against the dictionary entries in order: each entry
/// whose codes overlap the token's replaces every occurrence of the token's
/// exact text (later matches rewrite earlier ones).
pub open spec fn correct_token(
    text: Seq<char>,
    tok: Seq<char>,
    tok_code: Seq<char>,
    dict: Seq<(Seq<char>, Seq<char>)>,
) -> Seq<char>
    decreases dict.len(),
{
    if dict.len() == 0 {
        text
    } else {
        let t2 = if codes_intersect(codes_of(dict[0].1), codes_of(tok_code)) {
            replace_all(text, tok, dict[0].0)
        } else {
            text
        };
        correct_token(t2, tok, tok_code, dict.drop_first())
    }
}

/// The whole correction pass: every token of the original transcription is
/// corrected in order against every dictionary entry.
pub open spec fn correct_text(
    text: Seq<char>,
    toks: Seq<(Seq<char>, Seq<char>)>,
    dict: Seq<(Seq<char>, Seq<char>)>,
) -> Seq<char>
    decreases toks.len(),
{
    if toks.len() == 0 {
        text
    } else {
        correct_text(correct_token(text, toks[0].0, toks[0].1, dict), toks.drop_first(), dict)
    }
}

/// The views of a list of (word, code) pairs.
pub open spec fn pair_views(s: Seq<(String, String)>) -> Seq<(Seq<char>, Seq<char>)> {
    s.map_values(|p: (String, String)| (p.0@, p.1@))
}

/// With an empty dictionary the correction pass changes nothing.
pub proof fn lemma_correct_text_empty_dict(text: Seq<char>, toks: Seq<(Seq<char>, Seq<char>)>)
    ensures
        correct_text(text, toks, Seq::empty()) == text,
    decreases toks.len(),
{
    if toks.len() > 0 {
        lemma_correct_text_empty_dict(text, toks.drop_first());
    }
}

/// A token whose every phonetic match is the token itself leaves the text
/// untouched: substituting a word for its own text is the identity.
pub proof fn lemma_correct_token_self_matches(
    text: Seq<char>,
    tok: Seq<char>,
    tok_code: Seq<char>,
    dict: Seq<(Seq<char>, Seq<char>)>,
)
    requires
        forall|d: int|
            0 <= d < dict.len() && codes_intersect(
                codes_of(#[trigger] dict[d].1),
                codes_of(tok_code),
            ) ==> dict[d].0 == tok,
    ensures
        correct_token(text, tok, tok_code, dict) == text,
    decreases dict.len(),
{
    if dict.len() > 0 {
        if codes_intersect(codes_of(dict[0].1), codes_of(tok_code)) {
            assert(dict[0].0 == tok);
            crate::text::lemma_replace_all_self(text, tok);
        }
        let t = dict.drop_first();
        assert forall|d: int|
            0 <= d < t.len() && codes_intersect(
                codes_of(#[trigger] t[d].1),
                codes_of(tok_code),
            ) implies t[d].0 == tok by {
            assert(t[d] == dict[d + 1]);
        }
        lemma_correct_token_self_matches(text, tok, tok_code, t);
    }
}

/// Re-running the correction pass is the identity once the only remaining
/// phonetic matches are tokens already equal to their canonical dictionary
/// word; in particular, with no matches at all the pass changes nothing.
pub proof fn lemma_correct_text_fixed_point(
    text: Seq<char>,
    toks: Seq<(Seq<char>, Seq<char>)>,
    dict: Seq<(Seq<char>, Seq<char>)>,
)
    requires
        forall|t: int, d: int|
            0 <= t < toks.len() && 0 <= d < dict.len() && codes_intersect(
                codes_of(#[trigger] dict[d].1),
                codes_of(#[trigger] toks[t].1),
            ) ==> dict[d].0 == toks[t].0,
    ensures
        correct_text(text, toks, dict) == text,
    decreases toks.len(),
{
    if toks.len() > 0 {
        lemma_correct_token_self_matches(text, toks[0].0, toks[0].1, dict);
        let t = toks.drop_first();
        assert forall|x: int, d: int|
            0 <= x < t.len() && 0 <= d < dict.len() && codes_intersect(
                codes_of(#[trigger] dict[d].1),
                codes_of(#[trigger] t[x].1),
            ) implies dict[d].0 == t[x].0 by {
            assert(t[x] == toks[x + 1]);
        }
        lemma_correct_text_fixed_point(text, t, dict);
    }
}

/// True iff some candidate code of `a` equals some candidate code of `b`.
fn vec_codes_intersect(a: &Vec<Vec<char>>, b: &Vec<Vec<char>>) -> (r: bool)
    ensures
        r == codes_intersect(a.deep_view(), b.deep_view()),
{
    let mut i: usize = 0;
    let n = a.len();
    while i < n
        invariant
            n == a@.len(),
            i <= n,
            forall|x: int, y: int|
                #![trigger a.deep_view()[x], b.deep_view()[y]]
                0 <= x < i && 0 <= y < b@.len() ==> a.deep_view()[x] != b.deep_view()[y],
        decreases n - i,
    {
        let m = b.len();
        let mut j: usize = 0;
        while j < m
            invariant
                n == a@.len(),
                m == b@.len(),
                i < n,
                j <= m,
                forall|y: int| 0 <= y < j ==> a.deep_view()[i as int] != #[trigger] b.deep_view()[y],
            decreases m - j,
        {
            if eq_chars(&a[i], &b[j]) {
                proof {
                    assert(a.deep_view()[i as int] =~= a@[i as int]@);
                    assert(b.deep_view()[j as int] =~= b@[j as int]@);
                    assert(a.deep_view()[i as int] == b.deep_view()[j as int]);
                }
                return true;
            }
            proof {
                assert(a.deep_view()[i as int] =~= a@[i as int]@);
                assert(b.deep_view()[j as int] =~= b@[j as int]@);
            }
            j = j + 1;
        }
        i = i + 1;
    }
    proof {
        if codes_intersect(a.deep_view(), b.deep_view()) {
            let (x, y) = choose|x: int, y: int|
                0 <= x < a.deep_view().len() && 0 <= y < b.deep_view().len() && a.deep_view()[x]
                    == b.deep_view()[y];
            assert(false);
        }
    }
    false
}

/// Apply the correction pass to `text` given the already-encoded tokens and
/// dictionary entries. Fully verified: the result is `correct_text` of the
/// inputs, whatever code strings the encoder produced.
pub fn apply_corrections(
    text: String,
    tokens: &Vec<(String, String)>,
    dict: &Vec<(String, String)>,
) -> (r: String)
    ensures
        r@ == correct_text(text@, pair_views(tokens@), pair_views(dict@)),
{
    let ghost toks = pair_views(tokens@);
    let ghost dicts = pair_views(dict@);
    let mut cur: Vec<char> = chars_of(text.as_str());
    let nt = tokens.len();
    let mut t: usize = 0;
    proof {
        assert(toks.skip(0) =~= toks);
    }
    while t < nt
        invariant
            nt == tokens@.len(),
            nt == toks.len(),
            toks == pair_views(tokens@),
            dicts == pair_views(dict@),
            t <= nt,
            correct_text(text@, toks, dicts) == correct_text(cur@, toks.skip(t as int), dicts),
        decreases nt - t,
    {
        let tok_chars = chars_of(tokens[t].0.as_str());
        let tok_codes = split_on_char(&chars_of(tokens[t].1.as_str()), '|');
        proof {
            assert(toks[t as int] == (tokens@[t as int].0@, tokens@[t as int].1@));
            assert(toks.skip(t as int)[0] == toks[t as int]);
            assert(toks.skip(t as int).drop_first() =~= toks.skip(t + 1));
        }
        let nd = dict.len();
        let mut d: usize = 0;
        let ghost start_text = cur@;
        proof {
            assert(dicts.skip(0) =~= dicts);
        }
        while d < nd
            invariant
                nd == dict@.len(),
                nd == dicts.len(),
                dicts == pair_views(dict@),
                d <= nd,
                tok_chars@ == toks[t as int].0,
                tok_codes.deep_view() == codes_of(toks[t as int].1),
                t < nt,
                nt == toks.len(),
                correct_token(start_text, toks[t as int].0, toks[t as int].1, dicts)
                    == correct_token(cur@, toks[t as int].0, toks[t as int].1, dicts.skip(
                    d as int,
                )),
            decreases nd - d,
        {
            proof {
                assert(dicts[d as int] == (dict@[d as int].0@, dict@[d as int].1@));
                assert(dicts.skip(d as int)[0] == dicts[d as int]);
                assert(dicts.skip(d as int).drop_first() =~= dicts.skip(d + 1));
            }
            let dict_codes = split_on_char(&chars_of(dict[d].1.as_str()), '|');
            if vec_codes_intersect(&dict_codes, &tok_codes) {
                let dict_word = chars_of(dict[d].0.as_str());
                cur = replace_all_chars(&cur, &tok_chars, &dict_word);
            }
            d = d + 1;
        }
        proof {
            assert(dicts.skip(nd as int) =~= Seq::<(Seq<char>, Seq<char>)>::empty());
        }
        t = t + 1;
    }
    proof {
        assert(toks.skip(nt as int) =~= Seq::<(Seq<char>, Seq<char>)>::empty());
    }
    string_of(&cur)
}

/// Pair each word with its code.
pub open spec fn zip_codes(words: Seq<Seq<char>>, codes: Seq<Seq<char>>) -> Seq<
    (Seq<char>, Seq<char>),
> {
    Seq::new(words.len() as nat, |i: int| (words[i], codes[i]))
}

/// `r` is what the correction pass makes of `text` under *some* assignment
/// of phonetic codes to its tokens and to the dictionary words. The token
/// list and the word list are pinned; only the codes, which come from the
/// opaque encoder, are left open.
pub open spec fn is_correction_of(r: Seq<char>, text: Seq<char>, words: Seq<Seq<char>>) -> bool {
    exists|tc: Seq<Seq<char>>, dc: Seq<Seq<char>>|
        tc.len() == split_ws(text).len() && dc.len() == words.len() && r == correct_text(
            text,
            #[trigger] zip_codes(split_ws(text), tc),
            #[trigger] zip_codes(words, dc),
        )
}

/// The language pair the correction pass is configured with: transcript
/// tokens are always encoded under it, and words fall back to it.
pub open spec fn configured_languages() -> Seq<Seq<char>> {
    seq!["french"@, "english"@]
}

/// The language set a word is encoded under: its own tags when they name
/// at least two different languages, else the configured pair. A lone tag
/// cannot be used: the engine would resolve it against that single
/// language's tables, which only some rule sets carry.
pub open spec fn effective_tags_spec(tags: Seq<Seq<char>>) -> Seq<Seq<char>> {
    if two_distinct(tags) {
        tags
    } else {
        configured_languages()
    }
}

/// Each token of the transcription with its embedded-rules code, encoded
/// under the configured language pair.
pub open spec fn token_codes_spec(text: Seq<char>) -> Seq<(Seq<char>, Seq<char>)> {
    Seq::new(
        split_ws(text).len(),
        |i: int| (split_ws(text)[i], bm_code(split_ws(text)[i], configured_languages())),
    )
}

/// Each dictionary entry's word with its embedded-rules code, encoded
/// under the entry's own language tags.
pub open spec fn dict_codes_spec(entries: Seq<DictEntry>) -> Seq<(Seq<char>, Seq<char>)> {
    Seq::new(
        entries.len(),
        |i: int|
            (
                entries[i].word@,
                bm_code(entries[i].word@, effective_tags_spec(entries[i].languages.deep_view())),
            ),
    )
}

/// The configured language pair as a tag list.
fn configured_language_tags() -> (r: Vec<String>)
    ensures
        r.deep_view() == configured_languages(),
        two_distinct(r.deep_view()),
{
    let mut r: Vec<String> = Vec::new();
    r.push(String::from_str("french"));
    r.push(String::from_str("english"));
    proof {
        assert(r.deep_view() =~~= configured_languages());
        reveal_strlit("french");
        reveal_strlit("english");
        assert(r.deep_view()[0] != r.deep_view()[1]);
    }
    r
}

/// The language tags a word is actually encoded under.
fn effective_tags(tags: &Vec<String>) -> (r: Vec<String>)
    ensures
        r.deep_view() == effective_tags_spec(tags.deep_view()),
        two_distinct(r.deep_view()),
{
    let n = tags.len();
    let mut i: usize = 0;
    while i < n
        invariant
            n == tags@.len(),
            i <= n,
            forall|j: int| 0 <= j < i ==> #[trigger] tags@[j]@ == tags@[0]@,
        decreases n - i,
    {
        if !tags[i].eq(&tags[0]) {
            proof {
                assert(tags.deep_view()[0] == tags@[0]@);
                assert(tags.deep_view()[i as int] == tags@[i as int]@);
                assert(two_distinct(tags.deep_view()));
            }
            let r = clone_strings(tags);
            proof {
                assert(two_distinct(r.deep_view()));
            }
            return r;
        }
        i = i + 1;
    }
    proof {
        if two_distinct(tags.deep_view()) {
            let (x, y) = choose|x: int, y: int|
                #![trigger tags.deep_view()[x], tags.deep_view()[y]]
                0 <= x < tags.deep_view().len() && 0 <= y < tags.deep_view().len()
                    && tags.deep_view()[x] != tags.deep_view()[y];
            assert(tags.deep_view()[x] == tags@[x]@ && tags@[x]@ == tags@[0]@);
            assert(tags.deep_view()[y] == tags@[y]@ && tags@[y]@ == tags@[0]@);
            assert(false);
        }
    }
    configured_language_tags()
}

/// Encode every dictionary word under its own language tags, keeping entry
/// order.
fn encode_dictionary(cfg: &rphonetic::ConfigFiles, dictionary: &Dictionary) -> (r: Vec<
    (String, String),
>)
    requires
        encoder_ready(*cfg),
    ensures
        r@.len() == dictionary.entries@.len(),
        forall|i: int| 0 <= i < r@.len() ==> #[trigger] r@[i].0@ == dictionary.entries@[i].word@,
        from_embedded_rules(*cfg) ==> forall|i: int|
            0 <= i < r@.len() ==> #[trigger] r@[i].1@ == bm_code(
                dictionary.entries@[i].word@,
                effective_tags_spec(dictionary.entries@[i].languages.deep_view()),
            ),
{
    let mut r: Vec<(String, String)> = Vec::new();
    let n = dictionary.entries.len();
    let mut i: usize = 0;
    while i < n
        invariant
            encoder_ready(*cfg),
            n == dictionary.entries@.len(),
            i <= n,
            r@.len() == i,
            forall|j: int| 0 <= j < i ==> #[trigger] r@[j].0@ == dictionary.entries@[j].word@,
            from_embedded_rules(*cfg) ==> forall|j: int|
                0 <= j < i ==> #[trigger] r@[j].1@ == bm_code(
                    dictionary.entries@[j].word@,
                    effective_tags_spec(dictionary.entries@[j].languages.deep_view()),
                ),
        decreases n - i,
    {
        let word = dictionary.entries[i].word.clone();
        let tags = effective_tags(&dictionary.entries[i].languages);
        let code = encode_word_with(cfg, word.as_str(), &tags);
        r.push((word, code));
        i = i + 1;
    }
    r
}

/// Encode every whitespace token of the transcription under the configured
/// language pair, in order.
fn encode_tokens(cfg: &rphonetic::ConfigFiles, text: &str) -> (r: Vec<(String, String)>)
    requires
        encoder_ready(*cfg),
    ensures
        r@.len() == split_ws(text@).len(),
        forall|i: int| 0 <= i < r@.len() ==> #[trigger] r@[i].0@ == split_ws(text@)[i],
        from_embedded_rules(*cfg) ==> forall|i: int|
            0 <= i < r@.len() ==> #[trigger] r@[i].1@ == bm_code(
                split_ws(text@)[i],
                configured_languages(),
            ),
{
    let chars = chars_of(text);
    let toks = split_whitespace_chars(&chars);
    let tags = configured_language_tags();
    let mut r: Vec<(String, String)> = Vec::new();
    let n = toks.len();
    proof {
        assert(toks.deep_view().len() == toks@.len());
    }
    let mut i: usize = 0;
    while i < n
        invariant
            encoder_ready(*cfg),
            tags.deep_view() == configured_languages(),
            two_distinct(tags.deep_view()),
            n == toks@.len(),
            toks.deep_view() == split_ws(text@),
            i <= n,
            r@.len() == i,
            forall|j: int| 0 <= j < i ==> #[trigger] r@[j].0@ == split_ws(text@)[j],
            from_embedded_rules(*cfg) ==> forall|j: int|
                0 <= j < i ==> #[trigger] r@[j].1@ == bm_code(
                    split_ws(text@)[j],
                    configured_languages(),
                ),
        decreases n - i,
    {
        let word = string_of(&toks[i]);
        proof {
            assert(toks@[i as int].deep_view() =~= toks@[i as int]@);
            assert(word@ == toks.deep_view()[i as int]);
        }
        let code = encode_word_with(cfg, word.as_str(), &tags);
        r.push((word, code));
        i = i + 1;
    }
    r
}

/// Re-running the correction pass under the embedded tables is the
/// identity once every remaining phonetic match maps a token to its own
/// text: each token whose code set intersects a dictionary entry's is
/// already that entry's canonical word. With no matches at all this holds
/// vacuously.
pub proof fn lemma_embedded_correction_fixed_point(text: Seq<char>, entries: Seq<DictEntry>)
    requires
        forall|t: int, d: int|
            0 <= t < token_codes_spec(text).len() && 0 <= d < dict_codes_spec(entries).len()
                && codes_intersect(
                codes_of(#[trigger] dict_codes_spec(entries)[d].1),
                codes_of(#[trigger] token_codes_spec(text)[t].1),
            ) ==> dict_codes_spec(entries)[d].0 == token_codes_spec(text)[t].0,
    ensures
        correct_text(text, token_codes_spec(text), dict_codes_spec(entries)) == text,
{
    lemma_correct_text_fixed_point(text, token_codes_spec(text), dict_codes_spec(entries));
}

/// Correct a transcription against the dictionary using a ready rule set:
/// encode every dictionary word under its own language tags and every
/// token under the configured pair, and substitute each phonetic match.
/// The result is the correction pass of the transcription under the codes
/// the encoder produced; under the embedded rule set those codes are
/// exactly `bm_code`. An empty dictionary changes nothing.
pub fn fix_transcription_with_config(
    transcription: String,
    dictionary: &Dictionary,
    cfg: &rphonetic::ConfigFiles,
) -> (r: String)
    requires
        encoder_ready(*cfg),
    ensures
        is_correction_of(r@, transcription@, dictionary.spec_words()),
        dictionary.entries@.len() == 0 ==> r@ == transcription@,
        from_embedded_rules(*cfg) ==> r@ == correct_text(
            transcription@,
            token_codes_spec(transcription@),
            dict_codes_spec(dictionary.entries@),
        ),
{
    let encoded_dict = encode_dictionary(cfg, dictionary);
    let tokens = encode_tokens(cfg, transcription.as_str());
    let ghost text = transcription@;
    let ghost tc = tokens@.map_values(|p: (String, String)| p.1@);
    let ghost dc = encoded_dict@.map_values(|p: (String, String)| p.1@);
    let r = apply_corrections(transcription, &tokens, &encoded_dict);
    proof {
        assert(pair_views(tokens@) =~= zip_codes(split_ws(text), tc));
        assert(pair_views(encoded_dict@) =~= zip_codes(dictionary.spec_words(), dc));
        assert(r@ == correct_text(text, zip_codes(split_ws(text), tc), zip_codes(
            dictionary.spec_words(),
            dc,
        )));
        if dictionary.entries@.len() == 0 {
            assert(zip_codes(dictionary.spec_words(), dc) =~= Seq::<(Seq<char>, Seq<char>)>::empty());
            lemma_correct_text_empty_dict(text, zip_codes(split_ws(text), tc));
        }
        if from_embedded_rules(*cfg) {
            assert(pair_views(tokens@) =~= token_codes_spec(text));
            assert(pair_views(encoded_dict@) =~= dict_codes_spec(dictionary.entries@));
        }
    }
    r
}

/// Correct a transcription against the dictionary under the embedded rule
/// tables: the result is exactly the correction pass over the `bm_code`
/// encodings of its tokens and of the dictionary words.
pub fn fix_transcription_embedded(transcription: String, dictionary: &Dictionary) -> (r: String)
    ensures
        r@ == correct_text(
            transcription@,
            token_codes_spec(transcription@),
            dict_codes_spec(dictionary.entries@),
        ),
        is_correction_of(r@, transcription@, dictionary.spec_words()),
        dictionary.entries@.len() == 0 ==> r@ == transcription@,
{
    let cfg = embedded_phonetic_rules();
    fix_transcription_with_config(transcription, dictionary, &cfg)
}

/// Correct a transcription with a rule set loaded and validated outside,
/// or pass it through when none could be had: a ruleset that cannot be
/// resolved or loaded makes the dictionary stage a non-fatal pass-through.
/// The flag reports which branch ran: the text comes back unchanged
/// whenever no correction pass did.
pub fn fix_transcription_with_dictionary(
    transcription: String,
    dictionary: &Dictionary,
    rules: Option<&rphonetic::ConfigFiles>,
) -> (r: (String, bool))
    requires
        (rules matches Option::Some(cfg) ==> encoder_ready(*cfg)),
    ensures
        (r.1 == (rules matches Option::Some(_))),
        !r.1 ==> r.0@ == transcription@,
        r.1 ==> is_correction_of(r.0@, transcription@, dictionary.spec_words()),
        dictionary.entries@.len() == 0 ==> r.0@ == transcription@,
        (rules matches Option::Some(cfg) && from_embedded_rules(*cfg) ==> r.0@ == correct_text(
            transcription@,
            token_codes_spec(transcription@),
            dict_codes_spec(dictionary.entries@),
        )),
{
    match rules {
        Option::Some(cfg) => (fix_transcription_with_config(transcription, dictionary, cfg), true),
        Option::None => (transcription, false),
    }
}

} // verus!
