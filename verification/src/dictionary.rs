//! The user dictionary: canonical lowercase words, each tagged with the
//! languages used for phonetic encoding, plus the validation rules for
//! imported word lists. Loading and saving the store live outside; they
//! exchange plain entry lists with this module.

use vstd::prelude::*;
use crate::text::{trimmed, split_on, chars_of, trim_chars, string_of, split_on_char};

verus! {

/// Whether `c` has the Unicode `Alphabetic` property, as
/// `char::is_alphabetic` decides it.
pub uninterp spec fn is_alpha(c: char) -> bool;

/// Relies on `char::is_alphabetic`: true exactly for characters with the
/// Alphabetic property; ASCII letters have it, while ASCII digits, spaces
/// and punctuation do not.
#[verifier::external_body]
pub fn char_is_alphabetic(c: char) -> (b: bool)
    ensures
        b == is_alpha(c),
        ('a' <= c && c <= 'z') ==> b,
        ('A' <= c && c <= 'Z') ==> b,
        (('0' <= c && c <= '9') || c == ' ' || c == '-' || c == '_' || c == '\n') ==> !b,
{
    c.is_alphabetic()
}

/// The lowercase form of `s`, as `str::to_lowercase` computes it: a
/// function of the characters alone.
pub uninterp spec fn lower_of(s: Seq<char>) -> Seq<char>;

/// Relies on `str::to_lowercase`: the result depends only on the input
/// characters, and an empty string stays empty.
#[verifier::external_body]
pub fn to_lowercase(s: &str) -> (r: String)
    ensures
        r@ == lower_of(s@),
        s@.len() == 0 ==> r@.len() == 0,
{
    s.to_lowercase()
}

/// Every character of the word is alphabetic.
pub open spec fn all_alpha(w: Seq<char>) -> bool {
    forall|i: int| 0 <= i < w.len() ==> is_alpha(w[i])
}

/// A line passes validation when, after trimming, it is empty or all
/// alphabetic.
pub open spec fn line_ok(l: Seq<char>) -> bool {
    l.len() == 0 || all_alpha(l)
}

/// Index of the first trimmed line that fails validation, or `-1`.
pub open spec fn first_invalid(lines: Seq<Seq<char>>) -> int
    decreases lines.len(),
{
    if lines.len() == 0 {
        -1
    } else if !line_ok(lines[0]) {
        0
    } else if first_invalid(lines.drop_first()) < 0 {
        -1
    } else {
        1 + first_invalid(lines.drop_first())
    }
}

/// The non-empty trimmed lines, lowercased, in order.
pub open spec fn valid_words(lines: Seq<Seq<char>>) -> Seq<Seq<char>>
    decreases lines.len(),
{
    if lines.len() == 0 {
        Seq::empty()
    } else if lines[0].len() == 0 {
        valid_words(lines.drop_first())
    } else {
        seq![lower_of(lines[0])] + valid_words(lines.drop_first())
    }
}

/// The trimmed lines of an imported word list.
pub open spec fn import_lines(s: Seq<char>) -> Seq<Seq<char>> {
    split_on(s, '\n').map_values(|l: Seq<char>| trimmed(l))
}

/// The language tags a newly imported word receives.
pub open spec fn default_language_tags() -> Seq<Seq<char>> {
    seq!["english"@, "french"@]
}

/// Why an imported word list was rejected.
#[derive(Debug, Clone, PartialEq, Eq)]
pub enum DictionaryError {
    /// A line holds something besides letters; carries the offending word.
    InvalidWordFormat(String),
    /// No valid word at all in the import.
    EmptyDictionary,
}

/// `first_invalid` is pinned by its first-witness characterisation.
proof fn lemma_first_invalid_eq(lines: Seq<Seq<char>>, m: int)
    requires
        0 <= m <= lines.len(),
        forall|l: int| 0 <= l < m ==> line_ok(#[trigger] lines[l]),
        m < lines.len() ==> !line_ok(lines[m]),
    ensures
        m < lines.len() ==> first_invalid(lines) == m,
        m == lines.len() ==> first_invalid(lines) < 0,
    decreases lines.len(),
{
    if lines.len() > 0 && line_ok(lines[0]) {
        assert(m > 0);
        let t = lines.drop_first();
        assert forall|l: int| 0 <= l < m - 1 implies line_ok(#[trigger] t[l]) by {
            assert(t[l] == lines[l + 1]);
        }
        if m - 1 < t.len() {
            assert(t[m - 1] == lines[m as int]);
        }
        lemma_first_invalid_eq(t, m - 1);
    }
}

/// Check an imported newline-delimited word list: trim each line, skip
/// empty ones, reject the first line holding anything besides letters, and
/// lowercase the rest. An import with no valid word at all is an error.
pub fn validate_dictionary_format(new_dictionary: String) -> (r: Result<
    Vec<String>,
    DictionaryError,
>)
    ensures
        ({
            let lines = import_lines(new_dictionary@);
            match r {
                Result::Ok(words) => {
                    &&& first_invalid(lines) < 0
                    &&& valid_words(lines).len() > 0
                    &&& words.deep_view() == valid_words(lines)
                },
                Result::Err(DictionaryError::InvalidWordFormat(w)) => {
                    &&& first_invalid(lines) >= 0
                    &&& w@ == lines[first_invalid(lines)]
                },
                Result::Err(DictionaryError::EmptyDictionary) => {
                    &&& first_invalid(lines) < 0
                    &&& valid_words(lines).len() == 0
                },
            }
        }),
{
    let ghost lines = import_lines(new_dictionary@);
    let chars = chars_of(new_dictionary.as_str());
    let pieces = split_on_char(&chars, '\n');
    proof {
        assert(pieces.deep_view().len() == lines.len());
    }
    let n = pieces.len();
    let mut words: Vec<String> = Vec::new();
    let mut i: usize = 0;
    proof {
        assert(lines.skip(0) =~= lines);
        assert(words.deep_view() + valid_words(lines) =~= valid_words(lines));
    }
    while i < n
        invariant
            n == pieces@.len(),
            n == lines.len(),
            pieces.deep_view() == split_on(new_dictionary@, '\n'),
            lines == import_lines(new_dictionary@),
            i <= n,
            forall|l: int| 0 <= l < i ==> line_ok(#[trigger] lines[l]),
            valid_words(lines) == words.deep_view() + valid_words(lines.skip(i as int)),
        decreases n - i,
    {
        let piece = &pieces[i];
        let t = trim_chars(piece);
        proof {
            assert(pieces.deep_view()[i as int] =~= pieces@[i as int]@);
            assert(lines[i as int] == trimmed(pieces.deep_view()[i as int]));
            assert(t@ == lines[i as int]);
            assert(lines.skip(i as int).drop_first() =~= lines.skip(i + 1));
            assert(lines.skip(i as int)[0] == lines[i as int]);
        }
        if t.len() == 0 {
            i = i + 1;
            continue ;
        }
        let mut k: usize = 0;
        let m = t.len();
        while k < m
            invariant
                n == lines.len(),
                i < n,
                lines == import_lines(new_dictionary@),
                t@ == lines[i as int],
                forall|l: int| 0 <= l < i ==> line_ok(#[trigger] lines[l]),
                m == t@.len(),
                m >= 1,
                k <= m,
                forall|l: int| 0 <= l < k ==> is_alpha(t@[l]),
            decreases m - k,
        {
            if !char_is_alphabetic(t[k]) {
                proof {
                    assert(!all_alpha(t@)) by {
                        assert(!is_alpha(t@[k as int]));
                    }
                    assert(!line_ok(lines[i as int]));
                    lemma_first_invalid_eq(lines, i as int);
                }
                return Result::Err(DictionaryError::InvalidWordFormat(string_of(&t)));
            }
            k = k + 1;
        }
        proof {
            assert(all_alpha(t@));
        }
        let word_str = string_of(&t);
        let lowered = to_lowercase(word_str.as_str());
        let ghost old_words = words.deep_view();
        words.push(lowered);
        proof {
            assert(words.deep_view() =~~= old_words.push(lower_of(t@)));
            assert(valid_words(lines.skip(i as int)) == seq![lower_of(lines[i as int])]
                + valid_words(lines.skip(i + 1)));
            assert(words.deep_view() + valid_words(lines.skip(i + 1)) =~= old_words + (
            seq![lower_of(lines[i as int])] + valid_words(lines.skip(i + 1))));
        }
        i = i + 1;
    }
    proof {
        lemma_first_invalid_eq(lines, n as int);
        assert(lines.skip(n as int) =~= Seq::<Seq<char>>::empty());
        assert(words.deep_view() + Seq::<Seq<char>>::empty() =~= words.deep_view());
    }
    if words.len() == 0 {
        return Result::Err(DictionaryError::EmptyDictionary);
    }
    proof {
        assert(words.deep_view().len() == words@.len());
    }
    Result::Ok(words)
}

/// One dictionary entry: a canonical word and its language tags.
pub struct DictEntry {
    pub word: String,
    pub languages: Vec<String>,
}

pub(crate) fn clone_strings(v: &Vec<String>) -> (r: Vec<String>)
    ensures
        r.deep_view() == v.deep_view(),
{
    let mut r: Vec<String> = Vec::new();
    let mut i: usize = 0;
    while i < v.len()
        invariant
            i <= v@.len(),
            r@.len() == i,
            forall|j: int| 0 <= j < i ==> #[trigger] r@[j]@ == v@[j]@,
        decreases v@.len() - i,
    {
        r.push(v[i].clone());
        i = i + 1;
    }
    proof {
        assert forall|j: int| 0 <= j < v@.len() implies r.deep_view()[j] == v.deep_view()[j] by {
            assert(r@[j]@ == v@[j]@);
        }
        assert(r.deep_view() =~~= v.deep_view());
    }
    r
}

impl DictEntry {
    fn clone_entry(&self) -> (e: DictEntry)
        ensures
            e.word@ == self.word@,
            e.languages.deep_view() == self.languages.deep_view(),
    {
        DictEntry { word: self.word.clone(), languages: clone_strings(&self.languages) }
    }
}

/// The words of an entry list, in order.
pub open spec fn words_of(entries: Seq<DictEntry>) -> Seq<Seq<char>> {
    entries.map_values(|e: DictEntry| e.word@)
}

/// The entry list with later duplicates of a word dropped: of entries
/// sharing a word, the first wins.
pub open spec fn dedup_first(s: Seq<DictEntry>) -> Seq<DictEntry>
    decreases s.len(),
{
    if s.len() == 0 {
        s
    } else {
        let rest = dedup_first(s.drop_last());
        if words_of(rest).contains(s.last().word@) {
            rest
        } else {
            rest.push(s.last())
        }
    }
}

/// The user dictionary: a word-to-languages mapping whose words are unique.
pub struct Dictionary {
    pub entries: Vec<DictEntry>,
}

impl Dictionary {
    /// Words are unique keys.
    pub open spec fn wf(self) -> bool {
        forall|i: int, j: int|
            0 <= i < j < self.entries@.len() ==> self.entries@[i].word@ != self.entries@[j].word@
    }

    pub open spec fn spec_words(self) -> Seq<Seq<char>> {
        words_of(self.entries@)
    }

    pub open spec fn has_word(self, w: Seq<char>) -> bool {
        exists|i: int| 0 <= i < self.entries@.len() && self.entries@[i].word@ == w
    }

    /// Index of the entry for `w`, if any.
    pub fn find_word(&self, w: &String) -> (r: Option<usize>)
        ensures
            match r {
                Option::Some(i) => i < self.entries@.len() && self.entries@[i as int].word@ == w@,
                Option::None => !self.has_word(w@),
            },
    {
        let mut i: usize = 0;
        let n = self.entries.len();
        while i < n
            invariant
                n == self.entries@.len(),
                i <= n,
                forall|j: int| 0 <= j < i ==> self.entries@[j].word@ != w@,
            decreases n - i,
        {
            if self.entries[i].word.eq(w) {
                return Option::Some(i);
            }
            i = i + 1;
        }
        Option::None
    }

    /// Build a dictionary from an entry list; of entries sharing a word,
    /// the first wins.
    pub fn new(entries: Vec<DictEntry>) -> (d: Dictionary)
        ensures
            d.wf(),
            forall|w: Seq<char>|
                #[trigger] d.has_word(w) <==> exists|j: int|
                    0 <= j < entries@.len() && entries@[j].word@ == w,
            d.entries@.len() == dedup_first(entries@).len(),
            forall|i: int|
                #![trigger d.entries@[i]]
                0 <= i < d.entries@.len() ==> d.entries@[i].word@ == dedup_first(
                    entries@,
                )[i].word@ && d.entries@[i].languages.deep_view() == dedup_first(
                    entries@,
                )[i].languages.deep_view(),
    {
        let mut d = Dictionary { entries: Vec::new() };
        let n = entries.len();
        let mut i: usize = 0;
        proof {
            assert(entries@.take(0) =~= Seq::<DictEntry>::empty());
        }
        while i < n
            invariant
                n == entries@.len(),
                i <= n,
                d.wf(),
                forall|w: Seq<char>|
                    #[trigger] d.has_word(w) <==> exists|j: int|
                        0 <= j < i && entries@[j].word@ == w,
                d.entries@.len() == dedup_first(entries@.take(i as int)).len(),
                forall|k: int|
                    #![trigger d.entries@[k]]
                    0 <= k < d.entries@.len() ==> d.entries@[k].word@ == dedup_first(
                        entries@.take(i as int),
                    )[k].word@ && d.entries@[k].languages.deep_view() == dedup_first(
                        entries@.take(i as int),
                    )[k].languages.deep_view(),
            decreases n - i,
        {
            let ghost w = entries@[i as int].word@;
            let ghost dt = dedup_first(entries@.take(i as int));
            let ghost dtn = dedup_first(entries@.take(i + 1));
            proof {
                assert(entries@.take(i + 1).drop_last() =~= entries@.take(i as int));
                assert(entries@.take(i + 1).last() == entries@[i as int]);
                assert(dtn == if words_of(dt).contains(w) {
                    dt
                } else {
                    dt.push(entries@[i as int])
                });
            }
            let e = &entries[i];
            let ghost old_d = d;
            match d.find_word(&e.word) {
                Option::Some(k) => {
                    proof {
                        assert(old_d.has_word(w));
                        assert(words_of(dt)[k as int] == dt[k as int].word@);
                        assert(d.entries@[k as int].word@ == dt[k as int].word@);
                        assert(words_of(dt).contains(w)) by {
                            assert(words_of(dt)[k as int] == w);
                        }
                        assert(dtn == dt);
                    }
                },
                Option::None => {
                    proof {
                        if words_of(dt).contains(w) {
                            let ci = choose|ci: int|
                                0 <= ci < words_of(dt).len() && words_of(dt)[ci] == w;
                            assert(words_of(dt)[ci] == dt[ci].word@);
                            assert(old_d.entries@[ci].word@ == dt[ci].word@);
                            assert(old_d.has_word(w));
                            assert(false);
                        }
                        assert(dtn == dt.push(entries@[i as int]));
                    }
                    d.entries.push(e.clone_entry());
                    proof {
                        assert(d.entries@.last().word@ == w);
                        assert forall|x: int, y: int|
                            0 <= x < y < d.entries@.len() implies d.entries@[x].word@
                            != d.entries@[y].word@ by {
                            if y == d.entries@.len() - 1 {
                                assert(!old_d.has_word(d.entries@[y].word@));
                            }
                        }
                        assert forall|ww: Seq<char>| #[trigger] d.has_word(ww) implies exists|j: int|
                            0 <= j < i + 1 && entries@[j].word@ == ww by {
                            let k = choose|k: int|
                                0 <= k < d.entries@.len() && d.entries@[k].word@ == ww;
                            if k < old_d.entries@.len() {
                                assert(old_d.has_word(ww));
                            } else {
                                assert(entries@[i as int].word@ == ww);
                            }
                        }
                        assert forall|ww: Seq<char>|
                            exists|j: int| 0 <= j < i + 1 && entries@[j].word@ == ww implies #[trigger] d.has_word(
                            ww,
                        ) by {
                            let j = choose|j: int| 0 <= j < i + 1 && entries@[j].word@ == ww;
                            if j < i {
                                assert(old_d.has_word(ww));
                                let k = choose|k: int|
                                    0 <= k < old_d.entries@.len() && old_d.entries@[k].word@ == ww;
                                assert(d.entries@[k].word@ == ww);
                            } else {
                                assert(d.entries@[d.entries@.len() - 1].word@ == ww);
                            }
                        }
                    }
                },
            }
            i = i + 1;
        }
        proof {
            assert(entries@.take(n as int) =~= entries@);
        }
        d
    }

    /// A copy of the entry list, handed to collaborators.
    pub fn get(&self) -> (r: Vec<DictEntry>)
        ensures
            r@.len() == self.entries@.len(),
            forall|i: int|
                0 <= i < r@.len() ==> #[trigger] r@[i].word@ == self.entries@[i].word@
                    && r@[i].languages.deep_view() == self.entries@[i].languages.deep_view(),
    {
        let mut r: Vec<DictEntry> = Vec::new();
        let mut i: usize = 0;
        let n = self.entries.len();
        while i < n
            invariant
                n == self.entries@.len(),
                i <= n,
                r@.len() == i,
                forall|j: int|
                    0 <= j < i ==> #[trigger] r@[j].word@ == self.entries@[j].word@
                        && r@[j].languages.deep_view() == self.entries@[j].languages.deep_view(),
            decreases n - i,
        {
            r.push(self.entries[i].clone_entry());
            i = i + 1;
        }
        r
    }

    /// Replace the dictionary's contents; of entries sharing a word, the
    /// first wins.
    pub fn set(&mut self, entries: Vec<DictEntry>)
        ensures
            final(self).wf(),
            forall|w: Seq<char>|
                #[trigger] final(self).has_word(w) <==> exists|j: int|
                    0 <= j < entries@.len() && entries@[j].word@ == w,
            final(self).entries@.len() == dedup_first(entries@).len(),
            forall|i: int|
                #![trigger final(self).entries@[i]]
                0 <= i < final(self).entries@.len() ==> final(self).entries@[i].word@
                    == dedup_first(entries@)[i].word@
                    && final(self).entries@[i].languages.deep_view() == dedup_first(
                    entries@,
                )[i].languages.deep_view(),
    {
        *self = Dictionary::new(entries);
    }

    /// The word list, in entry order.
    pub fn words(&self) -> (r: Vec<String>)
        ensures
            r.deep_view() == self.spec_words(),
    {
        let mut r: Vec<String> = Vec::new();
        let mut i: usize = 0;
        let n = self.entries.len();
        while i < n
            invariant
                n == self.entries@.len(),
                i <= n,
                r@.len() == i,
                forall|j: int| 0 <= j < i ==> #[trigger] r@[j]@ == self.entries@[j].word@,
            decreases n - i,
        {
            r.push(self.entries[i].word.clone());
            i = i + 1;
        }
        proof {
            assert forall|j: int| 0 <= j < n implies r.deep_view()[j] == self.spec_words()[j] by {
                assert(r@[j]@ == self.entries@[j].word@);
            }
            assert(r.deep_view() =~~= self.spec_words());
        }
        r
    }

    /// Add `word` tagged with the default languages (english and french)
    /// unless it is already present, as dictionary imports do.
    pub fn insert_default(&mut self, word: String)
        requires
            old(self).wf(),
        ensures
            final(self).wf(),
            final(self).has_word(word@),
            old(self).has_word(word@) ==> *final(self) == *old(self),
            !old(self).has_word(word@) ==> final(self).entries@.len() == old(
                self,
            ).entries@.len() + 1 && final(self).entries@.last().word@ == word@
                && final(self).entries@.last().languages.deep_view() == default_language_tags()
                && forall|i: int|
                0 <= i < old(self).entries@.len() ==> final(self).entries@[i] == old(
                    self,
                ).entries@[i],
    {
        match self.find_word(&word) {
            Option::Some(i) => {
                proof {
                    assert(old(self).has_word(word@));
                }
            },
            Option::None => {
                let mut languages: Vec<String> = Vec::new();
                languages.push(String::from_str("english"));
                languages.push(String::from_str("french"));
                proof {
                    assert(languages.deep_view() =~~= default_language_tags());
                }
                self.entries.push(DictEntry { word, languages });
                proof {
                    assert(final(self).entries@.last().word@ == word@);
                    assert(final(self).entries@.last().languages.deep_view()
                        == default_language_tags());
                    assert forall|i: int, j: int|
                        0 <= i < j < final(self).entries@.len() implies final(self).entries@[i].word@
                        != final(self).entries@[j].word@ by {
                        if j == final(self).entries@.len() - 1 {
                            assert(!old(self).has_word(final(self).entries@[j].word@));
                        }
                    }
                }
            },
        }
    }
}

/// The newline-joined word list written when the dictionary is exported.
pub fn export_word_list(d: &Dictionary) -> (r: String)
    ensures
        r@ == crate::text::joined(d.spec_words(), seq!['\n']),
{
    let words = d.words();
    let r = crate::text::join_strings(&words, "\n");
    proof {
        reveal_strlit("\n");
        assert("\n"@ =~= seq!['\n']);
    }
    r
}

/// Merge imported or migrated words into the dictionary with the default
/// language tags; words already present keep their entry untouched, and
/// existing entries are never removed or reordered.
pub fn merge_imported_words(d: &mut Dictionary, words: &Vec<String>)
    requires
        old(d).wf(),
    ensures
        final(d).wf(),
        old(d).entries@.len() <= final(d).entries@.len(),
        forall|i: int|
            0 <= i < old(d).entries@.len() ==> final(d).entries@[i] == old(d).entries@[i],
        forall|i: int| 0 <= i < words@.len() ==> final(d).has_word(#[trigger] words@[i]@),
        forall|k: int|
            old(d).entries@.len() <= k < final(d).entries@.len() ==> (
            #[trigger] final(d).entries@[k]).languages.deep_view() == default_language_tags()
                && words.deep_view().contains(final(d).entries@[k].word@),
{
    let n = words.len();
    let mut i: usize = 0;
    while i < n
        invariant
            n == words@.len(),
            i <= n,
            d.wf(),
            old(d).entries@.len() <= d.entries@.len(),
            forall|k: int|
                0 <= k < old(d).entries@.len() ==> d.entries@[k] == old(d).entries@[k],
            forall|j: int| 0 <= j < i ==> d.has_word(#[trigger] words@[j]@),
            forall|k: int|
                old(d).entries@.len() <= k < d.entries@.len() ==> (
                #[trigger] d.entries@[k]).languages.deep_view() == default_language_tags()
                    && words.deep_view().contains(d.entries@[k].word@),
        decreases n - i,
    {
        let ghost prev = *d;
        d.insert_default(words[i].clone());
        proof {
            assert forall|j: int| 0 <= j < i + 1 implies d.has_word(#[trigger] words@[j]@) by {
                if j < i {
                    assert(prev.has_word(words@[j]@));
                    let k = choose|k: int|
                        0 <= k < prev.entries@.len() && prev.entries@[k].word@ == words@[j]@;
                    assert(d.entries@[k].word@ == words@[j]@);
                } else {
                    assert(d.has_word(words@[i as int]@));
                }
            }
            assert forall|k: int|
                old(d).entries@.len() <= k < d.entries@.len() implies (
            #[trigger] d.entries@[k]).languages.deep_view() == default_language_tags()
                && words.deep_view().contains(d.entries@[k].word@) by {
                if k < prev.entries@.len() {
                    assert(d.entries@[k] == prev.entries@[k]);
                } else {
                    assert(d.entries@[k].word@ == words@[i as int]@);
                    assert(words.deep_view()[i as int] == words@[i as int]@);
                }
            }
        }
        i = i + 1;
    }
}

/// Import a newline-delimited word list: validate it, then merge every
/// valid word into the dictionary with the default language tags. A
/// rejected import leaves the dictionary untouched.
pub fn import_word_list(d: &mut Dictionary, content: String) -> (r: Result<(), DictionaryError>)
    requires
        old(d).wf(),
    ensures
        final(d).wf(),
        ({
            let lines = import_lines(content@);
            match r {
                Result::Ok(()) => {
                    &&& first_invalid(lines) < 0
                    &&& valid_words(lines).len() > 0
                    &&& forall|i: int|
                        0 <= i < valid_words(lines).len() ==> final(d).has_word(
                            #[trigger] valid_words(lines)[i],
                        )
                    &&& forall|i: int|
                        0 <= i < old(d).entries@.len() ==> final(d).entries@[i] == old(
                            d,
                        ).entries@[i]
                    &&& forall|k: int|
                        old(d).entries@.len() <= k < final(d).entries@.len() ==> (
                        #[trigger] final(d).entries@[k]).languages.deep_view()
                            == default_language_tags() && valid_words(lines).contains(
                            final(d).entries@[k].word@,
                        )
                },
                Result::Err(DictionaryError::InvalidWordFormat(w)) => {
                    &&& first_invalid(lines) >= 0
                    &&& w@ == lines[first_invalid(lines)]
                    &&& *final(d) == *old(d)
                },
                Result::Err(DictionaryError::EmptyDictionary) => {
                    &&& first_invalid(lines) < 0
                    &&& valid_words(lines).len() == 0
                    &&& *final(d) == *old(d)
                },
            }
        }),
{
    match validate_dictionary_format(content) {
        Result::Ok(words) => {
            let ghost lines = import_lines(content@);
            merge_imported_words(d, &words);
            proof {
                assert forall|i: int| 0 <= i < valid_words(lines).len() implies d.has_word(
                    #[trigger] valid_words(lines)[i],
                ) by {
                    assert(words.deep_view()[i] == words@[i]@);
                    assert(d.has_word(words@[i]@));
                }
                assert(words.deep_view() == valid_words(lines));
            }
            Result::Ok(())
        },
        Result::Err(e) => Result::Err(e),
    }
}

} // verus!
