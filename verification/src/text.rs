//! Character-level text utilities shared by the pipeline stages: whitespace
//! classification, trimming, tokenization, and conversions between `String`
//! and `Vec<char>`.

use vstd::prelude::*;

verus! {

/// The Unicode `White_Space` code points, the ones `str::split_whitespace`
/// and `str::trim` separate on.
pub open spec fn is_space(c: char) -> bool {
    let u = c as u32;
    (0x09 <= u && u <= 0x0D) || u == 0x20 || u == 0x85 || u == 0xA0 || u == 0x1680 || (0x2000 <= u
        && u <= 0x200A) || u == 0x2028 || u == 0x2029 || u == 0x202F || u == 0x205F || u == 0x3000
}

/// A string is blank when every character is whitespace (an empty string is).
pub open spec fn blank(s: Seq<char>) -> bool {
    forall|i: int| 0 <= i < s.len() ==> is_space(s[i])
}

pub fn char_is_space(c: char) -> (b: bool)
    ensures
        b == is_space(c),
{
    let u = c as u32;
    (0x09 <= u && u <= 0x0D) || u == 0x20 || u == 0x85 || u == 0xA0 || u == 0x1680 || (0x2000 <= u
        && u <= 0x200A) || u == 0x2028 || u == 0x2029 || u == 0x202F || u == 0x205F || u == 0x3000
}

/// The characters of `s`, in order.
pub fn chars_of(s: &str) -> (v: Vec<char>)
    ensures
        v@ == s@,
{
    let n = s.unicode_len();
    let mut v: Vec<char> = Vec::new();
    let mut i: usize = 0;
    while i < n
        invariant
            n == s@.len(),
            i <= n,
            v@ == s@.subrange(0, i as int),
        decreases n - i,
    {
        v.push(s.get_char(i));
        i = i + 1;
        assert(v@ =~= s@.subrange(0, i as int));
    }
    assert(v@ =~= s@);
    v
}

/// Relies on `String::push`: appends the given character to the end of the
/// string.
pub assume_specification [ String::push ](s: &mut String, c: char)
    ensures
        final(s)@ == old(s)@.push(c),
;

/// The string holding exactly the characters of `v`.
pub fn string_of(v: &Vec<char>) -> (s: String)
    ensures
        s@ == v@,
{
    let mut s = String::new();
    let mut i: usize = 0;
    while i < v.len()
        invariant
            i <= v@.len(),
            s@ == v@.subrange(0, i as int),
        decreases v@.len() - i,
    {
        s.push(v[i]);
        i = i + 1;
        assert(s@ =~= v@.subrange(0, i as int));
    }
    assert(s@ =~= v@);
    s
}

/// Index of the first non-whitespace character, or `s.len()` when blank.
pub open spec fn first_nonspace(s: Seq<char>) -> int
    decreases s.len(),
{
    if s.len() == 0 {
        0
    } else if is_space(s[0]) {
        1 + first_nonspace(s.drop_first())
    } else {
        0
    }
}

/// One past the last non-whitespace character, or `0` when blank.
pub open spec fn last_nonspace_end(s: Seq<char>) -> int
    decreases s.len(),
{
    if s.len() == 0 {
        0
    } else if is_space(s.last()) {
        last_nonspace_end(s.drop_last())
    } else {
        s.len() as int
    }
}

/// `s` with leading and trailing whitespace removed.
pub open spec fn trimmed(s: Seq<char>) -> Seq<char> {
    if blank(s) {
        Seq::empty()
    } else {
        s.subrange(first_nonspace(s), last_nonspace_end(s))
    }
}

pub proof fn lemma_first_nonspace(s: Seq<char>)
    ensures
        0 <= first_nonspace(s) <= s.len(),
        forall|j: int| 0 <= j < first_nonspace(s) ==> is_space(s[j]),
        first_nonspace(s) < s.len() ==> !is_space(s[first_nonspace(s)]),
        blank(s) ==> first_nonspace(s) == s.len(),
        first_nonspace(s) == s.len() ==> blank(s),
    decreases s.len(),
{
    if s.len() > 0 && is_space(s[0]) {
        lemma_first_nonspace(s.drop_first());
        assert forall|j: int| 0 <= j < first_nonspace(s) implies is_space(s[j]) by {
            if j > 0 {
                assert(s.drop_first()[j - 1] == s[j]);
            }
        }
        if first_nonspace(s) == s.len() {
            assert forall|j: int| 0 <= j < s.len() implies is_space(s[j]) by {
                if j > 0 {
                    assert(s.drop_first()[j - 1] == s[j]);
                }
            }
        }
    }
}

pub proof fn lemma_last_nonspace_end(s: Seq<char>)
    ensures
        0 <= last_nonspace_end(s) <= s.len(),
        forall|j: int| last_nonspace_end(s) <= j < s.len() ==> is_space(s[j]),
        last_nonspace_end(s) > 0 ==> !is_space(s[last_nonspace_end(s) - 1]),
        blank(s) ==> last_nonspace_end(s) == 0,
        last_nonspace_end(s) == 0 ==> blank(s),
    decreases s.len(),
{
    if s.len() > 0 && is_space(s.last()) {
        lemma_last_nonspace_end(s.drop_last());
        assert forall|j: int| last_nonspace_end(s) <= j < s.len() implies is_space(s[j]) by {
            if j < s.len() - 1 {
                assert(s.drop_last()[j] == s[j]);
            }
        }
        if last_nonspace_end(s) == 0 {
            assert forall|j: int| 0 <= j < s.len() implies is_space(s[j]) by {
                if j < s.len() - 1 {
                    assert(s.drop_last()[j] == s[j]);
                }
            }
        }
    }
}

/// `v` with leading and trailing whitespace removed.
pub fn trim_chars(v: &Vec<char>) -> (r: Vec<char>)
    ensures
        r@ == trimmed(v@),
{
    proof {
        lemma_first_nonspace(v@);
        lemma_last_nonspace_end(v@);
    }
    let n = v.len();
    let mut start: usize = 0;
    while start < n && char_is_space(v[start])
        invariant
            n == v@.len(),
            start <= n,
            forall|j: int| 0 <= j < start ==> is_space(v@[j]),
        decreases n - start,
    {
        start = start + 1;
    }
    if start == n {
        proof {
            assert(blank(v@));
        }
        return Vec::new();
    }
    let mut end: usize = n;
    while end > start && char_is_space(v[end - 1])
        invariant
            n == v@.len(),
            start <= end <= n,
            !is_space(v@[start as int]),
            forall|j: int| end <= j < n ==> is_space(v@[j]),
        decreases end,
    {
        end = end - 1;
    }
    proof {
        assert(!blank(v@));
        assert(start == first_nonspace(v@)) by {
            if start < first_nonspace(v@) {
                assert(is_space(v@[start as int]));
            }
            if start > first_nonspace(v@) {
                assert(is_space(v@[first_nonspace(v@)]));
            }
        }
        assert(end > start);
        assert(!is_space(v@[end - 1]));
        assert(end == last_nonspace_end(v@)) by {
            if end < last_nonspace_end(v@) {
                assert(is_space(v@[last_nonspace_end(v@) - 1]));
            }
            if end > last_nonspace_end(v@) {
                assert(is_space(v@[end - 1]));
            }
        }
    }
    let mut r: Vec<char> = Vec::new();
    let mut i: usize = start;
    while i < end
        invariant
            start <= i <= end <= v@.len(),
            r@ == v@.subrange(start as int, i as int),
        decreases end - i,
    {
        r.push(v[i]);
        i = i + 1;
        assert(r@ =~= v@.subrange(start as int, i as int));
    }
    r
}

/// True iff every character of `s` is whitespace.
pub fn str_is_blank(s: &str) -> (b: bool)
    ensures
        b == blank(s@),
{
    let v = chars_of(s);
    let mut i: usize = 0;
    while i < v.len()
        invariant
            v@ == s@,
            i <= v@.len(),
            forall|j: int| 0 <= j < i ==> is_space(s@[j]),
        decreases v@.len() - i,
    {
        if !char_is_space(v[i]) {
            return false;
        }
        i = i + 1;
    }
    true
}

/// Length of the maximal non-whitespace prefix of `s`.
pub open spec fn token_run(s: Seq<char>) -> nat
    decreases s.len(),
{
    if s.len() == 0 {
        0
    } else if is_space(s[0]) {
        0
    } else {
        1 + token_run(s.drop_first())
    }
}

/// The whitespace-separated tokens of `s`, in order, each non-empty.
pub open spec fn split_ws(s: Seq<char>) -> Seq<Seq<char>>
    decreases s.len(),
{
    if s.len() == 0 {
        Seq::empty()
    } else if is_space(s[0]) {
        split_ws(s.drop_first())
    } else {
        proof {
            lemma_token_run_bound(s);
        }
        seq![s.subrange(0, token_run(s) as int)] + split_ws(
            s.subrange(token_run(s) as int, s.len() as int),
        )
    }
}

pub proof fn lemma_token_run_bound(s: Seq<char>)
    ensures
        token_run(s) <= s.len(),
    decreases s.len(),
{
    if s.len() > 0 && !is_space(s[0]) {
        lemma_token_run_bound(s.drop_first());
    }
}

/// `token_run` is pinned by its first-witness characterisation.
proof fn lemma_token_run_eq(s: Seq<char>, m: int)
    requires
        0 <= m <= s.len(),
        forall|l: int| 0 <= l < m ==> !is_space(s[l]),
        m < s.len() ==> is_space(s[m]),
    ensures
        token_run(s) == m,
    decreases s.len(),
{
    if s.len() > 0 && !is_space(s[0]) {
        assert(m > 0);
        let t = s.drop_first();
        assert forall|l: int| 0 <= l < m - 1 implies !is_space(t[l]) by {
            assert(t[l] == s[l + 1]);
        }
        lemma_token_run_eq(t, m - 1);
    }
}

/// The whitespace-separated tokens of `v`, in order.
pub fn split_whitespace_chars(v: &Vec<char>) -> (r: Vec<Vec<char>>)
    ensures
        r.deep_view() == split_ws(v@),
{
    let n = v.len();
    let mut r: Vec<Vec<char>> = Vec::new();
    let mut i: usize = 0;
    proof {
        assert(v@.subrange(0, n as int) =~= v@);
        assert(r.deep_view() + split_ws(v@) =~= split_ws(v@));
    }
    while i < n
        invariant
            n == v@.len(),
            i <= n,
            split_ws(v@) == r.deep_view() + split_ws(v@.subrange(i as int, n as int)),
        decreases n - i,
    {
        if char_is_space(v[i]) {
            proof {
                let rest = v@.subrange(i as int, n as int);
                assert(rest.drop_first() =~= v@.subrange(i + 1, n as int));
            }
            i = i + 1;
        } else {
            let start = i;
            let mut j = i + 1;
            while j < n && !char_is_space(v[j])
                invariant
                    n == v@.len(),
                    start < j <= n,
                    forall|l: int| start <= l < j ==> !is_space(v@[l]),
                decreases n - j,
            {
                j = j + 1;
            }
            let mut tok: Vec<char> = Vec::new();
            let mut k = start;
            while k < j
                invariant
                    start <= k <= j <= v@.len(),
                    tok@ == v@.subrange(start as int, k as int),
                decreases j - k,
            {
                tok.push(v[k]);
                k = k + 1;
                assert(tok@ =~= v@.subrange(start as int, k as int));
            }
            proof {
                let rest = v@.subrange(start as int, n as int);
                assert forall|l: int| 0 <= l < j - start implies !is_space(rest[l]) by {
                    assert(rest[l] == v@[start + l]);
                }
                if j < n {
                    assert(rest[j - start] == v@[j as int]);
                }
                lemma_token_run_eq(rest, j - start);
                assert(rest.subrange(0, j - start) =~= v@.subrange(start as int, j as int));
                assert(rest.subrange(j - start, rest.len() as int) =~= v@.subrange(
                    j as int,
                    n as int,
                ));
                assert(split_ws(rest) == seq![tok@] + split_ws(v@.subrange(j as int, n as int)));
            }
            let ghost old_r = r.deep_view();
            r.push(tok);
            proof {
                assert(r.deep_view() =~~= old_r.push(tok@));
                assert(old_r.push(tok@) =~= old_r + seq![tok@]);
                assert(r.deep_view() + split_ws(v@.subrange(j as int, n as int)) =~= old_r + (
                seq![tok@] + split_ws(v@.subrange(j as int, n as int))));
            }
            i = j;
        }
    }
    proof {
        assert(v@.subrange(n as int, n as int) =~= Seq::<char>::empty());
        assert(r.deep_view() + Seq::<Seq<char>>::empty() =~= r.deep_view());
    }
    r
}

/// Index of the first occurrence of `c` in `s`, or `-1`.
pub open spec fn find_char(s: Seq<char>, c: char) -> int
    decreases s.len(),
{
    if s.len() == 0 {
        -1
    } else if s[0] == c {
        0
    } else if find_char(s.drop_first(), c) < 0 {
        -1
    } else {
        1 + find_char(s.drop_first(), c)
    }
}

/// The pieces of `s` split on `sep`, keeping empty pieces; one more piece
/// than there are separators.
pub open spec fn split_on(s: Seq<char>, sep: char) -> Seq<Seq<char>>
    decreases s.len(),
{
    if find_char(s, sep) < 0 {
        seq![s]
    } else {
        proof {
            lemma_find_char(s, sep);
        }
        seq![s.subrange(0, find_char(s, sep))] + split_on(
            s.subrange(find_char(s, sep) + 1, s.len() as int),
            sep,
        )
    }
}

pub proof fn lemma_find_char(s: Seq<char>, c: char)
    ensures
        find_char(s, c) < s.len(),
        find_char(s, c) >= 0 ==> s[find_char(s, c)] == c,
        forall|j: int| 0 <= j < find_char(s, c) ==> s[j] != c,
        find_char(s, c) < 0 ==> forall|j: int| 0 <= j < s.len() ==> s[j] != c,
    decreases s.len(),
{
    if s.len() > 0 && s[0] != c {
        let t = s.drop_first();
        lemma_find_char(t, c);
        assert forall|j: int| 0 <= j < find_char(s, c) implies s[j] != c by {
            if j > 0 {
                assert(s[j] == t[j - 1]);
            }
        }
        if find_char(s, c) < 0 {
            assert forall|j: int| 0 <= j < s.len() implies s[j] != c by {
                if j > 0 {
                    assert(s[j] == t[j - 1]);
                }
            }
        }
    }
}

/// `find_char` is pinned by its first-witness characterisation.
proof fn lemma_find_char_eq(s: Seq<char>, c: char, m: int)
    requires
        0 <= m <= s.len(),
        forall|l: int| 0 <= l < m ==> s[l] != c,
        m < s.len() ==> s[m] == c,
    ensures
        m < s.len() ==> find_char(s, c) == m,
        m == s.len() ==> find_char(s, c) < 0,
    decreases s.len(),
{
    if s.len() > 0 && s[0] != c {
        assert(m > 0);
        let t = s.drop_first();
        assert forall|l: int| 0 <= l < m - 1 implies t[l] != c by {
            assert(t[l] == s[l + 1]);
        }
        if m - 1 < t.len() {
            assert(t[m - 1] == s[m as int]);
        }
        lemma_find_char_eq(t, c, m - 1);
    }
}

/// The pieces of `v` split on `sep`, keeping empty pieces.
pub fn split_on_char(v: &Vec<char>, sep: char) -> (r: Vec<Vec<char>>)
    ensures
        r.deep_view() == split_on(v@, sep),
{
    let n = v.len();
    let mut r: Vec<Vec<char>> = Vec::new();
    let mut i: usize = 0;
    proof {
        assert(v@.subrange(0, n as int) =~= v@);
        assert(r.deep_view() + split_on(v@, sep) =~= split_on(v@, sep));
    }
    loop
        invariant
            n == v@.len(),
            i <= n,
            split_on(v@, sep) == r.deep_view() + split_on(v@.subrange(i as int, n as int), sep),
        ensures
            r.deep_view() == split_on(v@, sep),
        decreases n - i,
    {
        let start = i;
        let mut j = i;
        while j < n && v[j] != sep
            invariant
                n == v@.len(),
                start <= j <= n,
                forall|l: int| start <= l < j ==> v@[l] != sep,
            decreases n - j,
        {
            j = j + 1;
        }
        let mut piece: Vec<char> = Vec::new();
        let mut k = start;
        while k < j
            invariant
                start <= k <= j <= v@.len(),
                piece@ == v@.subrange(start as int, k as int),
            decreases j - k,
        {
            piece.push(v[k]);
            k = k + 1;
            assert(piece@ =~= v@.subrange(start as int, k as int));
        }
        proof {
            let rest = v@.subrange(start as int, n as int);
            assert forall|l: int| 0 <= l < j - start implies rest[l] != sep by {
                assert(rest[l] == v@[start + l]);
            }
            if j < n {
                assert(rest[j - start] == v@[j as int]);
            }
            lemma_find_char_eq(rest, sep, j - start);
            assert(rest.subrange(0, j - start) =~= piece@);
        }
        let ghost old_r = r.deep_view();
        r.push(piece);
        proof {
            assert(r.deep_view() =~~= old_r.push(piece@));
        }
        if j == n {
            proof {
                let rest = v@.subrange(start as int, n as int);
                assert(split_on(rest, sep) == seq![piece@]);
                assert(r.deep_view() =~= old_r + seq![piece@]);
            }
            return r;
        }
        proof {
            let rest = v@.subrange(start as int, n as int);
            assert(rest.subrange(j - start + 1, rest.len() as int) =~= v@.subrange(
                j + 1,
                n as int,
            ));
            assert(split_on(rest, sep) == seq![piece@] + split_on(
                v@.subrange(j + 1, n as int),
                sep,
            ));
            assert(r.deep_view() + split_on(v@.subrange(j + 1, n as int), sep) =~= old_r + (
            seq![piece@] + split_on(v@.subrange(j + 1, n as int), sep)));
        }
        i = j + 1;
    }
}

/// True iff the two character vectors hold the same text.
pub fn eq_chars(a: &Vec<char>, b: &Vec<char>) -> (r: bool)
    ensures
        r == (a@ == b@),
{
    if a.len() != b.len() {
        return false;
    }
    let n = a.len();
    let mut i: usize = 0;
    while i < n
        invariant
            n == a@.len() == b@.len(),
            i <= n,
            forall|j: int| 0 <= j < i ==> a@[j] == b@[j],
        decreases n - i,
    {
        if a[i] != b[i] {
            return false;
        }
        i = i + 1;
    }
    proof {
        assert(a@ =~= b@);
    }
    true
}

/// `s` with every non-overlapping occurrence of `pat` replaced by `to`,
/// scanning left to right; replacements are not rescanned. An empty pattern
/// leaves `s` unchanged.
pub open spec fn replace_all(s: Seq<char>, pat: Seq<char>, to: Seq<char>) -> Seq<char>
    decreases s.len(),
{
    if pat.len() == 0 || s.len() < pat.len() {
        s
    } else if s.subrange(0, pat.len() as int) == pat {
        to + replace_all(s.subrange(pat.len() as int, s.len() as int), pat, to)
    } else {
        seq![s[0]] + replace_all(s.drop_first(), pat, to)
    }
}

/// Replacing a pattern by itself changes nothing.
pub proof fn lemma_replace_all_self(s: Seq<char>, pat: Seq<char>)
    ensures
        replace_all(s, pat, pat) == s,
    decreases s.len(),
{
    if pat.len() == 0 || s.len() < pat.len() {
    } else if s.subrange(0, pat.len() as int) == pat {
        lemma_replace_all_self(s.subrange(pat.len() as int, s.len() as int), pat);
        assert(pat + s.subrange(pat.len() as int, s.len() as int) =~= s);
    } else {
        lemma_replace_all_self(s.drop_first(), pat);
        assert(seq![s[0]] + s.drop_first() =~= s);
    }
}

/// True iff `pat` occurs at position `i` of `v`.
fn eq_at(v: &Vec<char>, i: usize, pat: &Vec<char>) -> (b: bool)
    requires
        i + pat@.len() <= v@.len(),
    ensures
        b == (v@.subrange(i as int, i + pat@.len()) == pat@),
{
    let n = v.len();
    let m = pat.len();
    assert(i + m <= n);
    let mut k: usize = 0;
    while k < m
        invariant
            n == v@.len(),
            i + m <= n,
            m == pat@.len(),
            k <= m,
            forall|l: int| 0 <= l < k ==> v@[i + l] == pat@[l],
        decreases m - k,
    {
        if v[i + k] != pat[k] {
            proof {
                assert(v@.subrange(i as int, i + pat@.len())[k as int] == v@[i + k]);
            }
            return false;
        }
        k = k + 1;
    }
    proof {
        assert(v@.subrange(i as int, i + pat@.len()) =~= pat@);
    }
    true
}

/// `v` with every occurrence of `pat` replaced by `to`.
pub fn replace_all_chars(v: &Vec<char>, pat: &Vec<char>, to: &Vec<char>) -> (r: Vec<char>)
    ensures
        r@ == replace_all(v@, pat@, to@),
{
    let n = v.len();
    let m = pat.len();
    let mut out: Vec<char> = Vec::new();
    if m == 0 {
        let mut i: usize = 0;
        while i < n
            invariant
                n == v@.len(),
                i <= n,
                out@ == v@.subrange(0, i as int),
            decreases n - i,
        {
            out.push(v[i]);
            i = i + 1;
            assert(out@ =~= v@.subrange(0, i as int));
        }
        assert(out@ =~= v@);
        return out;
    }
    let mut i: usize = 0;
    proof {
        assert(v@.subrange(0, n as int) =~= v@);
        assert(out@ + replace_all(v@, pat@, to@) =~= replace_all(v@, pat@, to@));
    }
    while i < n
        invariant
            n == v@.len(),
            m == pat@.len(),
            m >= 1,
            i <= n,
            replace_all(v@, pat@, to@) == out@ + replace_all(
                v@.subrange(i as int, n as int),
                pat@,
                to@,
            ),
        decreases n - i,
    {
        let ghost rest = v@.subrange(i as int, n as int);
        if m <= n - i && eq_at(v, i, pat) {
            proof {
                assert(rest.subrange(0, m as int) =~= v@.subrange(i as int, i + m));
                assert(rest.subrange(m as int, rest.len() as int) =~= v@.subrange(
                    i + m,
                    n as int,
                ));
            }
            let ghost old_out = out@;
            let mut k: usize = 0;
            while k < to.len()
                invariant
                    k <= to@.len(),
                    out@ == old_out + to@.subrange(0, k as int),
                decreases to@.len() - k,
            {
                out.push(to[k]);
                k = k + 1;
                assert(out@ =~= old_out + to@.subrange(0, k as int));
            }
            proof {
                assert(to@.subrange(0, to@.len() as int) =~= to@);
                assert(out@ + replace_all(v@.subrange(i + m, n as int), pat@, to@) =~= old_out + (
                to@ + replace_all(v@.subrange(i + m, n as int), pat@, to@)));
            }
            i = i + m;
        } else {
            proof {
                if i + m <= n as int {
                    assert(rest.subrange(0, m as int) =~= v@.subrange(i as int, i + m));
                }
                assert(rest.drop_first() =~= v@.subrange(i + 1, n as int));
                if rest.len() < m {
                    assert(seq![rest[0]] + rest.drop_first() =~= rest);
                    assert(rest.drop_first().len() < m);
                }
                assert(replace_all(rest, pat@, to@) == seq![v@[i as int]] + replace_all(
                    v@.subrange(i + 1, n as int),
                    pat@,
                    to@,
                ));
            }
            let ghost old_out = out@;
            out.push(v[i]);
            proof {
                assert(out@ + replace_all(v@.subrange(i + 1, n as int), pat@, to@) =~= old_out + (
                seq![v@[i as int]] + replace_all(v@.subrange(i + 1, n as int), pat@, to@)));
            }
            i = i + 1;
        }
    }
    proof {
        assert(v@.subrange(n as int, n as int) =~= Seq::<char>::empty());
        assert(out@ + Seq::<char>::empty() =~= out@);
    }
    out
}

/// The parts joined with `sep` between consecutive parts.
pub open spec fn joined(parts: Seq<Seq<char>>, sep: Seq<char>) -> Seq<char>
    decreases parts.len(),
{
    if parts.len() == 0 {
        Seq::empty()
    } else if parts.len() == 1 {
        parts[0]
    } else {
        parts[0] + sep + joined(parts.drop_first(), sep)
    }
}

proof fn lemma_joined_snoc(p: Seq<Seq<char>>, sep: Seq<char>, i: int)
    requires
        1 <= i < p.len(),
    ensures
        joined(p.take(i + 1), sep) == joined(p.take(i), sep) + sep + p[i],
    decreases i,
{
    let a = p.take(i + 1);
    let b = p.take(i);
    if i == 1 {
        assert(a.len() == 2 && a[0] == p[0] && b.len() == 1 && b[0] == p[0]);
        assert(a.drop_first() =~= seq![p[1]]);
        assert(joined(seq![p[1]], sep) == p[1]);
        assert(joined(a, sep) == p[0] + sep + p[1]);
        assert(joined(b, sep) == p[0]);
    } else {
        let q = p.drop_first();
        lemma_joined_snoc(q, sep, i - 1);
        assert(a.drop_first() =~= q.take(i));
        assert(b.drop_first() =~= q.take(i - 1));
        assert(q[i - 1] == p[i]);
        assert(joined(a, sep) == p[0] + sep + joined(q.take(i), sep));
        assert(joined(b, sep) == p[0] + sep + joined(q.take(i - 1), sep));
        assert((p[0] + sep + (joined(q.take(i - 1), sep) + sep + q[i - 1])) =~= (p[0] + sep
            + joined(q.take(i - 1), sep)) + sep + q[i - 1]);
    }
}

/// The strings of `parts` joined with `sep`.
pub fn join_strings(parts: &Vec<String>, sep: &str) -> (r: String)
    ensures
        r@ == joined(parts.deep_view(), sep@),
{
    let mut out = String::new();
    let n = parts.len();
    if n == 0 {
        return out;
    }
    out.append(parts[0].as_str());
    proof {
        assert(parts.deep_view().take(1) =~= seq![parts@[0]@]);
        assert(Seq::<char>::empty() + parts@[0]@ =~= parts@[0]@);
    }
    let mut i: usize = 1;
    while i < n
        invariant
            n == parts@.len(),
            1 <= i <= n,
            out@ == joined(parts.deep_view().take(i as int), sep@),
        decreases n - i,
    {
        out.append(sep);
        out.append(parts[i].as_str());
        proof {
            lemma_joined_snoc(parts.deep_view(), sep@, i as int);
        }
        i = i + 1;
    }
    proof {
        assert(parts.deep_view().take(n as int) =~= parts.deep_view());
    }
    out
}

/// The decimal digit character for `d`.
pub open spec fn dec_digit(d: int) -> char {
    if d == 0 {
        '0'
    } else if d == 1 {
        '1'
    } else if d == 2 {
        '2'
    } else if d == 3 {
        '3'
    } else if d == 4 {
        '4'
    } else if d == 5 {
        '5'
    } else if d == 6 {
        '6'
    } else if d == 7 {
        '7'
    } else if d == 8 {
        '8'
    } else {
        '9'
    }
}

/// The decimal digits of `n`, most significant first, with no leading zero.
pub open spec fn dec_str(n: nat) -> Seq<char>
    decreases n,
{
    if n < 10 {
        seq![dec_digit(n as int)]
    } else {
        dec_str(n / 10).push(dec_digit((n % 10) as int))
    }
}

fn dec_digit_char(d: u64) -> (c: char)
    requires
        d < 10,
    ensures
        c == dec_digit(d as int),
{
    if d == 0 {
        '0'
    } else if d == 1 {
        '1'
    } else if d == 2 {
        '2'
    } else if d == 3 {
        '3'
    } else if d == 4 {
        '4'
    } else if d == 5 {
        '5'
    } else if d == 6 {
        '6'
    } else if d == 7 {
        '7'
    } else if d == 8 {
        '8'
    } else {
        '9'
    }
}

/// The decimal rendering of `n`.
pub fn u64_to_decimal(n: u64) -> (s: String)
    ensures
        s@ == dec_str(n as nat),
{
    let mut low: Vec<char> = Vec::new();
    let mut cur: u64 = n;
    while cur >= 10
        invariant
            dec_str(n as nat) == dec_str(cur as nat) + low@.reverse(),
        decreases cur,
    {
        let d = cur % 10;
        low.push(dec_digit_char(d));
        proof {
            assert(dec_str(cur as nat) == dec_str((cur as nat) / 10).push(
                dec_digit((cur % 10) as int),
            ));
            assert(low@.reverse() =~= seq![dec_digit((cur % 10) as int)] + low@.drop_last()
                .reverse());
            assert(dec_str((cur as nat) / 10) + low@.reverse() =~= (dec_str((cur as nat) / 10).push(
                dec_digit((cur % 10) as int),
            )) + low@.drop_last().reverse());
        }
        cur = cur / 10;
    }
    let mut s = String::new();
    s.push(dec_digit_char(cur));
    proof {
        assert(s@ =~= dec_str(cur as nat));
    }
    let mut k: usize = low.len();
    while k > 0
        invariant
            k <= low@.len(),
            s@ == dec_str(cur as nat) + low@.reverse().take(low@.len() - k),
        decreases k,
    {
        k = k - 1;
        s.push(low[k]);
        proof {
            assert(low@.reverse()[low@.len() - k - 1] == low@[k as int]);
            assert(s@ =~= dec_str(cur as nat) + low@.reverse().take(low@.len() - k));
        }
    }
    proof {
        assert(low@.reverse().take(low@.len() as int) =~= low@.reverse());
    }
    s
}

} // verus!
