//! Character-level text operations used throughout the library.
//!
//! Strings are modelled by their `Seq<char>` view; every operation here is
//! specified over that view.
use vstd::prelude::*;

verus! {

/// `needle` occurs in `hay` starting at index `i`.
pub open spec fn occurs_at(hay: Seq<char>, needle: Seq<char>, i: int) -> bool {
    &&& 0 <= i
    &&& i + needle.len() <= hay.len()
    &&& hay.subrange(i, i + needle.len()) == needle
}

/// `needle` occurs somewhere in `hay` (the empty needle occurs everywhere).
pub open spec fn has_sub(hay: Seq<char>, needle: Seq<char>) -> bool {
    exists|i: int| occurs_at(hay, needle, i)
}

fn chars_match_at(hay: &Vec<char>, needle: &Vec<char>, i: usize) -> (r: bool)
    requires
        i + needle.len() <= hay.len(),
    ensures
        r == occurs_at(hay@, needle@, i as int),
{
    let n = needle.len();
    let mut j: usize = 0;
    while j < n
        invariant
            j <= n,
            n == needle.len(),
            i + n <= hay.len(),
            forall|k: int| 0 <= k < j ==> hay@[i + k] == needle@[k],
        decreases n - j,
    {
        if hay[i + j] != needle[j] {
            assert(hay@.subrange(i as int, i + n)[j as int] != needle@[j as int]);
            return false;
        }
        j = j + 1;
    }
    assert(hay@.subrange(i as int, i + n) =~= needle@);
    true
}

/// The characters of `s`, in order.
pub fn chars_of(s: &str) -> (v: Vec<char>)
    ensures
        v@ == s@,
{
    let n = s.unicode_len();
    let mut v: Vec<char> = Vec::new();
    let mut i: usize = 0;
    while i < n
        invariant
            i <= n,
            n == s@.len(),
            v@ == s@.subrange(0, i as int),
        decreases n - i,
    {
        let c = s.get_char(i);
        v.push(c);
        i = i + 1;
        assert(v@ =~= s@.subrange(0, i as int));
    }
    assert(v@ =~= s@);
    v
}

/// Whether `needle` occurs in `hay` (as `str::contains` with a string pattern).
pub fn vec_contains(hay: &Vec<char>, needle: &Vec<char>) -> (r: bool)
    ensures
        r == has_sub(hay@, needle@),
{
    if needle.len() > hay.len() {
        assert forall|i: int| !occurs_at(hay@, needle@, i) by {}
        return false;
    }
    let last = hay.len() - needle.len();
    let mut i: usize = 0;
    loop
        invariant
            i <= last,
            last + needle.len() == hay.len(),
            forall|k: int| 0 <= k < i ==> !occurs_at(hay@, needle@, k),
        ensures
            forall|k: int| 0 <= k <= last ==> !occurs_at(hay@, needle@, k),
        decreases last - i,
    {
        if chars_match_at(hay, needle, i) {
            return true;
        }
        if i == last {
            break;
        }
        i = i + 1;
    }
    assert forall|k: int| !occurs_at(hay@, needle@, k) by {
        if 0 <= k <= last {
        }
    }
    false
}

/// The first index at or after `i` where `needle` occurs in `hay`.
pub open spec fn first_from(hay: Seq<char>, needle: Seq<char>, i: int) -> Option<int>
    decreases hay.len() + 1 - i,
{
    if i < 0 || i > hay.len() {
        None
    } else if occurs_at(hay, needle, i) {
        Some(i)
    } else {
        first_from(hay, needle, i + 1)
    }
}

/// The first index where `needle` occurs in `hay` (`str::find`).
pub open spec fn first_occurrence(hay: Seq<char>, needle: Seq<char>) -> Option<int> {
    first_from(hay, needle, 0)
}

/// The index of the first occurrence of `needle` in `hay`.
pub fn vec_find(hay: &Vec<char>, needle: &Vec<char>) -> (r: Option<usize>)
    ensures
        r matches Some(i) ==> first_occurrence(hay@, needle@) == Some(i as int) && i + needle@.len()
            <= hay@.len(),
        r is None ==> first_occurrence(hay@, needle@) is None,
{
    if needle.len() > hay.len() {
        assert(first_from(hay@, needle@, 0) is None) by {
            lemma_first_from_none(hay@, needle@, 0);
        }
        return None;
    }
    let last = hay.len() - needle.len();
    let mut i: usize = 0;
    loop
        invariant
            i <= last,
            last + needle.len() == hay.len(),
            first_from(hay@, needle@, 0) == first_from(hay@, needle@, i as int),
        ensures
            first_from(hay@, needle@, 0) == first_from(hay@, needle@, last + 1),
        decreases last - i,
    {
        if chars_match_at(hay, needle, i) {
            return Some(i);
        }
        if i == last {
            break;
        }
        i = i + 1;
    }
    proof {
        lemma_first_from_none(hay@, needle@, last + 1);
    }
    None
}

proof fn lemma_first_from_none(hay: Seq<char>, needle: Seq<char>, i: int)
    requires
        0 <= i,
        i + needle.len() > hay.len(),
    ensures
        first_from(hay, needle, i) is None,
    decreases hay.len() + 1 - i,
{
    if i <= hay.len() {
        lemma_first_from_none(hay, needle, i + 1);
    }
}

/// The first index where `needle` occurs in `s` (`str::find`, counted in characters).
pub fn str_find(s: &str, needle: &str) -> (r: Option<usize>)
    ensures
        r matches Some(i) ==> first_occurrence(s@, needle@) == Some(i as int) && i + needle@.len() <= s@.len(),
        r is None ==> first_occurrence(s@, needle@) is None,
{
    let h = chars_of(s);
    let n = chars_of(needle);
    vec_find(&h, &n)
}

/// Some word of `words` occurs in `hay`.
pub open spec fn mentions_any(hay: Seq<char>, words: Seq<Seq<char>>) -> bool {
    exists|i: int| 0 <= i < words.len() && has_sub(hay, #[trigger] words[i])
}

/// The views of a vector of string slices.
pub open spec fn views_of(ws: Seq<&str>) -> Seq<Seq<char>> {
    Seq::new(ws.len(), |i: int| ws[i]@)
}

/// Whether some word of `words` occurs in `hay`.
pub fn contains_any(hay: &Vec<char>, words: &Vec<&str>) -> (r: bool)
    ensures
        r == mentions_any(hay@, views_of(words@)),
{
    let ghost wv = views_of(words@);
    let n = words.len();
    let mut i: usize = 0;
    while i < n
        invariant
            i <= n,
            n == words.len(),
            wv == views_of(words@),
            forall|k: int| 0 <= k < i ==> !has_sub(hay@, #[trigger] wv[k]),
        decreases n - i,
    {
        let w = chars_of(words[i]);
        if vec_contains(hay, &w) {
            assert(has_sub(hay@, wv[i as int]));
            return true;
        }
        i = i + 1;
    }
    false
}

/// Whether `needle` occurs in `hay`.
pub fn str_contains(hay: &str, needle: &str) -> (r: bool)
    ensures
        r == has_sub(hay@, needle@),
{
    let h = chars_of(hay);
    let n = chars_of(needle);
    vec_contains(&h, &n)
}

/// Two strings hold the same characters.
pub fn str_eq(a: &str, b: &str) -> (r: bool)
    ensures
        r == (a@ == b@),
{
    let x = chars_of(a);
    let y = chars_of(b);
    vec_eq(&x, &y)
}

/// Two character vectors are equal.
pub fn vec_eq(x: &Vec<char>, y: &Vec<char>) -> (r: bool)
    ensures
        r == (x@ == y@),
{
    if x.len() != y.len() {
        return false;
    }
    let n = x.len();
    let mut i: usize = 0;
    while i < n
        invariant
            i <= n,
            n == x.len(),
            n == y.len(),
            forall|k: int| 0 <= k < i ==> x@[k] == y@[k],
        decreases n - i,
    {
        if x[i] != y[i] {
            return false;
        }
        i = i + 1;
    }
    assert(x@ =~= y@);
    true
}

/// Appends all characters of `src` to `out`.
pub fn push_all(out: &mut Vec<char>, src: &Vec<char>)
    ensures
        final(out)@ == old(out)@ + src@,
{
    let n = src.len();
    let mut i: usize = 0;
    while i < n
        invariant
            i <= n,
            n == src.len(),
            out@ == old(out)@ + src@.subrange(0, i as int),
        decreases n - i,
    {
        out.push(src[i]);
        i = i + 1;
        assert(out@ =~= old(out)@ + src@.subrange(0, i as int));
    }
    assert(src@.subrange(0, n as int) =~= src@);
}

/// Appends all characters of `src` to `out`.
pub fn push_str(out: &mut Vec<char>, src: &str)
    ensures
        final(out)@ == old(out)@ + src@,
{
    let v = chars_of(src);
    push_all(out, &v);
}

/// The string made of the characters of `v`.
#[verifier::external_body]
pub(crate) fn string_of(v: &Vec<char>) -> (s: String)
    ensures
        s@ == v@,
{
    v.iter().collect::<String>()
}

/// A fresh string holding the characters of `s`.
pub fn owned(s: &str) -> (r: String)
    ensures
        r@ == s@,
{
    s.to_owned()
}

/// The characters of `v` from `a` up to `b`.
pub fn vec_slice(v: &Vec<char>, a: usize, b: usize) -> (r: Vec<char>)
    requires
        a <= b <= v@.len(),
    ensures
        r@ == v@.subrange(a as int, b as int),
{
    let mut out: Vec<char> = Vec::new();
    let mut i: usize = a;
    while i < b
        invariant
            a <= i <= b,
            b <= v@.len(),
            out@ == v@.subrange(a as int, i as int),
        decreases b - i,
    {
        out.push(v[i]);
        i = i + 1;
        assert(out@ =~= v@.subrange(a as int, i as int));
    }
    out
}

// ---------------------------------------------------------------- lines and words

/// The index of the first `c` in `s` at or after `i`.
pub open spec fn char_index_from(s: Seq<char>, c: char, i: int) -> Option<int>
    decreases s.len() - i,
{
    if i < 0 || i >= s.len() {
        None
    } else if s[i] == c {
        Some(i)
    } else {
        char_index_from(s, c, i + 1)
    }
}

/// `line` without one trailing carriage return.
pub open spec fn strip_cr(line: Seq<char>) -> Seq<char> {
    if line.len() > 0 && line[line.len() - 1] == '\r' {
        line.subrange(0, line.len() - 1)
    } else {
        line
    }
}

/// `str::lines`: pieces ended by `\n` (a `\r` before it dropped); a last piece without `\n` as is.
pub open spec fn lines_of(s: Seq<char>) -> Seq<Seq<char>>
    decreases s.len(),
{
    if s.len() == 0 {
        seq![]
    } else {
        match char_index_from(s, '\n', 0) {
            Some(i) => if 0 <= i < s.len() {
                seq![strip_cr(s.subrange(0, i))] + lines_of(s.subrange(i + 1, s.len() as int))
            } else {
                seq![s]
            },
            None => seq![s],
        }
    }
}

proof fn lemma_char_index_from(s: Seq<char>, c: char, i: int)
    requires
        0 <= i,
    ensures
        char_index_from(s, c, i) matches Some(j) ==> i <= j < s.len() && s[j] == c && forall|m: int|
            i <= m < j ==> s[m] != c,
        char_index_from(s, c, i) is None ==> forall|m: int| i <= m < s.len() ==> s[m] != c,
    decreases s.len() - i,
{
    if i < s.len() && s[i] != c {
        lemma_char_index_from(s, c, i + 1);
    }
}

proof fn lemma_char_index_shift(s: Seq<char>, c: char, a: int, i: int)
    requires
        0 <= a <= i,
        a <= s.len(),
    ensures
        char_index_from(s, c, i) == match char_index_from(s.subrange(a, s.len() as int), c, i - a) {
            Some(j) => Some(j + a),
            None => None,
        },
    decreases s.len() - i,
{
    if i < s.len() && s[i] != c {
        lemma_char_index_shift(s, c, a, i + 1);
    }
}

/// The lines of `s` (`str::lines`).
pub fn vec_lines(s: &Vec<char>) -> (r: Vec<Vec<char>>)
    ensures
        r@.len() == lines_of(s@).len(),
        forall|k: int| 0 <= k < r@.len() ==> (#[trigger] r@[k])@ == lines_of(s@)[k],
{
    let n = s.len();
    let mut out: Vec<Vec<char>> = Vec::new();
    let ghost mut done: Seq<Seq<char>> = seq![];
    let mut start: usize = 0;
    let mut i: usize = 0;
    assert(s@.subrange(0, n as int) =~= s@);
    while i < n
        invariant
            start <= i <= n,
            n == s@.len(),
            out@.len() == done.len(),
            forall|k: int| 0 <= k < out@.len() ==> (#[trigger] out@[k])@ == done[k],
            forall|m: int| start <= m < i ==> s@[m] != '\n',
            lines_of(s@) == done + lines_of(s@.subrange(start as int, n as int)),
        decreases n - i,
    {
        if s[i] == '\n' {
            let ghost rest = s@.subrange(start as int, n as int);
            proof {
                lemma_char_index_shift(s@, '\n', start as int, start as int);
                lemma_char_index_from(rest, '\n', 0);
                assert(char_index_from(rest, '\n', 0) == Some((i - start) as int)) by {
                    assert(forall|m: int| 0 <= m < i - start ==> rest[m] == s@[start + m]);
                    lemma_char_index_from(rest, '\n', 0);
                    if let Some(j) = char_index_from(rest, '\n', 0) {
                        if j < i - start {
                            assert(rest[j] == s@[start + j]);
                        } else if j > i - start {
                            assert(rest[i - start] == s@[i as int]);
                        }
                    } else {
                        assert(rest[i - start] == s@[i as int]);
                    }
                }
                assert(rest.subrange(0, i - start) =~= s@.subrange(start as int, i as int));
                assert(rest.subrange(i - start + 1, rest.len() as int) =~= s@.subrange(i + 1, n as int));
            }
            let mut line = vec_slice(s, start, i);
            if line.len() > 0 && line[line.len() - 1] == '\r' {
                line.pop();
            }
            assert(line@ =~= strip_cr(s@.subrange(start as int, i as int)));
            proof {
                done = done.push(line@);
            }
            out.push(line);
            assert(lines_of(s@) =~= done + lines_of(s@.subrange(i + 1, n as int)));
            start = i + 1;
        }
        i = i + 1;
    }
    if start < n {
        let ghost rest = s@.subrange(start as int, n as int);
        proof {
            lemma_char_index_from(rest, '\n', 0);
            if let Some(j) = char_index_from(rest, '\n', 0) {
                assert(rest[j] == s@[start + j]);
            }
        }
        let line = vec_slice(s, start, n);
        proof {
            done = done.push(line@);
        }
        out.push(line);
        assert(lines_of(s@) =~= done);
    } else {
        assert(s@.subrange(start as int, n as int) =~= Seq::<char>::empty());
        assert(lines_of(s@) =~= done);
    }
    out
}

/// Scanning `s` from `i` for words (maximal runs of non-white-space): `cur` is the word being
/// read and `acc` the words already complete.
pub open spec fn scan_words(s: Seq<char>, i: int, cur: Seq<char>, acc: Seq<Seq<char>>) -> Seq<Seq<char>>
    decreases s.len() - i,
{
    if i < 0 || i >= s.len() {
        if cur.len() > 0 { acc.push(cur) } else { acc }
    } else if is_ws(s[i]) {
        scan_words(s, i + 1, seq![], if cur.len() > 0 { acc.push(cur) } else { acc })
    } else {
        scan_words(s, i + 1, cur.push(s[i]), acc)
    }
}

/// `str::split_whitespace`: the maximal runs of non-white-space characters, in order.
pub open spec fn words_of(s: Seq<char>) -> Seq<Seq<char>> {
    scan_words(s, 0, seq![], seq![])
}

/// The words of `s` (`str::split_whitespace`).
pub fn vec_words(s: &Vec<char>) -> (r: Vec<Vec<char>>)
    ensures
        r@.len() == words_of(s@).len(),
        forall|k: int| 0 <= k < r@.len() ==> (#[trigger] r@[k])@ == words_of(s@)[k],
{
    let n = s.len();
    let mut out: Vec<Vec<char>> = Vec::new();
    let ghost mut acc: Seq<Seq<char>> = seq![];
    let mut cur: Vec<char> = Vec::new();
    let mut i: usize = 0;
    while i < n
        invariant
            i <= n,
            n == s@.len(),
            out@.len() == acc.len(),
            forall|k: int| 0 <= k < out@.len() ==> (#[trigger] out@[k])@ == acc[k],
            words_of(s@) == scan_words(s@, i as int, cur@, acc),
        decreases n - i,
    {
        if char_is_ws(s[i]) {
            if cur.len() > 0 {
                proof {
                    acc = acc.push(cur@);
                }
                out.push(cur);
                cur = Vec::new();
            } else {
                cur = Vec::new();
            }
            assert(cur@ =~= seq![]);
        } else {
            cur.push(s[i]);
        }
        i = i + 1;
    }
    if cur.len() > 0 {
        proof {
            acc = acc.push(cur@);
        }
        out.push(cur);
    }
    out
}

// ---------------------------------------------------------------- replace

/// Replacing every leftmost, non-overlapping occurrence of a non-empty `pat`.
pub open spec fn replace_nonempty(s: Seq<char>, pat: Seq<char>, rep: Seq<char>) -> Seq<char>
    decreases s.len(),
{
    if pat.len() == 0 || s.len() < pat.len() {
        s
    } else if s.subrange(0, pat.len() as int) == pat {
        rep + replace_nonempty(s.subrange(pat.len() as int, s.len() as int), pat, rep)
    } else {
        seq![s[0]] + replace_nonempty(s.subrange(1, s.len() as int), pat, rep)
    }
}

/// What replacing the empty pattern gives: `rep` before every character and at the end.
pub open spec fn interleave(s: Seq<char>, rep: Seq<char>) -> Seq<char>
    decreases s.len(),
{
    if s.len() == 0 {
        rep
    } else {
        rep + seq![s[0]] + interleave(s.subrange(1, s.len() as int), rep)
    }
}

/// `str::replace(s, pat, rep)` over character sequences.
pub open spec fn replaced(s: Seq<char>, pat: Seq<char>, rep: Seq<char>) -> Seq<char> {
    if pat.len() == 0 {
        interleave(s, rep)
    } else {
        replace_nonempty(s, pat, rep)
    }
}

/// Replaces all occurrences of `pat` in `s` by `rep`.
pub fn vec_replace(s: &Vec<char>, pat: &Vec<char>, rep: &Vec<char>) -> (r: Vec<char>)
    ensures
        r@ == replaced(s@, pat@, rep@),
{
    let n = s.len();
    let m = pat.len();
    let mut out: Vec<char> = Vec::new();
    let mut i: usize = 0;
    assert(s@.subrange(0, n as int) =~= s@);
    if m == 0 {
        while i < n
            invariant
                i <= n,
                n == s.len(),
                interleave(s@, rep@) == out@ + interleave(s@.subrange(i as int, n as int), rep@),
            decreases n - i,
        {
            let ghost rest = s@.subrange(i as int, n as int);
            assert(rest.subrange(1, rest.len() as int) =~= s@.subrange(i + 1, n as int));
            push_all(&mut out, rep);
            out.push(s[i]);
            i = i + 1;
            assert(out@ + interleave(s@.subrange(i as int, n as int), rep@) =~= out@ + interleave(
                s@.subrange(i as int, n as int),
                rep@,
            ));
        }
        push_all(&mut out, rep);
        assert(s@.subrange(n as int, n as int) =~= Seq::<char>::empty());
        assert(s@.subrange(0, n as int) =~= s@);
        return out;
    }
    assert(s@.subrange(0, n as int) =~= s@);
    while i < n
        invariant
            i <= n,
            n == s.len(),
            m == pat.len(),
            m > 0,
            replace_nonempty(s@, pat@, rep@) == out@ + replace_nonempty(
                s@.subrange(i as int, n as int),
                pat@,
                rep@,
            ),
        decreases n - i,
    {
        let ghost rest = s@.subrange(i as int, n as int);
        if m <= n - i && chars_match_at(s, pat, i) {
            assert(rest.subrange(0, m as int) =~= s@.subrange(i as int, i + m));
            assert(rest.subrange(m as int, rest.len() as int) =~= s@.subrange(i + m, n as int));
            push_all(&mut out, rep);
            i = i + m;
        } else {
            if m <= n - i {
                assert(rest.subrange(0, m as int) =~= s@.subrange(i as int, i + m));
            }
            assert(rest.subrange(1, rest.len() as int) =~= s@.subrange(i + 1, n as int));
            out.push(s[i]);
            i = i + 1;
        }
    }
    assert(s@.subrange(n as int, n as int) =~= Seq::<char>::empty());
    out
}

/// `s.replace(pat, rep)`.
pub fn str_replace(s: &str, pat: &str, rep: &str) -> (r: String)
    ensures
        r@ == replaced(s@, pat@, rep@),
{
    let sv = chars_of(s);
    let pv = chars_of(pat);
    let rv = chars_of(rep);
    let out = vec_replace(&sv, &pv, &rv);
    string_of(&out)
}

// ---------------------------------------------------------------- joining

/// The parts joined with `sep` between consecutive parts.
pub open spec fn joined(parts: Seq<Seq<char>>, sep: Seq<char>) -> Seq<char>
    decreases parts.len(),
{
    if parts.len() == 0 {
        seq![]
    } else if parts.len() == 1 {
        parts[0]
    } else {
        joined(parts.subrange(0, parts.len() - 1), sep) + sep + parts[parts.len() - 1]
    }
}

/// The views of a sequence of strings.
pub open spec fn strings_view(v: Seq<String>) -> Seq<Seq<char>> {
    Seq::new(v.len(), |i: int| v[i]@)
}

/// The views of name-value pairs.
pub open spec fn pairs_view(v: Seq<(String, String)>) -> Seq<(Seq<char>, Seq<char>)> {
    Seq::new(v.len(), |i: int| (v[i].0@, v[i].1@))
}

/// A copy of name-value pairs.
pub fn copy_pairs(v: &Vec<(String, String)>) -> (r: Vec<(String, String)>)
    ensures
        pairs_view(r@) == pairs_view(v@),
{
    let n = v.len();
    let mut out: Vec<(String, String)> = Vec::new();
    let mut i: usize = 0;
    while i < n
        invariant
            i <= n,
            n == v@.len(),
            out@.len() == i,
            forall|k: int| 0 <= k < i ==> (#[trigger] out@[k]).0@ == v@[k].0@ && out@[k].1@ == v@[k].1@,
        decreases n - i,
    {
        out.push((v[i].0.clone(), v[i].1.clone()));
        i = i + 1;
    }
    assert(pairs_view(out@) =~= pairs_view(v@));
    out
}

/// `parts.join(sep)`.
pub fn join_strings(parts: &Vec<String>, sep: &str) -> (r: String)
    ensures
        r@ == joined(strings_view(parts@), sep@),
{
    let ghost pv = strings_view(parts@);
    let n = parts.len();
    let mut out: Vec<char> = Vec::new();
    let mut i: usize = 0;
    while i < n
        invariant
            i <= n,
            n == parts@.len(),
            pv == strings_view(parts@),
            out@ == joined(pv.subrange(0, i as int), sep@),
        decreases n - i,
    {
        if i > 0 {
            push_str(&mut out, sep);
        }
        push_str(&mut out, parts[i].as_str());
        let ghost next = pv.subrange(0, i + 1);
        assert(next.subrange(0, i as int) =~= pv.subrange(0, i as int));
        i = i + 1;
        assert(out@ =~= joined(pv.subrange(0, i as int), sep@));
    }
    assert(pv.subrange(0, n as int) =~= pv);
    string_of(&out)
}

// ---------------------------------------------------------------- numbers

/// The decimal digit for `d < 10`.
pub open spec fn digit(d: nat) -> char {
    if d == 0 { '0' } else if d == 1 { '1' } else if d == 2 { '2' } else if d == 3 { '3' }
    else if d == 4 { '4' } else if d == 5 { '5' } else if d == 6 { '6' } else if d == 7 { '7' }
    else if d == 8 { '8' } else { '9' }
}

/// The decimal notation of `n`, without sign or leading zeros.
pub open spec fn decimal(n: nat) -> Seq<char>
    decreases n,
{
    if n < 10 {
        seq![digit(n)]
    } else {
        decimal(n / 10).push(digit(n % 10))
    }
}

fn digit_char(d: u64) -> (c: char)
    requires
        d < 10,
    ensures
        c == digit(d as nat),
{
    if d == 0 { '0' } else if d == 1 { '1' } else if d == 2 { '2' } else if d == 3 { '3' }
    else if d == 4 { '4' } else if d == 5 { '5' } else if d == 6 { '6' } else if d == 7 { '7' }
    else if d == 8 { '8' } else { '9' }
}

/// A decimal notation is never empty.
pub proof fn lemma_decimal_len(n: nat)
    ensures
        decimal(n).len() >= 1,
        n >= 10 ==> decimal(n).len() >= 2,
    decreases n,
{
    if n >= 10 {
        lemma_decimal_len(n / 10);
    }
}

/// Different numbers have different decimal notations.
pub proof fn lemma_decimal_injective(a: nat, b: nat)
    requires
        decimal(a) == decimal(b),
    ensures
        a == b,
    decreases a,
{
    lemma_decimal_len(a);
    lemma_decimal_len(b);
    if a < 10 && b < 10 {
        assert(decimal(a)[0] == digit(a));
        assert(decimal(b)[0] == digit(b));
    } else if a >= 10 && b >= 10 {
        let da = decimal(a);
        let db = decimal(b);
        assert(da[da.len() - 1] == digit(a % 10));
        assert(db[db.len() - 1] == digit(b % 10));
        assert(decimal(a / 10) =~= da.subrange(0, da.len() - 1));
        assert(decimal(b / 10) =~= db.subrange(0, db.len() - 1));
        lemma_decimal_injective(a / 10, b / 10);
    }
}

/// Appends the decimal notation of `n` to `out`.
pub fn push_decimal(out: &mut Vec<char>, n: u64)
    ensures
        final(out)@ == old(out)@ + decimal(n as nat),
    decreases n,
{
    if n < 10 {
        out.push(digit_char(n));
        assert(out@ =~= old(out)@ + decimal(n as nat));
    } else {
        push_decimal(out, n / 10);
        out.push(digit_char(n % 10));
        assert(out@ =~= old(out)@ + decimal(n as nat));
    }
}

/// The decimal notation of an integer, with a minus sign when it is negative.
pub open spec fn signed_decimal(n: int) -> Seq<char> {
    if n < 0 {
        "-"@ + decimal((-n) as nat)
    } else {
        decimal(n as nat)
    }
}

/// Appends the decimal notation of `n` to `out`.
pub fn push_signed(out: &mut Vec<char>, n: i64)
    ensures
        final(out)@ == old(out)@ + signed_decimal(n as int),
{
    if n < 0 {
        push_str(out, "-");
        let m: i128 = -(n as i128);
        push_decimal(out, m as u64);
        assert(out@ =~= old(out)@ + signed_decimal(n as int));
    } else {
        push_decimal(out, n as u64);
    }
}

/// `n.to_string()` for an unsigned integer.
pub fn u64_string(n: u64) -> (r: String)
    ensures
        r@ == decimal(n as nat),
{
    let mut v: Vec<char> = Vec::new();
    push_decimal(&mut v, n);
    assert(v@ =~= decimal(n as nat));
    string_of(&v)
}

// ---------------------------------------------------------------- case

/// What `str::to_lowercase` gives for a string (Unicode lowercase mapping).
pub uninterp spec fn lowercase(s: Seq<char>) -> Seq<char>;

/// What `str::to_uppercase` gives for a string (Unicode uppercase mapping).
pub uninterp spec fn uppercase(s: Seq<char>) -> Seq<char>;

/// Whether every character of `s` is ASCII.
pub open spec fn all_ascii(s: Seq<char>) -> bool {
    forall|i: int| 0 <= i < s.len() ==> (#[trigger] s[i] as u32) < 128
}

/// `s` with the ASCII capitals `A`..`Z` turned into `a`..`z`, every other character kept.
pub open spec fn ascii_lower(s: Seq<char>) -> Seq<char> {
    s.map_values(|c: char| if 65 <= (c as u32) <= 90 { ((c as u32) + 32) as char } else { c })
}

/// Calls `str::to_lowercase`; its result is named `lowercase`. For an ASCII text, Unicode's
/// lowercase mapping is the ASCII one, which is also stated.
#[verifier::external_body]
pub(crate) fn to_lower(s: &str) -> (r: String)
    ensures
        r@ == lowercase(s@),
        all_ascii(s@) ==> r@ == ascii_lower(s@),
{
    s.to_lowercase()
}

/// Calls `str::to_uppercase`; its result is named `uppercase`.
#[verifier::external_body]
pub(crate) fn to_upper(s: &str) -> (r: String)
    ensures
        r@ == uppercase(s@),
{
    s.to_uppercase()
}

// ---------------------------------------------------------------- whitespace

/// `char::is_whitespace`: the Unicode `White_Space` property.
pub open spec fn is_ws(c: char) -> bool {
    ||| ('\u{9}' <= c && c <= '\u{d}')
    ||| c == ' '
    ||| c == '\u{85}'
    ||| c == '\u{a0}'
    ||| c == '\u{1680}'
    ||| ('\u{2000}' <= c && c <= '\u{200a}')
    ||| c == '\u{2028}'
    ||| c == '\u{2029}'
    ||| c == '\u{202f}'
    ||| c == '\u{205f}'
    ||| c == '\u{3000}'
}

/// Whether `c` is white space.
pub fn char_is_ws(c: char) -> (r: bool)
    ensures
        r == is_ws(c),
{
    ('\u{9}' <= c && c <= '\u{d}') || c == ' ' || c == '\u{85}' || c == '\u{a0}' || c == '\u{1680}'
        || ('\u{2000}' <= c && c <= '\u{200a}') || c == '\u{2028}' || c == '\u{2029}' || c
        == '\u{202f}' || c == '\u{205f}' || c == '\u{3000}'
}

/// `s` without leading white space.
pub open spec fn trim_start(s: Seq<char>) -> Seq<char>
    decreases s.len(),
{
    if s.len() > 0 && is_ws(s[0]) {
        trim_start(s.subrange(1, s.len() as int))
    } else {
        s
    }
}

/// Trimming never lengthens.
pub proof fn lemma_trim_start_len(s: Seq<char>)
    ensures
        trim_start(s).len() <= s.len(),
        trim_start(s).len() > 0 ==> !is_ws(trim_start(s)[0]),
    decreases s.len(),
{
    if s.len() > 0 && is_ws(s[0]) {
        lemma_trim_start_len(s.subrange(1, s.len() as int));
    }
}

/// `s` without trailing white space.
pub open spec fn trim_end(s: Seq<char>) -> Seq<char>
    decreases s.len(),
{
    if s.len() > 0 && is_ws(s[s.len() - 1]) {
        trim_end(s.subrange(0, s.len() - 1))
    } else {
        s
    }
}

/// `str::trim`.
pub open spec fn trimmed(s: Seq<char>) -> Seq<char> {
    trim_end(trim_start(s))
}

/// The characters of `v` without leading and trailing white space.
pub fn vec_trim(v: &Vec<char>) -> (r: Vec<char>)
    ensures
        r@ == trimmed(v@),
{
    let n = v.len();
    let mut a: usize = 0;
    assert(v@.subrange(0, n as int) =~= v@);
    while a < n && char_is_ws(v[a])
        invariant
            a <= n,
            n == v.len(),
            trim_start(v@) == trim_start(v@.subrange(a as int, n as int)),
        decreases n - a,
    {
        let ghost rest = v@.subrange(a as int, n as int);
        assert(rest.subrange(1, rest.len() as int) =~= v@.subrange(a + 1, n as int));
        a = a + 1;
    }
    assert(v@.subrange(0, n as int) =~= v@);
    let ghost mid = v@.subrange(a as int, n as int);
    assert(trim_start(mid) == mid);
    let mut b: usize = n;
    while b > a && char_is_ws(v[b - 1])
        invariant
            a <= b <= n,
            n == v.len(),
            mid == v@.subrange(a as int, n as int),
            trim_end(mid) == trim_end(v@.subrange(a as int, b as int)),
        decreases b,
    {
        let ghost cur = v@.subrange(a as int, b as int);
        assert(cur.subrange(0, cur.len() - 1) =~= v@.subrange(a as int, b - 1));
        b = b - 1;
    }
    let ghost fin = v@.subrange(a as int, b as int);
    assert(trim_end(fin) == fin);
    let mut out: Vec<char> = Vec::new();
    let mut i: usize = a;
    while i < b
        invariant
            a <= i <= b,
            b <= n,
            n == v.len(),
            out@ == v@.subrange(a as int, i as int),
        decreases b - i,
    {
        out.push(v[i]);
        i = i + 1;
        assert(out@ =~= v@.subrange(a as int, i as int));
    }
    out
}

/// `s.trim().to_string()`.
pub fn str_trim(s: &str) -> (r: String)
    ensures
        r@ == trimmed(s@),
{
    let v = chars_of(s);
    let t = vec_trim(&v);
    string_of(&t)
}

// ---------------------------------------------------------------- prefixes

/// Whether `s` starts with `p`.
pub fn vec_starts_with(s: &Vec<char>, p: &Vec<char>) -> (r: bool)
    ensures
        r == p@.is_prefix_of(s@),
{
    if p.len() > s.len() {
        return false;
    }
    let r = chars_match_at(s, p, 0);
    assert(r == p@.is_prefix_of(s@)) by {
        if r {
            assert forall|k: int| 0 <= k < p@.len() implies p@[k] == s@[k] by {
                assert(s@.subrange(0, p@.len() as int)[k] == s@[k]);
            }
        } else if p@.is_prefix_of(s@) {
            assert(s@.subrange(0, p@.len() as int) =~= p@);
        }
    }
    r
}

/// Whether `s` ends with `p`.
pub fn vec_ends_with(s: &Vec<char>, p: &Vec<char>) -> (r: bool)
    ensures
        r == p@.is_suffix_of(s@),
{
    if p.len() > s.len() {
        return false;
    }
    let start = s.len() - p.len();
    let r = chars_match_at(s, p, start);
    assert(r == p@.is_suffix_of(s@)) by {
        if r {
            assert forall|k: int| 0 <= k < p@.len() implies p@[k] == s@[s@.len() - p@.len() + k] by {
                assert(s@.subrange(start as int, s@.len() as int)[k] == s@[start + k]);
            }
        } else if p@.is_suffix_of(s@) {
            assert(s@.subrange(start as int, s@.len() as int) =~= p@);
        }
    }
    r
}

// ---------------------------------------------------------------- paths

/// What `std::path::Path::extension` gives for a path (as text).
pub uninterp spec fn path_extension(path: Seq<char>) -> Option<Seq<char>>;

/// The extension of `path` (`Path::new(path).extension()`, as text).
///
/// Claims that the result is the function `path_extension` of the path; nothing more is stated
/// of what std's path parsing gives.
#[verifier::external_body]
pub(crate) fn extension_of(path: &str) -> (r: Option<String>)
    ensures
        match r {
            Some(e) => path_extension(path@) == Some(e@),
            None => path_extension(path@) is None,
        },
{
    std::path::Path::new(path).extension().and_then(|e| e.to_str()).map(|e| e.to_string())
}

} // verus!
