//! Character-level text scanning shared by the request reader and the string
//! utilities: substring search and whitespace-separated words.
use vstd::prelude::*;

verus! {

/// The characters that `char::is_whitespace` accepts: Unicode's White_Space.
pub open spec fn is_ws(c: char) -> bool {
    ||| c == ' '
    ||| c == '\t'
    ||| c == '\n'
    ||| c == '\u{B}'
    ||| c == '\u{C}'
    ||| c == '\r'
    ||| c == '\u{85}'
    ||| c == '\u{A0}'
    ||| c == '\u{1680}'
    ||| ('\u{2000}' <= c && c <= '\u{200A}')
    ||| c == '\u{2028}'
    ||| c == '\u{2029}'
    ||| c == '\u{202F}'
    ||| c == '\u{205F}'
    ||| c == '\u{3000}'
}

/// `pat` stands in `s` at `i`.
pub open spec fn occurs_at(s: Seq<char>, pat: Seq<char>, i: int) -> bool {
    0 <= i && i + pat.len() <= s.len() && s.subrange(i, i + pat.len()) == pat
}

/// The first place at or after `i` where `pat` stands in `s`.
pub open spec fn find_from(s: Seq<char>, pat: Seq<char>, i: int) -> Option<int>
    decreases s.len() + 1 - i,
{
    if i < 0 || i + pat.len() > s.len() {
        None
    } else if occurs_at(s, pat, i) {
        Some(i)
    } else {
        find_from(s, pat, i + 1)
    }
}

/// A place that `find_from` gives holds the pattern.
pub proof fn lemma_find_from_found(s: Seq<char>, pat: Seq<char>, i: int)
    requires
        find_from(s, pat, i) is Some,
    ensures
        find_from(s, pat, i) matches Some(p) && occurs_at(s, pat, p) && i <= p,
    decreases s.len() + 1 - i,
{
    if !occurs_at(s, pat, i) {
        lemma_find_from_found(s, pat, i + 1);
    }
}

/// The first position at or after `i` that is not whitespace, or the end.
pub open spec fn skip_ws(s: Seq<char>, i: int) -> int
    decreases s.len() - i,
{
    if 0 <= i < s.len() && is_ws(s[i]) {
        skip_ws(s, i + 1)
    } else {
        i
    }
}

/// The first position at or after `i` that is whitespace, or the end.
pub open spec fn word_end(s: Seq<char>, i: int) -> int
    decreases s.len() - i,
{
    if 0 <= i < s.len() && !is_ws(s[i]) {
        word_end(s, i + 1)
    } else {
        i
    }
}

/// The characters of a string, one per element.
pub(crate) fn chars_of(s: &str) -> (v: Vec<char>)
    ensures
        v@ == s@,
{
    let n = s.unicode_len();
    let mut v: Vec<char> = Vec::with_capacity(n);
    let mut i: usize = 0;
    while i < n
        invariant
            n == s@.len(),
            i <= n,
            v@ == s@.subrange(0, i as int),
        decreases n - i,
    {
        v.push(s.get_char(i));
        i += 1;
        assert(v@ =~= s@.subrange(0, i as int));
    }
    assert(v@ =~= s@);
    v
}

/// Whether `pat` stands in `v` at `i`.
pub(crate) fn occurs_at_exec(v: &Vec<char>, pat: &Vec<char>, i: usize) -> (b: bool)
    requires
        i + pat@.len() <= v@.len(),
    ensures
        b == occurs_at(v@, pat@, i as int),
{
    let vn = v.len();
    let mut k: usize = 0;
    while k < pat.len()
        invariant
            vn == v@.len(),
            i + pat@.len() <= v@.len(),
            k <= pat@.len(),
            forall|m: int| 0 <= m < k ==> v@[i + m] == pat@[m],
        decreases pat@.len() - k,
    {
        if v[i + k] != pat[k] {
            assert(v@.subrange(i as int, i + pat@.len())[k as int] != pat@[k as int]);
            return false;
        }
        k += 1;
    }
    assert(v@.subrange(i as int, i + pat@.len()) =~= pat@);
    true
}

/// The first place at or after `from` where `pat` stands in `v`.
pub(crate) fn find_exec(v: &Vec<char>, pat: &Vec<char>, from: usize) -> (r: Option<usize>)
    requires
        from <= v@.len(),
    ensures
        match r {
            Some(p) => find_from(v@, pat@, from as int) == Some(p as int),
            None => find_from(v@, pat@, from as int) is None,
        },
{
    let vn = v.len();
    let pn = pat.len();
    if pn > vn - from {
        return None;
    }
    if pn == 0 {
        assert(v@.subrange(from as int, from as int) =~= pat@);
        return Some(from);
    }
    let last = vn - pn;
    let mut i: usize = from;
    while i <= last
        invariant
            last == v@.len() - pat@.len(),
            pn == pat@.len(),
            pn >= 1,
            vn == v@.len(),
            from <= i <= last + 1,
            find_from(v@, pat@, i as int) == find_from(v@, pat@, from as int),
        decreases last + 1 - i,
    {
        if occurs_at_exec(v, pat, i) {
            return Some(i);
        }
        i += 1;
    }
    None
}

/// Where `find_from` finds nothing, `pat` stands nowhere at or after `i`.
pub proof fn lemma_find_from_none(s: Seq<char>, pat: Seq<char>, i: int, j: int)
    requires
        find_from(s, pat, i) is None,
        0 <= i <= j,
    ensures
        !occurs_at(s, pat, j),
    decreases j - i,
{
    if i < j && i + pat.len() <= s.len() {
        lemma_find_from_none(s, pat, i + 1, j);
    }
}

/// Whether `c` is whitespace.
pub(crate) fn is_whitespace_char(c: char) -> (b: bool)
    ensures
        b == is_ws(c),
{
    c == ' ' || c == '\t' || c == '\n' || c == '\u{B}' || c == '\u{C}' || c == '\r' || c
        == '\u{85}' || c == '\u{A0}' || c == '\u{1680}' || ('\u{2000}' <= c && c <= '\u{200A}')
        || c == '\u{2028}' || c == '\u{2029}' || c == '\u{202F}' || c == '\u{205F}' || c
        == '\u{3000}'
}

/// Skip whitespace in `v[i..end]`.
pub(crate) fn skip_ws_exec(v: &Vec<char>, i: usize, end: usize) -> (k: usize)
    requires
        i <= end <= v@.len(),
    ensures
        i <= k <= end,
        k == skip_ws(v@.subrange(0, end as int), i as int),
{
    let ghost h = v@.subrange(0, end as int);
    let mut k = i;
    while k < end && is_whitespace_char(v[k])
        invariant
            i <= k <= end <= v@.len(),
            h == v@.subrange(0, end as int),
            skip_ws(h, k as int) == skip_ws(h, i as int),
        decreases end - k,
    {
        assert(h[k as int] == v@[k as int]);
        k += 1;
    }
    k
}

/// Skip a word in `v[i..end]`.
pub(crate) fn word_end_exec(v: &Vec<char>, i: usize, end: usize) -> (k: usize)
    requires
        i <= end <= v@.len(),
    ensures
        i <= k <= end,
        k == word_end(v@.subrange(0, end as int), i as int),
{
    let ghost h = v@.subrange(0, end as int);
    let mut k = i;
    while k < end && !is_whitespace_char(v[k])
        invariant
            i <= k <= end <= v@.len(),
            h == v@.subrange(0, end as int),
            word_end(h, k as int) == word_end(h, i as int),
        decreases end - k,
    {
        assert(h[k as int] == v@[k as int]);
        k += 1;
    }
    k
}

} // verus!
