//! Small string utilities: splitting on a delimiter, the words one text has that
//! another lacks, and interleaving two names.
use vstd::prelude::*;
use crate::text::{
    chars_of, find_exec, find_from, lemma_find_from_found, lemma_find_from_none, occurs_at,
    skip_ws, skip_ws_exec, word_end, word_end_exec,
};

verus! {

/// The pieces of `s` from `start` on, cut at each occurrence of the delimiter
/// `d`; a trailing delimiter leaves no empty piece after it.
pub open spec fn pieces_from(s: Seq<char>, d: Seq<char>, start: int) -> Seq<Seq<char>>
    decreases s.len() - start,
{
    if start < 0 || start >= s.len() {
        seq![]
    } else {
        match find_from(s, d, start) {
            Some(p) => if start < p + d.len() <= s.len() {
                seq![s.subrange(start, p)] + pieces_from(s, d, p + d.len())
            } else {
                seq![]
            },
            None => seq![s.subrange(start, s.len() as int)],
        }
    }
}

/// The views of a sequence of string slices.
pub open spec fn views(v: Seq<&str>) -> Seq<Seq<char>> {
    v.map_values(|p: &str| p@)
}

/// Split `string` at each occurrence of `delimiter`. An empty string gives no
/// pieces; a non-empty one needs a non-empty delimiter.
pub fn split_string<'a>(string: &'a str, delimiter: &str) -> (r: Vec<&'a str>)
    requires
        delimiter@.len() > 0 || string@.len() == 0,
    ensures
        views(r@) == pieces_from(string@, delimiter@, 0),
{
    let s = chars_of(string);
    let d = chars_of(delimiter);
    let n = s.len();
    let mut split_string: Vec<&'a str> = Vec::new();
    let mut start: usize = 0;
    while start < n
        invariant
            s@ == string@,
            d@ == delimiter@,
            n == s@.len(),
            d@.len() > 0 || n == 0,
            start <= n,
            views(split_string@) + pieces_from(s@, d@, start as int) == pieces_from(
                s@,
                d@,
                0,
            ),
        decreases n - start,
    {
        let ghost before = split_string@;
        match find_exec(&s, &d, start) {
            Some(pos) => {
                proof {
                    lemma_find_from_found(s@, d@, start as int);
                }
                let piece = string.substring_char(start, pos);
                split_string.push(piece);
                proof {
                    assert(views(split_string@) =~= views(before).push(piece@));
                    assert(views(before).push(piece@) + pieces_from(s@, d@, pos + d@.len())
                        =~= views(before) + pieces_from(s@, d@, start as int));
                }
                start = pos + d.len();
            },
            None => {
                let piece = string.substring_char(start, n);
                split_string.push(piece);
                proof {
                    assert(views(split_string@) =~= views(before).push(piece@));
                    assert(views(split_string@) + pieces_from(s@, d@, n as int) =~= views(before)
                        + pieces_from(s@, d@, start as int));
                }
                start = n;
            },
        }
    }
    assert(views(split_string@) + pieces_from(s@, d@, start as int) =~= views(split_string@));
    split_string
}

/// The whitespace-separated words of `s` from `i` on.
pub open spec fn words_from(s: Seq<char>, i: int) -> Seq<Seq<char>>
    decreases s.len() - i,
{
    let a = skip_ws(s, i);
    let b = word_end(s, a);
    if i < 0 || a >= s.len() || !(i < b <= s.len()) {
        seq![]
    } else {
        seq![s.subrange(a, b)] + words_from(s, b)
    }
}

/// `w` stands somewhere in `s`.
pub open spec fn contains_text(s: Seq<char>, w: Seq<char>) -> bool {
    exists|i: int| occurs_at(s, w, i)
}

/// The words of `ws` that do not stand in `other`, in order.
pub open spec fn absent_words(ws: Seq<Seq<char>>, other: Seq<char>) -> Seq<Seq<char>>
    decreases ws.len(),
{
    if ws.len() == 0 {
        seq![]
    } else {
        let rest = absent_words(ws.drop_first(), other);
        if contains_text(other, ws[0]) {
            rest
        } else {
            seq![ws[0]] + rest
        }
    }
}

/// The words that one text has and the other does not contain.
#[derive(PartialEq, Debug)]
pub struct Differences<'a> {
    pub only_in_first: Vec<&'a str>,
    pub only_in_second: Vec<&'a str>,
}

/// `skip_ws` and `word_end` stay within the text and do not go back.
proof fn lemma_scan_bounds(s: Seq<char>, i: int)
    requires
        0 <= i <= s.len(),
    ensures
        i <= skip_ws(s, i) <= s.len(),
        i <= word_end(s, i) <= s.len(),
        skip_ws(s, i) < s.len() ==> skip_ws(s, i) < word_end(s, skip_ws(s, i)),
    decreases s.len() - i,
{
    if i < s.len() {
        lemma_scan_bounds(s, i + 1);
    }
}

/// The words of `text`, in order, that do not stand anywhere in `other`.
fn words_missing_from<'a>(text: &'a str, other: &str) -> (r: Vec<&'a str>)
    ensures
        views(r@) == absent_words(words_from(text@, 0), other@),
{
    let v = chars_of(text);
    let o = chars_of(other);
    let n = v.len();
    let mut found: Vec<&'a str> = Vec::new();
    let mut pos: usize = 0;
    while pos < n
        invariant
            v@ == text@,
            o@ == other@,
            n == v@.len(),
            pos <= n,
            views(found@) + absent_words(words_from(v@, pos as int), o@) == absent_words(
                words_from(v@, 0),
                o@,
            ),
        decreases n - pos,
    {
        proof {
            lemma_scan_bounds(v@, pos as int);
        }
        let a = skip_ws_exec(&v, pos, n);
        assert(v@.subrange(0, n as int) =~= v@);
        if a >= n {
            pos = n;
        } else {
            proof {
                lemma_scan_bounds(v@, a as int);
            }
            let b = word_end_exec(&v, a, n);
            let word = text.substring_char(a, b);
            let w = chars_of(word);
            let ghost ws = words_from(v@, pos as int);
            assert(ws =~= seq![word@] + words_from(v@, b as int));
            assert(ws.drop_first() =~= words_from(v@, b as int));
            let ghost before = found@;
            match find_exec(&o, &w, 0) {
                Some(_) => {
                    proof {
                        lemma_find_from_found(o@, w@, 0);
                    }
                },
                None => {
                    proof {
                        assert forall|i: int| !occurs_at(o@, w@, i) by {
                            if i >= 0 {
                                lemma_find_from_none(o@, w@, 0, i);
                            }
                        }
                    }
                    found.push(word);
                    proof {
                        assert(views(found@) =~= views(before).push(word@));
                        assert(views(before).push(word@) + absent_words(
                            words_from(v@, b as int),
                            o@,
                        ) =~= views(before) + (seq![word@] + absent_words(
                            words_from(v@, b as int),
                            o@,
                        )));
                    }
                },
            }
            pos = b;
        }
    }
    assert(words_from(v@, n as int) =~= Seq::<Seq<char>>::empty());
    assert(views(found@) + absent_words(words_from(v@, pos as int), o@) =~= views(found@));
    found
}

/// The words of each text that do not stand anywhere in the other text.
pub fn find_differences<'a>(first_string: &'a str, second_string: &'a str) -> (r: Differences<'a>)
    ensures
        views(r.only_in_first@) == absent_words(words_from(first_string@, 0), second_string@),
        views(r.only_in_second@) == absent_words(words_from(second_string@, 0), first_string@),
{
    let only_in_first = words_missing_from(first_string, second_string);
    let only_in_second = words_missing_from(second_string, first_string);
    Differences { only_in_first, only_in_second }
}


/// A lower-case vowel.
pub open spec fn is_vowel(c: char) -> bool {
    c == 'a' || c == 'e' || c == 'i' || c == 'o' || c == 'u'
}

/// The first vowel of `s` at or after `i`, or the end.
pub open spec fn next_vowel(s: Seq<char>, i: int) -> int
    decreases s.len() - i,
{
    if 0 <= i < s.len() && !is_vowel(s[i]) {
        next_vowel(s, i + 1)
    } else {
        i
    }
}

/// Where the chunk of `s` that starts at `i` ends: one character, then every
/// following character up to the next vowel.
pub open spec fn chunk_end(s: Seq<char>, i: int) -> int {
    if 0 <= i < s.len() {
        next_vowel(s, i + 1)
    } else {
        i
    }
}

/// The merge of two names from positions `i` and `j` on: a chunk of the first,
/// then a chunk of the second, until both are used up.
pub open spec fn names_merged_from(a: Seq<char>, b: Seq<char>, i: int, j: int) -> Seq<char>
    decreases a.len() - i + b.len() - j,
{
    let i2 = chunk_end(a, i);
    let j2 = chunk_end(b, j);
    if !(i <= i2 <= a.len() && j <= j2 <= b.len() && (i < i2 || j < j2)) {
        seq![]
    } else {
        a.subrange(i, i2) + b.subrange(j, j2) + names_merged_from(a, b, i2, j2)
    }
}

/// `chunk_end` moves forward exactly when there is something left.
proof fn lemma_chunk_end(s: Seq<char>, i: int)
    requires
        0 <= i <= s.len(),
    ensures
        i <= chunk_end(s, i) <= s.len(),
        i < s.len() ==> i < chunk_end(s, i),
{
    if i < s.len() {
        lemma_next_vowel_bounds(s, i + 1);
    }
}

/// `next_vowel` stays within the text and does not go back.
proof fn lemma_next_vowel_bounds(s: Seq<char>, i: int)
    requires
        0 <= i <= s.len(),
    ensures
        i <= next_vowel(s, i) <= s.len(),
    decreases s.len() - i,
{
    if i < s.len() {
        lemma_next_vowel_bounds(s, i + 1);
    }
}

/// Whether `c` is a lower-case vowel.
fn is_vowel_char(c: char) -> (b: bool)
    ensures
        b == is_vowel(c),
{
    c == 'a' || c == 'e' || c == 'i' || c == 'o' || c == 'u'
}

/// Where the chunk of `v` that starts at `i` ends.
fn chunk_end_exec(v: &Vec<char>, i: usize) -> (k: usize)
    requires
        i <= v@.len(),
    ensures
        k == chunk_end(v@, i as int),
{
    let n = v.len();
    if i >= n {
        return i;
    }
    let mut k = i + 1;
    while k < n && !is_vowel_char(v[k])
        invariant
            n == v@.len(),
            i < k <= n,
            next_vowel(v@, k as int) == next_vowel(v@, i + 1),
        decreases n - k,
    {
        k += 1;
    }
    k
}

/// Interleave two names: a character of the first name and the consonants up to
/// its next vowel, then the same from the second name, in turn until both are
/// used up.
pub fn merge_names(first_name: &str, second_name: &str) -> (r: String)
    ensures
        r@ == names_merged_from(first_name@, second_name@, 0, 0),
{
    let first_name_chars = chars_of(first_name);
    let second_name_chars = chars_of(second_name);
    let n1 = first_name_chars.len();
    let n2 = second_name_chars.len();
    let mut merged_name = String::new();
    let mut first_index: usize = 0;
    let mut second_index: usize = 0;
    assert(merged_name@ + names_merged_from(first_name@, second_name@, 0, 0) =~= names_merged_from(
        first_name@,
        second_name@,
        0,
        0,
    ));
    while first_index < n1 || second_index < n2
        invariant
            first_name_chars@ == first_name@,
            second_name_chars@ == second_name@,
            n1 == first_name@.len(),
            n2 == second_name@.len(),
            first_index <= n1,
            second_index <= n2,
            merged_name@ + names_merged_from(
                first_name@,
                second_name@,
                first_index as int,
                second_index as int,
            ) == names_merged_from(first_name@, second_name@, 0, 0),
        decreases n1 - first_index + n2 - second_index,
    {
        proof {
            lemma_chunk_end(first_name@, first_index as int);
            lemma_chunk_end(second_name@, second_index as int);
        }
        let first_end = chunk_end_exec(&first_name_chars, first_index);
        let second_end = chunk_end_exec(&second_name_chars, second_index);
        let ghost before = merged_name@;
        merged_name.append(first_name.substring_char(first_index, first_end));
        merged_name.append(second_name.substring_char(second_index, second_end));
        proof {
            let a = first_name@;
            let b = second_name@;
            assert(before + names_merged_from(a, b, first_index as int, second_index as int)
                =~= merged_name@ + names_merged_from(a, b, first_end as int, second_end as int));
        }
        first_index = first_end;
        second_index = second_end;
    }
    assert(merged_name@ + names_merged_from(
        first_name@,
        second_name@,
        first_index as int,
        second_index as int,
    ) =~= merged_name@);
    merged_name
}

} // verus!
