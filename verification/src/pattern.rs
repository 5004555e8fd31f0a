//! Wildcard matching of file names against patterns with `*`.

use vstd::prelude::*;
use crate::text::{
    chars_of, contains_char, ends_with, eq_ignore_ascii_case, equal_ignoring_ascii_case,
    has_prefix, has_suffix, starts_with, string_of,
};

verus! {

/// What `str::to_lowercase` makes of a text: its lowercase form by the
/// Unicode rules, which depends on the text alone.
pub uninterp spec fn lowercase_of(text: Seq<char>) -> Seq<char>;

/// `str::to_lowercase`: the result is the lowercase form of `text`.
#[verifier::external_body]
pub(crate) fn lowercase(text: &str) -> (lower: String)
    ensures
        lower@ == lowercase_of(text@),
{
    text.to_lowercase()
}

/// The position of the first `c` in `text`, or the length of `text` where
/// there is none.
pub open spec fn first_index(text: Seq<char>, c: char) -> int
    decreases text.len(),
{
    if text.len() == 0 || text[0] == c {
        0
    } else {
        1 + first_index(text.skip(1), c)
    }
}

/// `first_index` gives the first place at which the character stands, if
/// there is one.
pub proof fn lemma_first_index(text: Seq<char>, c: char)
    ensures
        0 <= first_index(text, c) <= text.len(),
        forall|j: int| 0 <= j < first_index(text, c) ==> text[j] != c,
        first_index(text, c) < text.len() ==> text[first_index(text, c)] == c,
        text.contains(c) <==> first_index(text, c) < text.len(),
    decreases text.len(),
{
    if text.len() == 0 || text[0] == c {
    } else {
        let rest = text.skip(1);
        lemma_first_index(rest, c);
        assert forall|j: int| 0 <= j < first_index(text, c) implies text[j] != c by {
            if j > 0 {
                assert(rest[j - 1] == text[j]);
            }
        }
        if first_index(text, c) < text.len() {
            assert(rest[first_index(rest, c)] == text[first_index(text, c)]);
        }
        if text.contains(c) {
            let k = choose|k: int| 0 <= k < text.len() && text[k] == c;
            assert(rest[k - 1] == c);
        }
    }
}

/// The position of the first `c` in `text`, or its length where there is none.
pub fn find_char(text: &Vec<char>, c: char) -> (at: usize)
    ensures
        at == first_index(text@, c),
{
    let mut i: usize = 0;
    proof {
        assert(text@.skip(0) =~= text@);
    }
    while i < text.len() && text[i] != c
        invariant
            i <= text.len(),
            first_index(text@, c) == i + first_index(text@.skip(i as int), c),
        decreases text.len() - i,
    {
        proof {
            let rest = text@.skip(i as int);
            assert(rest[0] == text@[i as int]);
            assert(rest.skip(1) =~= text@.skip(i + 1));
        }
        i += 1;
    }
    proof {
        let rest = text@.skip(i as int);
        if i < text.len() {
            assert(rest[0] == text@[i as int]);
        }
    }
    i
}

/// General wildcard matching: each `*` of `pattern` stands for any run of
/// characters, the empty one too, and every other character for itself.
pub open spec fn wildcard_matches(text: Seq<char>, pattern: Seq<char>) -> bool
    decreases pattern.len(), text.len(),
{
    if pattern.len() == 0 {
        text.len() == 0
    } else if pattern[0] == '*' {
        wildcard_matches(text, pattern.skip(1)) || (text.len() > 0 && wildcard_matches(
            text.skip(1),
            pattern,
        ))
    } else {
        text.len() > 0 && text[0] == pattern[0] && wildcard_matches(text.skip(1), pattern.skip(1))
    }
}

/// A pattern of nothing but stars, one at least, matches every text.
pub proof fn lemma_stars_match_everything(text: Seq<char>, pattern: Seq<char>)
    requires
        pattern.len() > 0,
        forall|i: int| 0 <= i < pattern.len() ==> pattern[i] == '*',
    ensures
        wildcard_matches(text, pattern),
    decreases text.len(), pattern.len(),
{
    assert(pattern[0] == '*');
    if text.len() > 0 {
        lemma_stars_match_everything(text.skip(1), pattern);
    } else if pattern.len() > 1 {
        let rest = pattern.skip(1);
        assert forall|i: int| 0 <= i < rest.len() implies rest[i] == '*' by {
            assert(rest[i] == pattern[i + 1]);
        }
        lemma_stars_match_everything(text, rest);
    } else {
        assert(pattern.skip(1).len() == 0);
        assert(wildcard_matches(text, pattern.skip(1)));
    }
}

/// A pattern that ends with a star after a text without stars matches that
/// text with whatever follows it.
pub proof fn lemma_trailing_star_matches_the_rest(literal: Seq<char>, rest: Seq<char>)
    requires
        !literal.contains('*'),
    ensures
        wildcard_matches(literal + rest, literal.push('*')),
    decreases literal.len(),
{
    let text = literal + rest;
    let pattern = literal.push('*');
    if literal.len() == 0 {
        assert(text =~= rest);
        assert(pattern =~= seq!['*']);
        lemma_stars_match_everything(rest, pattern);
    } else {
        let shorter = literal.skip(1);
        assert(literal[0] != '*') by {
            assert(literal.contains(literal[0]));
        }
        assert(!shorter.contains('*')) by {
            if shorter.contains('*') {
                let k = choose|k: int| 0 <= k < shorter.len() && shorter[k] == '*';
                assert(literal[k + 1] == '*');
            }
        }
        lemma_trailing_star_matches_the_rest(shorter, rest);
        assert(text.skip(1) =~= shorter + rest);
        assert(pattern.skip(1) =~= shorter.push('*'));
        assert(text[0] == pattern[0]);
    }
}

/// The empty pattern matches the empty name and no other.
pub proof fn lemma_empty_pattern_matches_empty_name(name: Seq<char>)
    ensures
        pattern_matches(name, Seq::empty()) <==> name.len() == 0,
{
}

/// Whether a file name matches a pattern. Case is ignored.
///
/// A pattern without `*` matches a name that equals it up to the case of
/// ASCII letters. A pattern with one `*` matches a name whose lowercase form
/// begins with the lowercase form of what stands before the `*` and ends with
/// the lowercase form of what stands after it. A pattern with more than one
/// `*` is matched as a general wildcard pattern, both sides in lowercase.
pub open spec fn pattern_matches(name: Seq<char>, pattern: Seq<char>) -> bool {
    let star = first_index(pattern, '*');
    if star >= pattern.len() {
        equal_ignoring_ascii_case(name, pattern)
    } else if !pattern.skip(star + 1).contains('*') {
        has_prefix(lowercase_of(name), lowercase_of(pattern.take(star))) && has_suffix(
            lowercase_of(name),
            lowercase_of(pattern.skip(star + 1)),
        )
    } else {
        wildcard_matches(lowercase_of(name), lowercase_of(pattern))
    }
}

/// General wildcard matching of `text` against `pattern`, case taken as it is.
pub fn wildcard_match(text: &Vec<char>, pattern: &Vec<char>) -> (r: bool)
    ensures
        r == wildcard_matches(text@, pattern@),
{
    let n = text.len();
    let m = pattern.len();
    // row[i] tells whether text from i on matches pattern from j on.
    let mut row: Vec<bool> = Vec::new();
    let mut i: usize = 0;
    while i < n
        invariant
            i <= n,
            n == text.len(),
            m == pattern.len(),
            row.len() == i,
            forall|k: int| 0 <= k < i ==> row@[k] == false,
        decreases n - i,
    {
        row.push(false);
        i += 1;
    }
    row.push(true);
    proof {
        assert(pattern@.skip(m as int) =~= Seq::<char>::empty());
        assert forall|k: int| 0 <= k <= n implies row@[k] == wildcard_matches(
            text@.skip(k),
            pattern@.skip(m as int),
        ) by {
            assert(text@.skip(k).len() == n - k);
        }
    }
    let mut j: usize = m;
    while j > 0
        invariant
            j <= m,
            n == text.len(),
            m == pattern.len(),
            row.len() == n + 1,
            forall|k: int|
                0 <= k <= n ==> row@[k] == wildcard_matches(text@.skip(k), pattern@.skip(j as int)),
        decreases j,
    {
        j -= 1;
        let p = pattern[j];
        let ghost below = row@;
        let ghost pat = pattern@.skip(j as int);
        proof {
            assert(pat[0] == p);
            assert(pat.skip(1) =~= pattern@.skip(j + 1));
        }
        // The last position: the text is used up.
        let mut below_next: bool = row[n];
        let at_end: bool = p == '*' && below_next;
        proof {
            assert(text@.skip(n as int).len() == 0);
        }
        row[n] = at_end;
        let mut i: usize = n;
        while i > 0
            invariant
                i <= n,
                j < m,
                n == text.len(),
                m == pattern.len(),
                row.len() == n + 1,
                below.len() == n + 1,
                pat == pattern@.skip(j as int),
                pat.len() > 0,
                pat[0] == p,
                pat.skip(1) == pattern@.skip(j + 1),
                below_next == below[i as int],
                forall|k: int|
                    0 <= k <= n ==> below[k] == wildcard_matches(
                        text@.skip(k),
                        pattern@.skip(j + 1),
                    ),
                forall|k: int| 0 <= k < i ==> row@[k] == below[k],
                forall|k: int| i <= k <= n ==> row@[k] == wildcard_matches(text@.skip(k), pat),
            decreases i,
        {
            i -= 1;
            let ghost rest = text@.skip(i as int);
            proof {
                assert(rest.len() > 0);
                assert(rest[0] == text@[i as int]);
                assert(rest.skip(1) =~= text@.skip(i + 1));
            }
            let below_here: bool = row[i];
            let here: bool = if p == '*' {
                below_here || row[i + 1]
            } else {
                text[i] == p && below_next
            };
            row[i] = here;
            below_next = below_here;
            proof {
                assert(below[i as int] == wildcard_matches(rest, pat.skip(1)));
                assert(below[i + 1] == wildcard_matches(rest.skip(1), pat.skip(1)));
                assert(here == wildcard_matches(rest, pat));
            }
        }
    }
    proof {
        assert(text@.skip(0) =~= text@);
        assert(pattern@.skip(0) =~= pattern@);
    }
    row[0]
}

/// The characters of `text` from `from` up to, not including, `to`.
fn slice_of(text: &Vec<char>, from: usize, to: usize) -> (part: Vec<char>)
    requires
        from <= to <= text.len(),
    ensures
        part@ == text@.subrange(from as int, to as int),
{
    let mut part: Vec<char> = Vec::new();
    let mut i: usize = from;
    while i < to
        invariant
            from <= i <= to,
            to <= text.len(),
            part@ == text@.subrange(from as int, i as int),
        decreases to - i,
    {
        part.push(text[i]);
        assert(part@ =~= text@.subrange(from as int, i + 1));
        i += 1;
    }
    part
}

/// The lowercase form of `text`, as characters.
fn lowered(text: &Vec<char>) -> (lower: Vec<char>)
    ensures
        lower@ == lowercase_of(text@),
{
    let s = string_of(text);
    let l = lowercase(s.as_str());
    chars_of(l.as_str())
}

/// Whether `filename` matches `pattern`, where `*` stands for any run of
/// characters and case is ignored.
pub fn matches_pattern(filename: &str, pattern: &str) -> (r: bool)
    ensures
        r == pattern_matches(filename@, pattern@),
{
    let name = chars_of(filename);
    let pat = chars_of(pattern);
    let star = find_char(&pat, '*');
    proof {
        lemma_first_index(pat@, '*');
    }
    if star >= pat.len() {
        return eq_ignore_ascii_case(&name, &pat);
    }
    let lower_name = lowered(&name);
    let after = slice_of(&pat, star + 1, pat.len());
    proof {
        assert(after@ =~= pat@.skip(star + 1));
    }
    if !contains_char(&after, '*') {
        let before = slice_of(&pat, 0, star);
        proof {
            assert(before@ =~= pat@.take(star as int));
        }
        let lower_before = lowered(&before);
        let lower_after = lowered(&after);
        starts_with(&lower_name, &lower_before) && ends_with(&lower_name, &lower_after)
    } else {
        let lower_pat = lowered(&pat);
        wildcard_match(&lower_name, &lower_pat)
    }
}

} // verus!
