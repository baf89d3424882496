//! Facts about the scanning functions of `text`: where a scan ends, and how scanning
//! and cutting behave on a text that is put together from parts.

use crate::text::{
    fields, fields_from, first_index_of, has_substring, is_whitespace, last_index_of,
    last_occurrence, last_occurrence_below, occurs_at, token, token_end, token_from, trimmed,
    trimmed_end, whitespace_end, without,
};
use vstd::prelude::*;

verus! {

/// Whether no character of `s` is whitespace.
pub open spec fn has_no_whitespace(s: Seq<char>) -> bool {
    forall|i: int| 0 <= i < s.len() ==> !is_whitespace(#[trigger] s[i])
}

/// Whether `c` does not occur in `s`.
pub open spec fn lacks(s: Seq<char>, c: char) -> bool {
    forall|i: int| 0 <= i < s.len() ==> #[trigger] s[i] != c
}

/// Whether no character of `unwanted` occurs in `s`.
pub open spec fn lacks_all(s: Seq<char>, unwanted: Seq<char>) -> bool {
    forall|i: int| 0 <= i < s.len() ==> !unwanted.contains(#[trigger] s[i])
}

/// Whether `s` neither begins nor ends with whitespace.
pub open spec fn is_trimmed(s: Seq<char>) -> bool {
    s.len() > 0 ==> !is_whitespace(s[0]) && !is_whitespace(s.last())
}

/// A run of whitespace from `from` to `to` that ends `s` or is followed by another
/// character is where `whitespace_end` stops.
pub proof fn lemma_whitespace_end(s: Seq<char>, from: int, to: int)
    requires
        0 <= from <= to <= s.len(),
        forall|k: int| from <= k < to ==> is_whitespace(#[trigger] s[k]),
        to < s.len() ==> !is_whitespace(s[to]),
    ensures
        whitespace_end(s, from) == to,
    decreases to - from,
{
    if from < to {
        lemma_whitespace_end(s, from + 1, to);
    }
}

/// A run without whitespace from `from` to `to` that ends `s` or is followed by
/// whitespace is where `token_end` stops.
pub proof fn lemma_token_end(s: Seq<char>, from: int, to: int)
    requires
        0 <= from <= to <= s.len(),
        forall|k: int| from <= k < to ==> !is_whitespace(#[trigger] s[k]),
        to < s.len() ==> is_whitespace(s[to]),
    ensures
        token_end(s, from) == to,
    decreases to - from,
{
    if from < to {
        lemma_token_end(s, from + 1, to);
    }
}

/// Where `c` does not stand from `from` up to `to`, and `to` ends `s` or holds `c`,
/// `to` is the first index of `c`.
pub proof fn lemma_first_index_of(s: Seq<char>, c: char, from: int, to: int)
    requires
        0 <= from <= to <= s.len(),
        forall|k: int| from <= k < to ==> #[trigger] s[k] != c,
        to < s.len() ==> s[to] == c,
    ensures
        first_index_of(s, c, from) == to,
    decreases to - from,
{
    if from < to {
        lemma_first_index_of(s, c, from + 1, to);
    }
}

/// `c` does not stand in `s` from `from` up to its first index, and stands there
/// unless that index is the length of `s`.
pub proof fn lemma_first_index_of_is_first(s: Seq<char>, c: char, from: int)
    requires
        0 <= from <= s.len(),
    ensures
        from <= first_index_of(s, c, from) <= s.len(),
        forall|k: int| from <= k < first_index_of(s, c, from) ==> #[trigger] s[k] != c,
        first_index_of(s, c, from) < s.len() ==> s[first_index_of(s, c, from)] == c,
    decreases s.len() - from,
{
    if from < s.len() && s[from] != c {
        lemma_first_index_of_is_first(s, c, from + 1);
    }
}

/// Where `c` stands at `at` and nowhere after it below `to`, `at` is the last index
/// of `c`.
pub proof fn lemma_last_index_of(s: Seq<char>, c: char, to: int, at: int)
    requires
        0 <= at < to <= s.len(),
        s[at] == c,
        forall|k: int| at < k < to ==> #[trigger] s[k] != c,
    ensures
        last_index_of(s, c, to) == at,
    decreases to - at,
{
    if at + 1 < to {
        lemma_last_index_of(s, c, to - 1, at);
    }
}

/// Scanning whitespace in the second part of a text goes as in that part alone.
pub proof fn lemma_whitespace_end_shift(p: Seq<char>, r: Seq<char>, i: int)
    requires
        0 <= i <= r.len(),
    ensures
        whitespace_end(p + r, p.len() + i) == p.len() + whitespace_end(r, i),
    decreases r.len() - i,
{
    if i < r.len() {
        assert((p + r)[p.len() + i] == r[i]);
        if is_whitespace(r[i]) {
            lemma_whitespace_end_shift(p, r, i + 1);
        }
    }
}

/// Scanning a token in the second part of a text goes as in that part alone.
pub proof fn lemma_token_end_shift(p: Seq<char>, r: Seq<char>, i: int)
    requires
        0 <= i <= r.len(),
    ensures
        token_end(p + r, p.len() + i) == p.len() + token_end(r, i),
    decreases r.len() - i,
{
    if i < r.len() {
        assert((p + r)[p.len() + i] == r[i]);
        if !is_whitespace(r[i]) {
            lemma_token_end_shift(p, r, i + 1);
        }
    }
}

/// The ends of the scans stay within the text.
pub proof fn lemma_scan_bounds(s: Seq<char>, from: int)
    requires
        0 <= from <= s.len(),
    ensures
        from <= whitespace_end(s, from) <= s.len(),
        from <= token_end(s, from) <= s.len(),
    decreases s.len() - from,
{
    if from < s.len() {
        lemma_scan_bounds(s, from + 1);
    }
}

/// The tokens of the second part of a text are those of that part alone.
pub proof fn lemma_token_from_shift(p: Seq<char>, r: Seq<char>, i: int, n: nat)
    requires
        0 <= i <= r.len(),
    ensures
        token_from(p + r, p.len() + i, n) == token_from(r, i, n),
    decreases n,
{
    lemma_whitespace_end_shift(p, r, i);
    lemma_scan_bounds(r, i);
    let start = whitespace_end(r, i);
    lemma_token_end_shift(p, r, start);
    lemma_scan_bounds(r, start);
    let end = token_end(r, start);
    if n == 0 {
        assert((p + r).subrange(p.len() + start, p.len() + end) =~= r.subrange(start, end));
    } else {
        lemma_token_from_shift(p, r, end, (n - 1) as nat);
    }
}

/// In a text that begins with a word, a space and more, the first token is the word,
/// and the tokens after it are those of what follows the space.
pub proof fn lemma_token_of_concat(word: Seq<char>, rest: Seq<char>, n: nat)
    requires
        word.len() > 0,
        has_no_whitespace(word),
    ensures
        token(word + seq![' '] + rest, 0) == word,
        token(word + seq![' '] + rest, n + 1) == token(rest, n),
{
    let head = word + seq![' '];
    let s = head + rest;
    assert(!is_whitespace(s[0])) by {
        assert(s[0] == word[0]);
    }
    assert(is_whitespace(' '));
    assert forall|k: int| 0 <= k < word.len() implies !is_whitespace(#[trigger] s[k]) by {
        assert(s[k] == word[k]);
    }
    assert(s[word.len() as int] == ' ');
    lemma_token_end(s, 0, word.len() as int);
    assert(s.subrange(0, word.len() as int) =~= word);
    assert(token_from(s, 0, 0) == word);
    // the tokens after the first
    lemma_token_from_shift(head, rest, 0, n);
    assert(whitespace_end(s, word.len() as int) == whitespace_end(s, head.len() as int));
    assert(token_from(s, word.len() as int, n) == token_from(s, head.len() as int, n));
    assert(token_from(s, 0, n + 1) == token_from(s, word.len() as int, n));
}

/// Removing characters that do not occur changes nothing.
pub proof fn lemma_without_nothing(s: Seq<char>, unwanted: Seq<char>)
    requires
        lacks_all(s, unwanted),
    ensures
        without(s, unwanted) == s,
    decreases s.len(),
{
    reveal(Seq::filter);
    let keep = |c: char| !unwanted.contains(c);
    if s.len() > 0 {
        lemma_without_nothing(s.drop_last(), unwanted);
        assert(s.drop_last().push(s.last()) =~= s);
    }
}

/// Removing characters from a text of two parts removes them from each part.
pub proof fn lemma_without_concat(a: Seq<char>, b: Seq<char>, unwanted: Seq<char>)
    ensures
        without(a + b, unwanted) == without(a, unwanted) + without(b, unwanted),
{
    Seq::filter_distributes_over_add(a, b, |c: char| !unwanted.contains(c));
}

/// Removing the only character of a text leaves nothing; removing others leaves it.
pub proof fn lemma_without_one(c: char, unwanted: Seq<char>)
    ensures
        without(seq![c], unwanted) == if unwanted.contains(c) {
            Seq::<char>::empty()
        } else {
            seq![c]
        },
{
    reveal(Seq::filter);
    let keep = |c: char| !unwanted.contains(c);
    assert(seq![c].drop_last() =~= Seq::<char>::empty());
    assert(Seq::<char>::empty().filter(keep) =~= Seq::<char>::empty());
    assert(Seq::<char>::empty().push(c) =~= seq![c]);
}

/// A text without whitespace at either end is what trimming leaves of it, also with
/// whitespace put around it.
pub proof fn lemma_trimmed(before: Seq<char>, s: Seq<char>, after: Seq<char>)
    requires
        is_trimmed(s),
        forall|k: int| 0 <= k < before.len() ==> is_whitespace(#[trigger] before[k]),
        forall|k: int| 0 <= k < after.len() ==> is_whitespace(#[trigger] after[k]),
    ensures
        trimmed(before + s + after) == s,
{
    let all = before + s + after;
    let a = before.len() as int;
    let b = a + s.len();
    if s.len() == 0 {
        lemma_whitespace_end(all, 0, all.len() as int);
        assert(trimmed(all) =~= s);
    } else {
        assert(all[a] == s[0]);
        assert(all[b - 1] == s.last());
        lemma_whitespace_end(all, 0, a);
        lemma_trimmed_end(all, a, b, all.len() as int);
        assert(all.subrange(a, b) =~= s);
    }
}

/// Where whitespace fills `s` from `end` up to `to`, and the character before `end`
/// is none, trimming the end stops at `end`.
pub proof fn lemma_trimmed_end(s: Seq<char>, from: int, end: int, to: int)
    requires
        0 <= from < end <= to <= s.len(),
        !is_whitespace(s[end - 1]),
        forall|k: int| end <= k < to ==> is_whitespace(#[trigger] s[k]),
    ensures
        trimmed_end(s, from, to) == end,
    decreases to - end,
{
    if end < to {
        lemma_trimmed_end(s, from, end, to - 1);
    }
}

/// A text in which the separator does not occur from `at` on is one piece from
/// `start`.
pub proof fn lemma_fields_from_last(s: Seq<char>, sep: char, start: int, at: int)
    requires
        0 <= start <= at <= s.len(),
        forall|k: int| at <= k < s.len() ==> #[trigger] s[k] != sep,
    ensures
        fields_from(s, sep, start, at) == seq![s.subrange(start, s.len() as int)],
    decreases s.len() - at,
{
    if at < s.len() {
        lemma_fields_from_last(s, sep, start, at + 1);
    }
}

/// A text in which the separator does not occur is one piece.
pub proof fn lemma_fields_one(s: Seq<char>, sep: char)
    requires
        lacks(s, sep),
    ensures
        fields(s, sep) == seq![s],
{
    lemma_fields_from_last(s, sep, 0, 0);
    assert(s.subrange(0, s.len() as int) =~= s);
}

/// The pieces of a text that ends with a separator and a last piece, seen from inside
/// the part before that separator.
pub proof fn lemma_fields_from_push(x: Seq<char>, sep: char, last: Seq<char>, start: int, at: int)
    requires
        0 <= start <= at <= x.len(),
        lacks(last, sep),
    ensures
        fields_from(x + seq![sep] + last, sep, start, at) == fields_from(x, sep, start, at).push(
            last,
        ),
    decreases x.len() - at,
{
    let s = x + seq![sep] + last;
    if at < x.len() {
        assert(s[at] == x[at]);
        if x[at] == sep {
            lemma_fields_from_push(x, sep, last, at + 1, at + 1);
            assert(s.subrange(start, at) =~= x.subrange(start, at));
            assert(seq![x.subrange(start, at)] + fields_from(x, sep, at + 1, at + 1).push(last)
                =~= (seq![x.subrange(start, at)] + fields_from(x, sep, at + 1, at + 1)).push(last));
        } else {
            lemma_fields_from_push(x, sep, last, start, at + 1);
        }
    } else {
        assert(s[at] == sep);
        assert forall|k: int| at + 1 <= k < s.len() implies #[trigger] s[k] != sep by {
            assert(s[k] == last[k - at - 1]);
        }
        lemma_fields_from_last(s, sep, at + 1, at + 1);
        assert(s.subrange(at + 1, s.len() as int) =~= last);
        assert(s.subrange(start, at) =~= x.subrange(start, x.len() as int));
        assert(seq![x.subrange(start, x.len() as int)] + seq![last] =~= seq![
            x.subrange(start, x.len() as int),
        ].push(last));
    }
}

/// A separator and a last piece without separator add one piece to a text.
pub proof fn lemma_fields_push(x: Seq<char>, sep: char, last: Seq<char>)
    requires
        lacks(last, sep),
    ensures
        fields(x + seq![sep] + last, sep) == fields(x, sep).push(last),
{
    lemma_fields_from_push(x, sep, last, 0, 0);
}

/// Where `pat` stands in `s` at `at` and nowhere else, `at` is its last occurrence.
pub proof fn lemma_only_occurrence(s: Seq<char>, pat: Seq<char>, at: int)
    requires
        occurs_at(s, pat, at),
        forall|j: int| j != at ==> !occurs_at(s, pat, j),
    ensures
        has_substring(s, pat),
        last_occurrence(s, pat) == at,
{
    lemma_last_occurrence_below(s, pat, at, s.len() as int + 1);
}

/// Where `pat` stands at `at` and nowhere after it below `to`, `at` is its last
/// occurrence below `to`.
pub proof fn lemma_last_occurrence_below(s: Seq<char>, pat: Seq<char>, at: int, to: int)
    requires
        0 <= at < to,
        occurs_at(s, pat, at),
        forall|j: int| at < j < to ==> !occurs_at(s, pat, j),
    ensures
        last_occurrence_below(s, pat, to) == at,
    decreases to - at,
{
    if at + 1 < to {
        lemma_last_occurrence_below(s, pat, at, to - 1);
    }
}

/// A text that holds a character other than whitespace is not empty when trimmed.
pub proof fn lemma_trimmed_not_empty(s: Seq<char>, k: int)
    requires
        0 <= k < s.len(),
        !is_whitespace(s[k]),
    ensures
        trimmed(s).len() > 0,
{
    lemma_whitespace_end_before(s, 0, k);
    let start = whitespace_end(s, 0);
    lemma_trimmed_end_after(s, start, k, s.len() as int);
}

/// Scanning whitespace does not pass a character that is none.
pub proof fn lemma_whitespace_end_before(s: Seq<char>, from: int, k: int)
    requires
        0 <= from <= k < s.len(),
        !is_whitespace(s[k]),
    ensures
        from <= whitespace_end(s, from) <= k,
    decreases k - from,
{
    if from < k && is_whitespace(s[from]) {
        lemma_whitespace_end_before(s, from + 1, k);
    }
}

/// Trimming the end does not pass a character that is no whitespace.
pub proof fn lemma_trimmed_end_after(s: Seq<char>, from: int, k: int, to: int)
    requires
        0 <= from <= k < to <= s.len(),
        !is_whitespace(s[k]),
    ensures
        k < trimmed_end(s, from, to) <= to,
    decreases to - k,
{
    if k + 1 < to && is_whitespace(s[to - 1]) {
        lemma_trimmed_end_after(s, from, k, to - 1);
    }
}

/// Where `pat` stands in `s` at `at`, the characters of `s` from `at` on are those
/// of `pat`.
pub proof fn lemma_occurs_at_char(s: Seq<char>, pat: Seq<char>, at: int, k: int)
    requires
        occurs_at(s, pat, at),
        0 <= k < pat.len(),
    ensures
        s[at + k] == pat[k],
{
    assert(s.subrange(at, at + pat.len())[k] == pat[k]);
}

/// A text that lacks the first character of `pat` does not hold `pat`.
pub proof fn lemma_no_occurrence(s: Seq<char>, pat: Seq<char>)
    requires
        pat.len() > 0,
        lacks(s, pat[0]),
    ensures
        !has_substring(s, pat),
        forall|j: int| !occurs_at(s, pat, j),
{
    assert forall|j: int| !occurs_at(s, pat, j) by {
        if occurs_at(s, pat, j) {
            lemma_occurs_at_char(s, pat, j, 0);
        }
    }
}

} // verus!
