//! Text as sequences of characters: conversion, scanning and cutting.
//!
//! Every executable function works on a slice of `char` and is specified over the
//! `Seq<char>` that the slice stands for.

use vstd::prelude::*;
use vstd::slice::{slice_subrange, slice_to_vec};
use vstd::string::StringExecFns;

verus! {

/// Taken on trust of `String::push` of the standard library: it appends the character
/// `ch` to the end of the string and changes nothing else of it.
pub assume_specification[ String::push ](s: &mut String, ch: char)
    ensures
        final(s)@ == old(s)@.push(ch),
;

/// The characters of `s`, in order.
pub fn to_chars(s: &str) -> (v: Vec<char>)
    ensures
        v@ == s@,
{
    let mut v: Vec<char> = Vec::new();
    for c in it: s.chars()
        invariant
            v@ == s@.take(it.index()),
            it.seq() == s@,
    {
        v.push(c);
    }
    v
}

/// The string made of the characters of `chars`, in order.
pub fn to_string(chars: &[char]) -> (s: String)
    ensures
        s@ == chars@,
{
    let mut s = String::new();
    let mut i: usize = 0;
    while i < chars.len()
        invariant
            i <= chars@.len(),
            s@ == chars@.take(i as int),
        decreases chars@.len() - i,
    {
        s.push(chars[i]);
        i += 1;
    }
    s
}

/// Whether `c` has the Unicode property `White_Space`.
pub open spec fn is_whitespace(c: char) -> bool {
    let n: u32 = c as u32;
    ||| 0x09 <= n <= 0x0D
    ||| n == 0x20
    ||| n == 0x85
    ||| n == 0xA0
    ||| n == 0x1680
    ||| 0x2000 <= n <= 0x200A
    ||| n == 0x2028
    ||| n == 0x2029
    ||| n == 0x202F
    ||| n == 0x205F
    ||| n == 0x3000
}

/// Decides `is_whitespace`.
pub fn char_is_whitespace(c: char) -> (b: bool)
    ensures
        b == is_whitespace(c),
{
    let n: u32 = c as u32;
    (0x09 <= n && n <= 0x0D) || n == 0x20 || n == 0x85 || n == 0xA0 || n == 0x1680 || (0x2000 <= n
        && n <= 0x200A) || n == 0x2028 || n == 0x2029 || n == 0x202F || n == 0x205F || n == 0x3000
}

/// The first index at or after `from` that holds no whitespace; the length if there is none.
pub open spec fn whitespace_end(s: Seq<char>, from: int) -> int
    decreases s.len() - from,
{
    if 0 <= from < s.len() && is_whitespace(s[from]) {
        whitespace_end(s, from + 1)
    } else {
        from
    }
}

/// The first index at or after `from` that holds whitespace; the length if there is none.
pub open spec fn token_end(s: Seq<char>, from: int) -> int
    decreases s.len() - from,
{
    if 0 <= from < s.len() && !is_whitespace(s[from]) {
        token_end(s, from + 1)
    } else {
        from
    }
}

/// The `n`-th maximal run of non-whitespace characters that starts at or after `from`,
/// counting from zero. It is empty exactly when there is no such run.
pub open spec fn token_from(s: Seq<char>, from: int, n: nat) -> Seq<char>
    decreases n,
{
    let start = whitespace_end(s, from);
    let end = token_end(s, start);
    if n == 0 {
        s.subrange(start, end)
    } else {
        token_from(s, end, (n - 1) as nat)
    }
}

/// The `n`-th whitespace-separated token of `s`, counting from zero; empty if `s` has
/// fewer than `n + 1` tokens.
pub open spec fn token(s: Seq<char>, n: nat) -> Seq<char> {
    token_from(s, 0, n)
}

/// The first index at or after `from` that holds `c`; the length if there is none.
pub open spec fn first_index_of(s: Seq<char>, c: char, from: int) -> int
    decreases s.len() - from,
{
    if 0 <= from < s.len() && s[from] != c {
        first_index_of(s, c, from + 1)
    } else {
        from
    }
}

/// The last index below `to` that holds `c`; `-1` if there is none.
pub open spec fn last_index_of(s: Seq<char>, c: char, to: int) -> int
    decreases to,
{
    if 0 < to <= s.len() && s[to - 1] != c {
        last_index_of(s, c, to - 1)
    } else {
        to - 1
    }
}

/// Whether `pat` stands in `s` at index `i`.
pub open spec fn occurs_at(s: Seq<char>, pat: Seq<char>, i: int) -> bool {
    0 <= i && i + pat.len() <= s.len() && s.subrange(i, i + pat.len()) == pat
}

/// Whether `pat` stands somewhere in `s`.
pub open spec fn has_substring(s: Seq<char>, pat: Seq<char>) -> bool {
    exists|i: int| occurs_at(s, pat, i)
}

/// The last index below `to` at which `pat` stands in `s`; `-1` if there is none.
pub open spec fn last_occurrence_below(s: Seq<char>, pat: Seq<char>, to: int) -> int
    decreases to,
{
    if to <= 0 {
        -1
    } else if occurs_at(s, pat, to - 1) {
        to - 1
    } else {
        last_occurrence_below(s, pat, to - 1)
    }
}

/// The last index at which `pat` stands in `s`; `-1` if it stands nowhere in `s`.
pub open spec fn last_occurrence(s: Seq<char>, pat: Seq<char>) -> int {
    last_occurrence_below(s, pat, s.len() as int + 1)
}

/// `s` without the characters that occur in `unwanted`, the others in their order.
pub open spec fn without(s: Seq<char>, unwanted: Seq<char>) -> Seq<char> {
    s.filter(|c: char| !unwanted.contains(c))
}

/// The index after the last character below `to` and at or after `from` that is no
/// whitespace; `from` if there is none.
pub open spec fn trimmed_end(s: Seq<char>, from: int, to: int) -> int
    decreases to,
{
    if 0 <= from < to <= s.len() && is_whitespace(s[to - 1]) {
        trimmed_end(s, from, to - 1)
    } else {
        to
    }
}

/// `s` without its leading and trailing whitespace.
pub open spec fn trimmed(s: Seq<char>) -> Seq<char> {
    let start = whitespace_end(s, 0);
    s.subrange(start, trimmed_end(s, start, s.len() as int))
}

/// `s` without its last character; `s` itself if it is empty.
pub open spec fn without_last(s: Seq<char>) -> Seq<char> {
    if s.len() == 0 {
        s
    } else {
        s.drop_last()
    }
}

/// `s` without the prefix `prefix`; `s` itself if it does not start with it.
pub open spec fn without_prefix(s: Seq<char>, prefix: Seq<char>) -> Seq<char> {
    if occurs_at(s, prefix, 0) {
        s.subrange(prefix.len() as int, s.len() as int)
    } else {
        s
    }
}

/// `s` without the suffix `suffix`; `s` itself if it does not end with it.
pub open spec fn without_suffix(s: Seq<char>, suffix: Seq<char>) -> Seq<char> {
    if occurs_at(s, suffix, s.len() - suffix.len()) {
        s.subrange(0, s.len() - suffix.len())
    } else {
        s
    }
}

/// The pieces of `s` between the occurrences of `sep` at or after `at`, the first of
/// them starting at `start`.
pub open spec fn fields_from(s: Seq<char>, sep: char, start: int, at: int) -> Seq<Seq<char>>
    decreases s.len() - at,
{
    if 0 <= start <= at < s.len() {
        if s[at] == sep {
            seq![s.subrange(start, at)] + fields_from(s, sep, at + 1, at + 1)
        } else {
            fields_from(s, sep, start, at + 1)
        }
    } else {
        seq![s.subrange(start, s.len() as int)]
    }
}

/// The pieces into which the occurrences of `sep` cut `s`: one more than there are
/// occurrences, empty pieces included.
pub open spec fn fields(s: Seq<char>, sep: char) -> Seq<Seq<char>> {
    fields_from(s, sep, 0, 0)
}

/// `line` without one carriage return at its end, if it has one.
pub open spec fn without_carriage_return(line: Seq<char>) -> Seq<char> {
    if line.len() > 0 && line.last() == '\r' {
        line.drop_last()
    } else {
        line
    }
}

/// The lines of `s` at or after `at`, the first of them starting at `start`.
pub open spec fn lines_from(s: Seq<char>, start: int, at: int) -> Seq<Seq<char>>
    decreases s.len() - at,
{
    if 0 <= start <= at < s.len() {
        if s[at] == '\n' {
            seq![without_carriage_return(s.subrange(start, at))] + lines_from(s, at + 1, at + 1)
        } else {
            lines_from(s, start, at + 1)
        }
    } else if 0 <= start < s.len() {
        seq![s.subrange(start, s.len() as int)]
    } else {
        Seq::empty()
    }
}

/// The lines of `s`. A line ends with a line feed, or with a carriage return and a
/// line feed; neither belongs to the line. Text after the last line feed is a line of
/// its own unless it is empty.
pub open spec fn lines_of(s: Seq<char>) -> Seq<Seq<char>> {
    lines_from(s, 0, 0)
}

/// Computes `whitespace_end`.
pub fn skip_whitespace(s: &[char], from: usize) -> (end: usize)
    requires
        from <= s@.len(),
    ensures
        end == whitespace_end(s@, from as int),
        from <= end <= s@.len(),
{
    let mut i: usize = from;
    while i < s.len() && char_is_whitespace(s[i])
        invariant
            from <= i <= s@.len(),
            whitespace_end(s@, from as int) == whitespace_end(s@, i as int),
        decreases s@.len() - i,
    {
        i += 1;
    }
    i
}

/// Computes `token_end`.
pub fn skip_token(s: &[char], from: usize) -> (end: usize)
    requires
        from <= s@.len(),
    ensures
        end == token_end(s@, from as int),
        from <= end <= s@.len(),
{
    let mut i: usize = from;
    while i < s.len() && !char_is_whitespace(s[i])
        invariant
            from <= i <= s@.len(),
            token_end(s@, from as int) == token_end(s@, i as int),
        decreases s@.len() - i,
    {
        i += 1;
    }
    i
}

/// Computes `first_index_of`.
pub fn find_char(s: &[char], c: char, from: usize) -> (at: usize)
    requires
        from <= s@.len(),
    ensures
        at == first_index_of(s@, c, from as int),
        from <= at <= s@.len(),
        at < s@.len() ==> s@[at as int] == c,
{
    let mut i: usize = from;
    while i < s.len() && s[i] != c
        invariant
            from <= i <= s@.len(),
            first_index_of(s@, c, from as int) == first_index_of(s@, c, i as int),
        decreases s@.len() - i,
    {
        i += 1;
    }
    i
}

/// Computes `last_index_of` over the whole of `s`: the index of the last `c`, if any.
pub fn rfind_char(s: &[char], c: char) -> (at: Option<usize>)
    ensures
        match at {
            Some(i) => i == last_index_of(s@, c, s@.len() as int) && i < s@.len() && s@[i as int]
                == c,
            None => last_index_of(s@, c, s@.len() as int) == -1,
        },
{
    let mut i: usize = s.len();
    while i > 0 && s[i - 1] != c
        invariant
            i <= s@.len(),
            last_index_of(s@, c, s@.len() as int) == last_index_of(s@, c, i as int),
        decreases i,
    {
        i -= 1;
    }
    if i == 0 {
        None
    } else {
        Some(i - 1)
    }
}

/// Decides `occurs_at`.
pub fn starts_at(s: &[char], pat: &[char], i: usize) -> (b: bool)
    ensures
        b == occurs_at(s@, pat@, i as int),
{
    if i > s.len() || pat.len() > s.len() - i {
        return false;
    }
    let mut k: usize = 0;
    while k < pat.len()
        invariant
            k <= pat@.len(),
            i + pat@.len() <= s@.len() <= usize::MAX,
            forall|j: int| 0 <= j < k ==> s@[i + j] == pat@[j],
        decreases pat@.len() - k,
    {
        if s[i + k] != pat[k] {
            assert(s@.subrange(i as int, i + pat@.len())[k as int] != pat@[k as int]);
            return false;
        }
        k += 1;
    }
    assert(s@.subrange(i as int, i + pat@.len()) =~= pat@);
    true
}

/// Computes `last_occurrence`: the index at which `pat` stands for the last time, if
/// it stands in `s` at all.
pub fn rfind_str(s: &[char], pat: &[char]) -> (at: Option<usize>)
    ensures
        match at {
            Some(i) => i == last_occurrence(s@, pat@) && occurs_at(s@, pat@, i as int),
            None => last_occurrence(s@, pat@) == -1,
        },
        at is Some <==> has_substring(s@, pat@),
{
    let mut i: usize = s.len();
    if starts_at(s, pat, i) {
        return Some(i);
    }
    while i > 0
        invariant
            i <= s@.len(),
            last_occurrence(s@, pat@) == last_occurrence_below(s@, pat@, i as int),
            forall|j: int| i <= j ==> !occurs_at(s@, pat@, j),
        decreases i,
    {
        if starts_at(s, pat, i - 1) {
            return Some(i - 1);
        }
        i -= 1;
    }
    assert(forall|j: int| !occurs_at(s@, pat@, j));
    None
}

/// Computes `without_prefix`, as a part of `s`.
pub fn strip_prefix<'a>(s: &'a [char], prefix: &[char]) -> (rest: &'a [char])
    ensures
        rest@ == without_prefix(s@, prefix@),
{
    if starts_at(s, prefix, 0) {
        slice_subrange(s, prefix.len(), s.len())
    } else {
        s
    }
}

/// Computes `without_suffix`, as a part of `s`.
pub fn strip_suffix<'a>(s: &'a [char], suffix: &[char]) -> (rest: &'a [char])
    ensures
        rest@ == without_suffix(s@, suffix@),
{
    if s.len() >= suffix.len() && starts_at(s, suffix, s.len() - suffix.len()) {
        slice_subrange(s, 0, s.len() - suffix.len())
    } else {
        s
    }
}

/// Whether `c` is an element of `set`.
pub fn char_in(set: &[char], c: char) -> (b: bool)
    ensures
        b == set@.contains(c),
{
    let mut i: usize = 0;
    while i < set.len()
        invariant
            i <= set@.len(),
            forall|j: int| 0 <= j < i ==> set@[j] != c,
        decreases set@.len() - i,
    {
        if set[i] == c {
            return true;
        }
        i += 1;
    }
    false
}

/// Computes `without`.
pub fn remove_all(s: &[char], unwanted: &[char]) -> (kept: Vec<char>)
    ensures
        kept@ == without(s@, unwanted@),
{
    let mut kept: Vec<char> = Vec::new();
    proof {
        reveal(Seq::filter);
    }
    let ghost keep = |c: char| !unwanted@.contains(c);
    let mut i: usize = 0;
    while i < s.len()
        invariant
            i <= s@.len(),
            keep == (|c: char| !unwanted@.contains(c)),
            kept@ == s@.take(i as int).filter(keep),
        decreases s@.len() - i,
    {
        let c = s[i];
        proof {
            assert(s@.take(i + 1) =~= s@.take(i as int).push(c));
            s@.take(i as int).lemma_filter_push(c, keep);
        }
        if !char_in(unwanted, c) {
            kept.push(c);
        }
        i += 1;
    }
    assert(s@.take(s@.len() as int) =~= s@);
    kept
}

/// Computes `trimmed`, as a part of `s`.
pub fn trim(s: &[char]) -> (t: &[char])
    ensures
        t@ == trimmed(s@),
{
    let start = skip_whitespace(s, 0);
    let mut end: usize = s.len();
    while start < end && char_is_whitespace(s[end - 1])
        invariant
            start <= end <= s@.len(),
            trimmed_end(s@, start as int, s@.len() as int) == trimmed_end(
                s@,
                start as int,
                end as int,
            ),
        decreases end,
    {
        end -= 1;
    }
    slice_subrange(s, start, end)
}

/// Computes `fields`.
pub fn split(s: &[char], sep: char) -> (pieces: Vec<Vec<char>>)
    ensures
        pieces@.len() == fields(s@, sep).len(),
        forall|k: int| 0 <= k < pieces@.len() ==> (#[trigger] pieces@[k])@ == fields(s@, sep)[k],
{
    let mut pieces: Vec<Vec<char>> = Vec::new();
    let ghost mut done: Seq<Seq<char>> = Seq::empty();
    let mut start: usize = 0;
    let mut at: usize = 0;
    while at < s.len()
        invariant
            start <= at <= s@.len(),
            fields(s@, sep) == done + fields_from(s@, sep, start as int, at as int),
            pieces@.len() == done.len(),
            forall|k: int| 0 <= k < pieces@.len() ==> (#[trigger] pieces@[k])@ == done[k],
        decreases s@.len() - at,
    {
        if s[at] == sep {
            pieces.push(slice_to_vec(slice_subrange(s, start, at)));
            proof {
                let piece = s@.subrange(start as int, at as int);
                assert(done + (seq![piece] + fields_from(s@, sep, at + 1, at + 1)) =~= done.push(
                    piece,
                ) + fields_from(s@, sep, at + 1, at + 1));
                done = done.push(piece);
            }
            start = at + 1;
        }
        at += 1;
    }
    pieces.push(slice_to_vec(slice_subrange(s, start, s.len())));
    proof {
        let piece = s@.subrange(start as int, s@.len() as int);
        assert(done + seq![piece] =~= done.push(piece));
        done = done.push(piece);
    }
    pieces
}

/// Computes `lines_of`.
pub fn lines(s: &[char]) -> (found: Vec<Vec<char>>)
    ensures
        found@.len() == lines_of(s@).len(),
        forall|k: int| 0 <= k < found@.len() ==> (#[trigger] found@[k])@ == lines_of(s@)[k],
{
    let mut found: Vec<Vec<char>> = Vec::new();
    let ghost mut done: Seq<Seq<char>> = Seq::empty();
    let mut start: usize = 0;
    let mut at: usize = 0;
    while at < s.len()
        invariant
            start <= at <= s@.len(),
            lines_of(s@) == done + lines_from(s@, start as int, at as int),
            found@.len() == done.len(),
            forall|k: int| 0 <= k < found@.len() ==> (#[trigger] found@[k])@ == done[k],
        decreases s@.len() - at,
    {
        if s[at] == '\n' {
            let end = if start < at && s[at - 1] == '\r' {
                at - 1
            } else {
                at
            };
            found.push(slice_to_vec(slice_subrange(s, start, end)));
            proof {
                let line = without_carriage_return(s@.subrange(start as int, at as int));
                assert(line =~= s@.subrange(start as int, end as int));
                assert(done + (seq![line] + lines_from(s@, at + 1, at + 1)) =~= done.push(line)
                    + lines_from(s@, at + 1, at + 1));
                done = done.push(line);
            }
            start = at + 1;
        }
        at += 1;
    }
    if start < s.len() {
        found.push(slice_to_vec(slice_subrange(s, start, s.len())));
        proof {
            let line = s@.subrange(start as int, s@.len() as int);
            assert(done + seq![line] =~= done.push(line));
            done = done.push(line);
        }
    } else {
        assert(done + Seq::<Seq<char>>::empty() =~= done);
    }
    found
}

/// Appends the characters of `chars` to `s`.
pub fn append_chars(s: &mut String, chars: &[char])
    ensures
        final(s)@ == old(s)@ + chars@,
{
    let mut i: usize = 0;
    while i < chars.len()
        invariant
            i <= chars@.len(),
            s@ == old(s)@ + chars@.take(i as int),
        decreases chars@.len() - i,
    {
        s.push(chars[i]);
        assert(chars@.take(i + 1) =~= chars@.take(i as int).push(chars@[i as int]));
        i += 1;
    }
    assert(chars@.take(chars@.len() as int) =~= chars@);
}

/// The elements of `parts` with `sep` between each two neighbours.
pub open spec fn joined(parts: Seq<Seq<char>>, sep: Seq<char>) -> Seq<char>
    decreases parts.len(),
{
    if parts.len() == 0 {
        Seq::empty()
    } else if parts.len() == 1 {
        parts[0]
    } else {
        joined(parts.drop_last(), sep) + sep + parts.last()
    }
}

/// Computes `joined`.
pub fn join(parts: &Vec<String>, sep: &str) -> (s: String)
    ensures
        s@ == joined(parts.deep_view(), sep@),
{
    let mut s = String::new();
    let mut i: usize = 0;
    while i < parts.len()
        invariant
            i <= parts@.len(),
            s@ == joined(parts.deep_view().take(i as int), sep@),
        decreases parts@.len() - i,
    {
        if i > 0 {
            s.append(sep);
        }
        s.append(parts[i].as_str());
        proof {
            let next = parts.deep_view().take(i + 1);
            assert(next.drop_last() =~= parts.deep_view().take(i as int));
            assert(next.last() == parts@[i as int]@);
            assert(s@ =~= joined(next, sep@));
        }
        i += 1;
    }
    assert(parts.deep_view().take(parts@.len() as int) =~= parts.deep_view());
    s
}

} // verus!
