//! How a line of the manifest is written, and that decoding a written line gives
//! back what was written.

use crate::parse::{
    binary_name, decode_error, decoded, git_refspec, git_repo, git_url, has_three_tokens,
    in_quotes, is_assignment, last_assignment, line_binaries, line_key, line_name, line_source,
    line_value, line_version, list_content, refspec_count, source_has_locator, source_kind,
    source_locator, unquoted, value_after, value_binaries, CrateInfoView, DecodeError,
    ProvenanceView, RefspecView,
};
use crate::text::{
    fields, first_index_of, has_substring, is_whitespace, last_occurrence, occurs_at, token,
    without,
};
use crate::text_lemmas::{
    has_no_whitespace, is_trimmed, lacks, lacks_all, lemma_fields_one, lemma_fields_push,
    lemma_first_index_of, lemma_first_index_of_is_first, lemma_last_index_of,
    lemma_no_occurrence, lemma_occurs_at_char, lemma_only_occurrence, lemma_token_of_concat,
    lemma_trimmed, lemma_trimmed_not_empty, lemma_without_concat, lemma_without_nothing,
    lemma_without_one,
};
use vstd::prelude::*;

verus! {

/// `s` between double quotes.
pub open spec fn quoted(s: Seq<char>) -> Seq<char> {
    seq!['"'] + s + seq!['"']
}

/// The source descriptor of a line: `(<kind>+<locator>)`.
pub open spec fn source_text(kind: Seq<char>, locator: Seq<char>) -> Seq<char> {
    seq!['('] + kind + seq!['+'] + locator + seq![')']
}

/// The key of a line: `"<name> <version> (<kind>+<locator>)"`.
pub open spec fn key_text(
    name: Seq<char>,
    version: Seq<char>,
    kind: Seq<char>,
    locator: Seq<char>,
) -> Seq<char> {
    quoted(name + seq![' '] + version + seq![' '] + source_text(kind, locator))
}

/// The items of a list of binaries: each name between double quotes, with a comma and
/// a space between two neighbours.
pub open spec fn list_items(binaries: Seq<Seq<char>>) -> Seq<char>
    decreases binaries.len(),
{
    if binaries.len() == 0 {
        Seq::empty()
    } else if binaries.len() == 1 {
        quoted(binaries[0])
    } else {
        list_items(binaries.drop_last()) + seq![',', ' '] + quoted(binaries.last())
    }
}

/// The value of a line: `[<items>]`.
pub open spec fn list_text(binaries: Seq<Seq<char>>) -> Seq<char> {
    seq!['['] + list_items(binaries) + seq![']']
}

/// A line of the manifest: `<key> = <value>`.
pub open spec fn line_text(
    name: Seq<char>,
    version: Seq<char>,
    kind: Seq<char>,
    locator: Seq<char>,
    binaries: Seq<Seq<char>>,
) -> Seq<char> {
    key_text(name, version, kind, locator) + seq![' ', '=', ' '] + list_text(binaries)
}

/// The part of a git locator that names a revision, a tag or a branch.
pub open spec fn query_text(refspec: Option<RefspecView>) -> Seq<char> {
    match refspec {
        Some(RefspecView::Rev(rev)) => "?rev="@ + rev,
        Some(RefspecView::Tag(tag)) => "?tag="@ + tag,
        Some(RefspecView::Branch(branch)) => "?branch="@ + branch,
        None => Seq::empty(),
    }
}

/// The locator of a crate from a git repository:
/// `<address>[?rev=<rev>|?tag=<tag>|?branch=<branch>]#<commit>`.
pub open spec fn git_locator(
    repo_url: Seq<char>,
    refspec: Option<RefspecView>,
    commit: Seq<char>,
) -> Seq<char> {
    repo_url + query_text(refspec) + seq!['#'] + commit
}

/// What a name or a version may be: not empty, without whitespace and double quotes.
pub open spec fn is_word(s: Seq<char>) -> bool {
    s.len() > 0 && has_no_whitespace(s) && lacks(s, '"')
}

/// What may stand in a source descriptor: no whitespace, double quotes or
/// parentheses.
pub open spec fn is_plain(s: Seq<char>) -> bool {
    has_no_whitespace(s) && lacks(s, '"') && lacks(s, '(') && lacks(s, ')')
}

/// What may stand in a git locator as an address, a revision, a tag or a branch:
/// plain text without `?`.
pub open spec fn is_git_part(s: Seq<char>) -> bool {
    is_plain(s) && lacks(s, '?')
}

/// What may stand in a git locator as the resolved commit: plain text without `#`.
pub open spec fn is_commit(s: Seq<char>) -> bool {
    is_plain(s) && lacks(s, '#')
}

/// Whether the revision, tag or branch of `refspec` may stand in a git locator.
pub open spec fn is_refspec(refspec: Option<RefspecView>) -> bool {
    match refspec {
        Some(RefspecView::Rev(rev)) => is_git_part(rev),
        Some(RefspecView::Tag(tag)) => is_git_part(tag),
        Some(RefspecView::Branch(branch)) => is_git_part(branch),
        None => true,
    }
}

/// What the name of a binary may be: no whitespace at its ends, no comma and no
/// double quote.
pub open spec fn is_binary_name(s: Seq<char>) -> bool {
    is_trimmed(s) && lacks(s, ',') && lacks(s, '"')
}

/// Whether every element of `binaries` may be the name of a binary.
pub open spec fn are_binary_names(binaries: Seq<Seq<char>>) -> bool {
    forall|i: int| 0 <= i < binaries.len() ==> is_binary_name(#[trigger] binaries[i])
}

/// Whether the double quotes of `s` come in pairs and every `=` of `s` stands between
/// the two of a pair.
pub open spec fn hides_assignments(s: Seq<char>) -> bool {
    &&& !in_quotes(s, s.len() as int)
    &&& forall|i: int| 0 <= i < s.len() && s[i] == '=' ==> #[trigger] in_quotes(s, i)
}

/// Whether an index lies inside double quotes depends on the text before it alone.
proof fn lemma_in_quotes_prefix(a: Seq<char>, b: Seq<char>, i: int)
    requires
        0 <= i <= a.len(),
    ensures
        in_quotes(a + b, i) == in_quotes(a, i),
    decreases i,
{
    if i > 0 {
        lemma_in_quotes_prefix(a, b, i - 1);
        assert((a + b)[i - 1] == a[i - 1]);
    }
}

/// In the second part of a text, an index lies inside double quotes exactly when it
/// does so in that part alone, unless the first part ends inside double quotes; then
/// it is the other way round.
proof fn lemma_in_quotes_shift(a: Seq<char>, b: Seq<char>, i: int)
    requires
        0 <= i <= b.len(),
    ensures
        in_quotes(a + b, a.len() + i) == (in_quotes(a, a.len() as int) != in_quotes(b, i)),
    decreases i,
{
    if i == 0 {
        lemma_in_quotes_prefix(a, b, a.len() as int);
    } else {
        lemma_in_quotes_shift(a, b, i - 1);
        assert((a + b)[a.len() + i - 1] == b[i - 1]);
    }
}

/// In a text without double quotes no index lies inside double quotes.
proof fn lemma_in_quotes_none(s: Seq<char>, i: int)
    requires
        lacks(s, '"'),
        0 <= i <= s.len(),
    ensures
        !in_quotes(s, i),
    decreases i,
{
    if i > 0 {
        lemma_in_quotes_none(s, i - 1);
    }
}

/// A text without double quotes and without `=` hides its assignments.
proof fn lemma_hides_none(s: Seq<char>)
    requires
        lacks(s, '"'),
        lacks(s, '='),
    ensures
        hides_assignments(s),
{
    lemma_in_quotes_none(s, s.len() as int);
}

/// A text without double quotes, put between double quotes, hides its assignments.
proof fn lemma_hides_quoted(s: Seq<char>)
    requires
        lacks(s, '"'),
    ensures
        hides_assignments(quoted(s)),
{
    let q = quoted(s);
    let open = seq!['"'];
    assert(in_quotes(open, 1)) by {
        assert(!in_quotes(open, 0));
    }
    assert(q =~= open + (s + seq!['"']));
    assert forall|i: int| 1 <= i <= s.len() + 1 implies #[trigger] in_quotes(q, i) by {
        lemma_in_quotes_shift(open, s + seq!['"'], i - 1);
        lemma_in_quotes_prefix(s, seq!['"'], i - 1);
        lemma_in_quotes_none(s, i - 1);
    }
    assert(q[s.len() as int + 1] == '"');
    assert(in_quotes(q, s.len() as int + 1));
    assert(!in_quotes(q, q.len() as int));
    assert forall|i: int| 0 <= i < q.len() && q[i] == '=' implies #[trigger] in_quotes(q, i) by {
        assert(q[0] == '"');
    }
}

/// Two texts that hide their assignments do so together.
proof fn lemma_hides_concat(a: Seq<char>, b: Seq<char>)
    requires
        hides_assignments(a),
        hides_assignments(b),
    ensures
        hides_assignments(a + b),
{
    let s = a + b;
    lemma_in_quotes_shift(a, b, b.len() as int);
    assert forall|i: int| 0 <= i < s.len() && s[i] == '=' implies #[trigger] in_quotes(s, i) by {
        if i < a.len() {
            lemma_in_quotes_prefix(a, b, i);
            assert(s[i] == a[i]);
        } else {
            lemma_in_quotes_shift(a, b, i - a.len());
            assert(s[i] == b[i - a.len()]);
        }
    }
}

/// The items of a list of binaries hide their assignments.
proof fn lemma_hides_list_items(binaries: Seq<Seq<char>>)
    requires
        are_binary_names(binaries),
    ensures
        hides_assignments(list_items(binaries)),
    decreases binaries.len(),
{
    if binaries.len() == 0 {
        lemma_hides_none(Seq::<char>::empty());
    } else if binaries.len() == 1 {
        lemma_hides_quoted(binaries[0]);
    } else {
        lemma_hides_list_items(binaries.drop_last());
        lemma_hides_none(seq![',', ' ']);
        lemma_hides_quoted(binaries.last());
        lemma_hides_concat(list_items(binaries.drop_last()), seq![',', ' ']);
        lemma_hides_concat(
            list_items(binaries.drop_last()) + seq![',', ' '],
            quoted(binaries.last()),
        );
    }
}

/// Where a `=` outside double quotes stands at `at` and none after it below `to`,
/// `at` is the last assignment below `to`.
proof fn lemma_last_assignment(s: Seq<char>, to: int, at: int)
    requires
        0 <= at < to <= s.len(),
        is_assignment(s, at),
        forall|k: int| at < k < to ==> !is_assignment(s, k),
    ensures
        last_assignment(s, to) == at,
    decreases to - at,
{
    if at + 1 < to {
        lemma_last_assignment(s, to - 1, at);
    }
}

/// The key of a written line is what stands before its `=`, and its value the space
/// and the list after it.
proof fn lemma_key_and_value(key: Seq<char>, binaries: Seq<Seq<char>>)
    requires
        lacks(key, '"'),
        are_binary_names(binaries),
    ensures
        line_key(quoted(key) + seq![' ', '=', ' '] + list_text(binaries)) == quoted(key) + seq![
            ' ',
        ],
        line_value(quoted(key) + seq![' ', '=', ' '] + list_text(binaries)) == seq![' ']
            + list_text(binaries),
{
    let head = quoted(key) + seq![' ', '='];
    let tail = seq![' '] + list_text(binaries);
    let line = quoted(key) + seq![' ', '=', ' '] + list_text(binaries);
    assert(line =~= head + tail);
    let at = head.len() - 1;
    // the text up to the assignment ends outside double quotes
    lemma_hides_quoted(key);
    lemma_hides_none(seq![' ']);
    lemma_hides_concat(quoted(key), seq![' ']);
    assert(head =~= (quoted(key) + seq![' ']) + seq!['=']);
    assert(!in_quotes(head, at)) by {
        lemma_in_quotes_prefix(quoted(key) + seq![' '], seq!['='], at);
    }
    assert(!in_quotes(head, head.len() as int));
    assert(is_assignment(line, at)) by {
        lemma_in_quotes_prefix(head, tail, at);
        assert(line[at] == '=');
    }
    // the list hides its assignments
    lemma_hides_none(seq![' ', '[']);
    lemma_hides_list_items(binaries);
    lemma_hides_none(seq![']']);
    lemma_hides_concat(seq![' ', '['], list_items(binaries));
    lemma_hides_concat(seq![' ', '['] + list_items(binaries), seq![']']);
    assert(tail =~= seq![' ', '['] + list_items(binaries) + seq![']']);
    assert forall|k: int| at < k < line.len() implies !is_assignment(line, k) by {
        lemma_in_quotes_shift(head, tail, k - head.len());
        assert(line[k] == tail[k - head.len()]);
    }
    lemma_last_assignment(line, line.len() as int, at);
    assert(line.subrange(at + 1, line.len() as int) =~= tail);
    assert(line.subrange(0, at) =~= quoted(key) + seq![' ']);
}

/// A text between double quotes is that text again when the quotes are taken off.
proof fn lemma_unquoted(s: Seq<char>)
    ensures
        unquoted(quoted(s)) == s,
{
    reveal_strlit("\"");
    let quote = "\""@;
    let q = quoted(s);
    assert(q.subrange(0, 1) =~= quote);
    let rest = q.subrange(1, q.len() as int);
    assert(rest =~= s + seq!['"']);
    assert(rest.subrange(rest.len() - 1, rest.len() as int) =~= quote);
    assert(rest.subrange(0, rest.len() - 1) =~= s);
}

/// A piece of a written list, which holds one name between double quotes, after a
/// space or not, names that binary.
proof fn lemma_binary_name(pad: Seq<char>, name: Seq<char>)
    requires
        is_trimmed(name),
        pad == seq![' '] || pad == Seq::<char>::empty(),
    ensures
        binary_name(pad + quoted(name)) == name,
{
    let q = quoted(name);
    assert(is_trimmed(q)) by {
        assert(q[0] == '"');
        assert(q.last() == '"');
    }
    assert(is_whitespace(' '));
    lemma_trimmed(pad, q, Seq::<char>::empty());
    assert(pad + q + Seq::<char>::empty() =~= pad + q);
    lemma_unquoted(name);
    lemma_trimmed(Seq::<char>::empty(), name, Seq::<char>::empty());
    assert(Seq::<char>::empty() + name + Seq::<char>::empty() =~= name);
}

/// The pieces of the items of a written list name the binaries.
proof fn lemma_list_pieces(binaries: Seq<Seq<char>>)
    requires
        binaries.len() > 0,
        are_binary_names(binaries),
    ensures
        fields(list_items(binaries), ',').map_values(|piece: Seq<char>| binary_name(piece))
            == binaries,
    decreases binaries.len(),
{
    let name_of = |piece: Seq<char>| binary_name(piece);
    let items = list_items(binaries);
    let last = binaries.last();
    if binaries.len() == 1 {
        assert(lacks(items, ','));
        lemma_fields_one(items, ',');
        lemma_binary_name(Seq::<char>::empty(), last);
        assert(items =~= Seq::<char>::empty() + quoted(last));
        assert(seq![items].map_values(name_of) =~= binaries);
    } else {
        let before = list_items(binaries.drop_last());
        let piece = seq![' '] + quoted(last);
        lemma_list_pieces(binaries.drop_last());
        assert(items =~= before + seq![','] + piece);
        lemma_fields_push(before, ',', piece);
        lemma_binary_name(seq![' '], last);
        assert(fields(before, ',').push(piece).map_values(name_of) =~= fields(
            before,
            ',',
        ).map_values(name_of).push(last));
        assert(binaries.drop_last().push(last) =~= binaries);
    }
}

/// The content of the value of a written line is the items of its list.
proof fn lemma_list_content(binaries: Seq<Seq<char>>)
    ensures
        list_content(seq![' '] + list_text(binaries)) == list_items(binaries),
{
    reveal_strlit("[");
    reveal_strlit("]");
    let list = list_text(binaries);
    let items = list_items(binaries);
    assert(is_trimmed(list)) by {
        assert(list[0] == '[');
        assert(list.last() == ']');
    }
    assert(is_whitespace(' '));
    lemma_trimmed(seq![' '], list, Seq::<char>::empty());
    assert(seq![' '] + list + Seq::<char>::empty() =~= seq![' '] + list);
    assert(list.subrange(0, 1) =~= "["@);
    let rest = list.subrange(1, list.len() as int);
    assert(rest =~= items + seq![']']);
    assert(rest.subrange(rest.len() - 1, rest.len() as int) =~= "]"@);
    assert(rest.subrange(0, rest.len() - 1) =~= items);
}

/// The value of a written line lists the binaries that were written.
proof fn lemma_value_binaries(binaries: Seq<Seq<char>>)
    requires
        are_binary_names(binaries),
    ensures
        value_binaries(seq![' '] + list_text(binaries)) == binaries,
{
    let items = list_items(binaries);
    lemma_list_content(binaries);
    if binaries.len() == 0 {
        assert(items =~= Seq::<char>::empty());
        lemma_trimmed(Seq::<char>::empty(), Seq::<char>::empty(), Seq::<char>::empty());
        assert(Seq::<char>::empty() + Seq::<char>::empty() + Seq::<char>::empty()
            =~= Seq::<char>::empty());
        assert(binaries =~= Seq::<Seq<char>>::empty());
    } else {
        assert(items.last() == '"') by {
            assert(quoted(binaries.last()).last() == '"');
        }
        lemma_trimmed_not_empty(items, items.len() - 1);
        lemma_list_pieces(binaries);
    }
}

/// The tokens of the key of a written line, with the space that follows it.
proof fn lemma_key_tokens(
    name: Seq<char>,
    version: Seq<char>,
    kind: Seq<char>,
    locator: Seq<char>,
)
    requires
        is_word(name),
        is_word(version),
        has_no_whitespace(kind),
        has_no_whitespace(locator),
    ensures
        token(key_text(name, version, kind, locator) + seq![' '], 0) == seq!['"'] + name,
        token(key_text(name, version, kind, locator) + seq![' '], 1) == version,
        token(key_text(name, version, kind, locator) + seq![' '], 2) == source_text(kind, locator)
            + seq!['"'],
        token(key_text(name, version, kind, locator) + seq![' '], 3) == Seq::<char>::empty(),
{
    let key = key_text(name, version, kind, locator) + seq![' '];
    let first = seq!['"'] + name;
    let third = source_text(kind, locator) + seq!['"'];
    let rest = Seq::<char>::empty();
    let from_third = third + seq![' '] + rest;
    let from_second = version + seq![' '] + from_third;
    assert(key =~= first + seq![' '] + from_second);
    assert(has_no_whitespace(first)) by {
        assert forall|i: int| 0 <= i < first.len() implies !is_whitespace(#[trigger] first[i]) by {
            if i > 0 {
                assert(first[i] == name[i - 1]);
            }
        }
    }
    assert(has_no_whitespace(third)) by {
        assert forall|i: int| 0 <= i < third.len() implies !is_whitespace(#[trigger] third[i]) by {
            if 1 <= i < 1 + kind.len() {
                assert(third[i] == kind[i - 1]);
            } else if 2 + kind.len() <= i < 2 + kind.len() + locator.len() {
                assert(third[i] == locator[i - 2 - kind.len()]);
            }
        }
    }
    lemma_token_of_concat(first, from_second, 0);
    lemma_token_of_concat(first, from_second, 1);
    lemma_token_of_concat(first, from_second, 2);
    lemma_token_of_concat(version, from_third, 0);
    lemma_token_of_concat(version, from_third, 1);
    lemma_token_of_concat(third, rest, 0);
    assert(token(rest, 0) =~= Seq::<char>::empty());
}

/// The first token of a written line without the quote before it is the name.
proof fn lemma_name_of_token(name: Seq<char>)
    requires
        lacks(name, '"'),
    ensures
        unquoted(seq!['"'] + name) == name,
{
    reveal_strlit("\"");
    let quote = "\""@;
    let first = seq!['"'] + name;
    assert(first.subrange(0, 1) =~= quote);
    assert(first.subrange(1, first.len() as int) =~= name);
    if occurs_at(name, quote, name.len() - 1) {
        assert(name.subrange(name.len() - 1, name.len() as int)[0] == '"');
    }
}

/// The third token of a written line without its parentheses is the kind, a `+`, the
/// locator and the double quote that closes the key.
proof fn lemma_source_of_token(kind: Seq<char>, locator: Seq<char>)
    requires
        is_plain(kind),
        is_plain(locator),
    ensures
        without(source_text(kind, locator) + seq!['"'], "()"@) == kind + seq!['+'] + locator
            + seq!['"'],
{
    reveal_strlit("()");
    let parentheses = "()"@;
    assert(parentheses.contains('(')) by {
        assert(parentheses[0] == '(');
    }
    assert(parentheses.contains(')')) by {
        assert(parentheses[1] == ')');
    }
    assert(lacks_all(kind, parentheses));
    assert(lacks_all(locator, parentheses));
    lemma_without_one('(', parentheses);
    lemma_without_one(')', parentheses);
    lemma_without_one('+', parentheses);
    lemma_without_one('"', parentheses);
    lemma_without_nothing(kind, parentheses);
    lemma_without_nothing(locator, parentheses);
    lemma_without_concat(seq!['('], kind, parentheses);
    lemma_without_concat(seq!['('] + kind, seq!['+'], parentheses);
    lemma_without_concat(seq!['('] + kind + seq!['+'], locator, parentheses);
    lemma_without_concat(seq!['('] + kind + seq!['+'] + locator, seq![')'], parentheses);
    lemma_without_concat(source_text(kind, locator), seq!['"'], parentheses);
    assert(without(source_text(kind, locator) + seq!['"'], parentheses) =~= kind + seq!['+']
        + locator + seq!['"']);
}

/// The kind and the locator of a written source descriptor.
proof fn lemma_source_parts(kind: Seq<char>, locator: Seq<char>)
    requires
        lacks(kind, '+'),
    ensures
        source_has_locator(kind + seq!['+'] + locator + seq!['"']),
        source_kind(kind + seq!['+'] + locator + seq!['"']) == kind,
        source_locator(kind + seq!['+'] + locator + seq!['"']) == locator,
{
    let source = kind + seq!['+'] + locator + seq!['"'];
    let plus = kind.len() as int;
    assert forall|k: int| 0 <= k < plus implies #[trigger] source[k] != '+' by {
        assert(source[k] == kind[k]);
    }
    assert(source[plus] == '+');
    lemma_first_index_of(source, '+', 0, plus);
    assert(source.subrange(0, plus) =~= kind);
    reveal_strlit("\"");
    let after = source.subrange(plus + 1, source.len() as int);
    assert(after =~= locator + seq!['"']);
    assert(after.subrange(after.len() - 1, after.len() as int) =~= "\""@);
    assert(after.subrange(0, after.len() - 1) =~= locator);
}

/// The key of a written line holds no double quote but the two around it.
proof fn lemma_key_lacks_quotes(
    name: Seq<char>,
    version: Seq<char>,
    kind: Seq<char>,
    locator: Seq<char>,
)
    requires
        lacks(name, '"'),
        lacks(version, '"'),
        lacks(kind, '"'),
        lacks(locator, '"'),
    ensures
        lacks(name + seq![' '] + version + seq![' '] + source_text(kind, locator), '"'),
{
    let key = name + seq![' '] + version + seq![' '] + source_text(kind, locator);
    assert forall|i: int| 0 <= i < key.len() implies #[trigger] key[i] != '"' by {
        let n = name.len() as int;
        let v = version.len() as int;
        let k = kind.len() as int;
        if i < n {
            assert(key[i] == name[i]);
        } else if n + 1 <= i < n + 1 + v {
            assert(key[i] == version[i - n - 1]);
        } else if n + v + 3 <= i < n + v + 3 + k {
            assert(key[i] == kind[i - n - v - 3]);
        } else if n + v + k + 4 <= i < n + v + k + 4 + locator.len() {
            assert(key[i] == locator[i - n - v - k - 4]);
        }
    }
}

/// What a written line holds, part by part.
pub proof fn lemma_line_parts(
    name: Seq<char>,
    version: Seq<char>,
    kind: Seq<char>,
    locator: Seq<char>,
    binaries: Seq<Seq<char>>,
)
    requires
        is_word(name),
        is_word(version),
        is_plain(kind),
        lacks(kind, '+'),
        is_plain(locator),
        are_binary_names(binaries),
    ensures
        has_three_tokens(line_text(name, version, kind, locator, binaries)),
        line_name(line_text(name, version, kind, locator, binaries)) == name,
        line_version(line_text(name, version, kind, locator, binaries)) == version,
        source_has_locator(line_source(line_text(name, version, kind, locator, binaries))),
        source_kind(line_source(line_text(name, version, kind, locator, binaries))) == kind,
        source_locator(line_source(line_text(name, version, kind, locator, binaries))) == locator,
        line_binaries(line_text(name, version, kind, locator, binaries)) == binaries,
{
    let line = line_text(name, version, kind, locator, binaries);
    let key = key_text(name, version, kind, locator) + seq![' '];
    let source = kind + seq!['+'] + locator + seq!['"'];
    assert(line_key(line) == key && line_value(line) == seq![' '] + list_text(binaries)) by {
        lemma_key_lacks_quotes(name, version, kind, locator);
        lemma_key_and_value(
            name + seq![' '] + version + seq![' '] + source_text(kind, locator),
            binaries,
        );
    }
    assert(token(key, 0) == seq!['"'] + name && token(key, 1) == version && token(key, 2)
        == source_text(kind, locator) + seq!['"'] && token(key, 3) == Seq::<char>::empty()) by {
        lemma_key_tokens(name, version, kind, locator);
    }
    assert(line_name(line) == name) by {
        lemma_name_of_token(name);
    }
    assert(line_source(line) == source) by {
        lemma_source_of_token(kind, locator);
    }
    assert(source_has_locator(source) && source_kind(source) == kind && source_locator(source)
        == locator) by {
        lemma_source_parts(kind, locator);
    }
    assert(line_binaries(line) == binaries) by {
        lemma_value_binaries(binaries);
    }
}

/// Two plain texts make a plain text.
proof fn lemma_plain_concat(a: Seq<char>, b: Seq<char>)
    requires
        is_plain(a),
        is_plain(b),
    ensures
        is_plain(a + b),
{
    let s = a + b;
    assert forall|i: int| 0 <= i < s.len() implies !is_whitespace(#[trigger] s[i]) && s[i] != '"'
        && s[i] != '(' && s[i] != ')' by {
        if i < a.len() {
            assert(s[i] == a[i]);
        } else {
            assert(s[i] == b[i - a.len()]);
        }
    }
}

/// The three kinds of source are plain and hold no `+`, and they differ.
proof fn lemma_kinds()
    ensures
        is_plain("registry"@) && lacks("registry"@, '+'),
        is_plain("git"@) && lacks("git"@, '+'),
        is_plain("path"@) && lacks("path"@, '+'),
        "registry"@ != "git"@,
        "registry"@ != "path"@,
        "git"@ != "path"@,
{
    reveal_strlit("registry");
    reveal_strlit("git");
    reveal_strlit("path");
    assert("registry"@.len() == 8);
    assert("git"@.len() == 3);
    assert("path"@.len() == 4);
}

/// The keys of a git locator are plain; each begins with `?`, holds no other `?` and
/// no `#`, and differs from the others in its second character.
proof fn lemma_keys()
    ensures
        is_plain("?rev="@) && is_plain("?tag="@) && is_plain("?branch="@),
        "?rev="@.len() == 5 && "?tag="@.len() == 5 && "?branch="@.len() == 8,
        "?rev="@[0] == '?' && "?tag="@[0] == '?' && "?branch="@[0] == '?',
        "?rev="@[1] == 'r' && "?tag="@[1] == 't' && "?branch="@[1] == 'b',
        lacks("?rev="@.subrange(1, 5), '?') && lacks("?tag="@.subrange(1, 5), '?') && lacks(
            "?branch="@.subrange(1, 8),
            '?',
        ),
        lacks("?rev="@, '#') && lacks("?tag="@, '#') && lacks("?branch="@, '#'),
{
    reveal_strlit("?rev=");
    reveal_strlit("?tag=");
    reveal_strlit("?branch=");
}

/// In an address followed by a key and a value, the key stands once, where the
/// address ends, and a key with another second character stands nowhere.
proof fn lemma_key_occurrence(
    repo_url: Seq<char>,
    key: Seq<char>,
    value: Seq<char>,
    other: Seq<char>,
)
    requires
        lacks(repo_url, '?'),
        lacks(value, '?'),
        key.len() >= 2,
        key[0] == '?',
        lacks(key.subrange(1, key.len() as int), '?'),
        other.len() >= 2,
        other[0] == '?',
        other[1] != key[1],
    ensures
        has_substring(repo_url + key + value, key),
        last_occurrence(repo_url + key + value, key) == repo_url.len(),
        !has_substring(repo_url + key + value, other),
        first_index_of(repo_url + key + value, '?', 0) == repo_url.len(),
{
    let repo = repo_url + key + value;
    let at = repo_url.len() as int;
    assert forall|j: int| 0 <= j < repo.len() && j != at implies #[trigger] repo[j] != '?' by {
        if j < at {
            assert(repo[j] == repo_url[j]);
        } else if j < at + key.len() {
            assert(repo[j] == key.subrange(1, key.len() as int)[j - at - 1]);
        } else {
            assert(repo[j] == value[j - at - key.len()]);
        }
    }
    assert(repo[at] == '?');
    assert(repo[at + 1] == key[1]);
    assert(repo.subrange(at, at + key.len()) =~= key);
    assert forall|j: int| j != at implies !occurs_at(repo, key, j) by {
        if occurs_at(repo, key, j) {
            lemma_occurs_at_char(repo, key, j, 0);
        }
    }
    lemma_only_occurrence(repo, key, at);
    assert forall|j: int| !occurs_at(repo, other, j) by {
        if occurs_at(repo, other, j) {
            lemma_occurs_at_char(repo, other, j, 0);
            lemma_occurs_at_char(repo, other, j, 1);
        }
    }
    lemma_first_index_of(repo, '?', 0, at);
}

/// What the part of a written git locator before its `#` names.
proof fn lemma_git_repo(repo_url: Seq<char>, refspec: Option<RefspecView>)
    requires
        lacks(repo_url, '?'),
        match refspec {
            Some(RefspecView::Rev(rev)) => lacks(rev, '?'),
            Some(RefspecView::Tag(tag)) => lacks(tag, '?'),
            Some(RefspecView::Branch(branch)) => lacks(branch, '?'),
            None => true,
        },
    ensures
        refspec_count(repo_url + query_text(refspec)) <= 1,
        git_refspec(repo_url + query_text(refspec)) == refspec,
        git_url(repo_url + query_text(refspec)) == repo_url,
{
    lemma_keys();
    let repo = repo_url + query_text(refspec);
    let at = repo_url.len() as int;
    match refspec {
        Some(RefspecView::Rev(rev)) => {
            assert(repo =~= repo_url + "?rev="@ + rev);
            lemma_key_occurrence(repo_url, "?rev="@, rev, "?tag="@);
            lemma_key_occurrence(repo_url, "?rev="@, rev, "?branch="@);
            assert(value_after(repo, "?rev="@) =~= rev);
            assert(repo.subrange(0, at) =~= repo_url);
        },
        Some(RefspecView::Tag(tag)) => {
            assert(repo =~= repo_url + "?tag="@ + tag);
            lemma_key_occurrence(repo_url, "?tag="@, tag, "?rev="@);
            lemma_key_occurrence(repo_url, "?tag="@, tag, "?branch="@);
            assert(value_after(repo, "?tag="@) =~= tag);
            assert(repo.subrange(0, at) =~= repo_url);
        },
        Some(RefspecView::Branch(branch)) => {
            assert(repo =~= repo_url + "?branch="@ + branch);
            lemma_key_occurrence(repo_url, "?branch="@, branch, "?rev="@);
            lemma_key_occurrence(repo_url, "?branch="@, branch, "?tag="@);
            assert(value_after(repo, "?branch="@) =~= branch);
            assert(repo.subrange(0, at) =~= repo_url);
        },
        None => {
            assert(repo =~= repo_url);
            lemma_no_occurrence(repo_url, "?rev="@);
            lemma_no_occurrence(repo_url, "?tag="@);
            lemma_no_occurrence(repo_url, "?branch="@);
            lemma_first_index_of(repo_url, '?', 0, at);
            assert(repo_url.subrange(0, at) =~= repo_url);
        },
    }
}

/// A written git locator is plain, and the part before its last `#` is the address
/// with the revision, tag or branch.
proof fn lemma_git_locator(
    repo_url: Seq<char>,
    refspec: Option<RefspecView>,
    commit: Seq<char>,
)
    requires
        is_git_part(repo_url),
        is_refspec(refspec),
        is_commit(commit),
    ensures
        is_plain(git_locator(repo_url, refspec, commit)),
        git_repo(git_locator(repo_url, refspec, commit)) == repo_url + query_text(refspec),
{
    lemma_keys();
    let query = query_text(refspec);
    let repo = repo_url + query;
    let locator = git_locator(repo_url, refspec, commit);
    assert(is_plain(query)) by {
        match refspec {
            Some(RefspecView::Rev(rev)) => {
                lemma_plain_concat("?rev="@, rev);
            },
            Some(RefspecView::Tag(tag)) => {
                lemma_plain_concat("?tag="@, tag);
            },
            Some(RefspecView::Branch(branch)) => {
                lemma_plain_concat("?branch="@, branch);
            },
            None => {},
        }
    }
    lemma_plain_concat(repo_url, query);
    assert(is_plain(seq!['#']));
    lemma_plain_concat(repo, seq!['#']);
    lemma_plain_concat(repo + seq!['#'], commit);
    let at = repo.len() as int;
    assert(locator[at] == '#');
    assert forall|k: int| at < k < locator.len() implies #[trigger] locator[k] != '#' by {
        assert(locator[k] == commit[k - at - 1]);
    }
    lemma_last_index_of(locator, '#', locator.len() as int, at);
    assert(locator.subrange(0, at) =~= repo);
}

/// A line written for a crate from a registry can be decoded, and gives the name,
/// the version, the address of the index and the binaries as they were written.
pub proof fn lemma_decode_registry_line(
    name: Seq<char>,
    version: Seq<char>,
    index_url: Seq<char>,
    binaries: Seq<Seq<char>>,
)
    requires
        is_word(name),
        is_word(version),
        is_plain(index_url),
        are_binary_names(binaries),
    ensures
        decode_error(line_text(name, version, "registry"@, index_url, binaries)) is None,
        decoded(line_text(name, version, "registry"@, index_url, binaries)) == (CrateInfoView {
            name,
            version,
            provenance: ProvenanceView::Registry { index_url },
            binaries,
        }),
{
    lemma_kinds();
    lemma_line_parts(name, version, "registry"@, index_url, binaries);
}

/// A line written for a crate from a git repository can be decoded, and gives the
/// name, the version and the binaries as they were written, the address without
/// what follows it, and the one revision, tag or branch that was written, or none.
pub proof fn lemma_decode_git_line(
    name: Seq<char>,
    version: Seq<char>,
    repo_url: Seq<char>,
    refspec: Option<RefspecView>,
    commit: Seq<char>,
    binaries: Seq<Seq<char>>,
)
    requires
        is_word(name),
        is_word(version),
        is_git_part(repo_url),
        is_refspec(refspec),
        is_commit(commit),
        are_binary_names(binaries),
    ensures
        decode_error(
            line_text(name, version, "git"@, git_locator(repo_url, refspec, commit), binaries),
        ) is None,
        decoded(
            line_text(name, version, "git"@, git_locator(repo_url, refspec, commit), binaries),
        ) == (CrateInfoView {
            name,
            version,
            provenance: ProvenanceView::Git { repo_url, refspec },
            binaries,
        }),
{
    lemma_kinds();
    lemma_git_locator(repo_url, refspec, commit);
    lemma_git_repo(repo_url, refspec);
    lemma_line_parts(name, version, "git"@, git_locator(repo_url, refspec, commit), binaries);
}

/// A line written for a crate from a directory can be decoded, and gives the name,
/// the version, the directory and the binaries as they were written.
pub proof fn lemma_decode_path_line(
    name: Seq<char>,
    version: Seq<char>,
    path: Seq<char>,
    binaries: Seq<Seq<char>>,
)
    requires
        is_word(name),
        is_word(version),
        is_plain(path),
        are_binary_names(binaries),
    ensures
        decode_error(line_text(name, version, "path"@, "file://"@ + path, binaries)) is None,
        decoded(line_text(name, version, "path"@, "file://"@ + path, binaries)) == (CrateInfoView {
            name,
            version,
            provenance: ProvenanceView::LocalPath { path },
            binaries,
        }),
{
    lemma_kinds();
    reveal_strlit("file://");
    let scheme = "file://"@;
    let locator = scheme + path;
    assert(is_plain(scheme));
    lemma_plain_concat(scheme, path);
    lemma_line_parts(name, version, "path"@, locator, binaries);
    assert(locator.subrange(0, scheme.len() as int) =~= scheme);
    assert(locator.subrange(scheme.len() as int, locator.len() as int) =~= path);
}

/// Of every line of a crate from a git repository: it is refused exactly when its
/// locator, without what follows the last `#`, names more than one of revision,
/// tag and branch, and for that reason. Otherwise it gives the address, which is
/// the text before the first `?`, and the one of revision, tag and branch that the
/// locator names, with the text after its key, or none if it names none.
pub proof fn lemma_git_line(line: Seq<char>)
    requires
        has_three_tokens(line),
        source_has_locator(line_source(line)),
        source_kind(line_source(line)) == "git"@,
    ensures
        refspec_count(git_repo(source_locator(line_source(line)))) > 1 <==> decode_error(line)
            == Some(DecodeError::MultipleRefspecs),
        refspec_count(git_repo(source_locator(line_source(line)))) <= 1 <==> decode_error(line)
            is None,
        decoded(line).provenance == (ProvenanceView::Git {
            repo_url: git_url(git_repo(source_locator(line_source(line)))),
            refspec: git_refspec(git_repo(source_locator(line_source(line)))),
        }),
        lacks(git_url(git_repo(source_locator(line_source(line)))), '?'),
        refspec_count(git_repo(source_locator(line_source(line)))) == 0 <==> git_refspec(
            git_repo(source_locator(line_source(line))),
        ) is None,
        refspec_count(git_repo(source_locator(line_source(line)))) == 1 ==> {
            let repo = git_repo(source_locator(line_source(line)));
            git_refspec(repo) == Some(
                if has_substring(repo, "?rev="@) {
                    RefspecView::Rev(value_after(repo, "?rev="@))
                } else if has_substring(repo, "?tag="@) {
                    RefspecView::Tag(value_after(repo, "?tag="@))
                } else {
                    RefspecView::Branch(value_after(repo, "?branch="@))
                },
            )
        },
{
    lemma_kinds();
    let repo = git_repo(source_locator(line_source(line)));
    lemma_first_index_of_is_first(repo, '?', 0);
}

} // verus!
