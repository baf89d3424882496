//! The manifest of installed crates: its records and how a line of it is decoded.
//!
//! A line of the manifest has the shape
//! `"<name> <version> (<kind>+<locator>)" = ["<binary>", ...]`.

use crate::errors::ErrorKind;
use crate::text::{
    fields, find_char, first_index_of, has_substring, last_index_of, last_occurrence, lines,
    lines_of, remove_all, rfind_char, rfind_str, skip_token, skip_whitespace, split, starts_at,
    strip_prefix, strip_suffix, to_chars, to_string, token, token_from, trim, trimmed, without,
    without_prefix, without_suffix,
};
use vstd::pervasive::unreached;
use vstd::prelude::*;
use vstd::slice::slice_subrange;

verus! {

/// The state of a git repository that a crate was installed from.
#[derive(Debug)]
pub enum Refspec {
    Branch(String),
    Tag(String),
    Rev(String),
}

/// Where the source of an installed crate came from.
#[derive(Debug)]
pub enum Provenance {
    /// A registry, named by the address of its index.
    Registry { index_url: String },
    /// A git repository, at one branch, tag or revision, or at its default state.
    Git { repo_url: String, refspec: Option<Refspec> },
    /// A directory of the local file system.
    LocalPath { path: String },
}

/// One installed crate, as the manifest records it.
#[derive(Debug)]
pub struct CrateInfo {
    pub name: String,
    pub version: String,
    pub provenance: Provenance,
    /// The names of the installed executables, in the order of the manifest.
    pub binaries: Vec<String>,
}

/// Why a line of the manifest cannot be decoded.
#[derive(Debug, PartialEq, Eq, Structural, Clone, Copy)]
pub enum DecodeError {
    /// The key does not hold exactly three whitespace-separated tokens.
    TokenCount,
    /// The source descriptor holds no `+`, so it names no locator.
    NoLocator,
    /// The kind of source is none of `registry`, `git` and `path`.
    UnknownKind,
    /// A git locator names more than one of revision, tag and branch.
    MultipleRefspecs,
}

/// What a `Refspec` stands for.
pub enum RefspecView {
    Branch(Seq<char>),
    Tag(Seq<char>),
    Rev(Seq<char>),
}

/// What a `Provenance` stands for.
pub enum ProvenanceView {
    Registry { index_url: Seq<char> },
    Git { repo_url: Seq<char>, refspec: Option<RefspecView> },
    LocalPath { path: Seq<char> },
}

/// What a `CrateInfo` stands for.
pub struct CrateInfoView {
    pub name: Seq<char>,
    pub version: Seq<char>,
    pub provenance: ProvenanceView,
    pub binaries: Seq<Seq<char>>,
}

impl View for Refspec {
    type V = RefspecView;

    open spec fn view(&self) -> RefspecView {
        match self {
            Refspec::Branch(b) => RefspecView::Branch(b@),
            Refspec::Tag(t) => RefspecView::Tag(t@),
            Refspec::Rev(r) => RefspecView::Rev(r@),
        }
    }
}

impl View for Provenance {
    type V = ProvenanceView;

    open spec fn view(&self) -> ProvenanceView {
        match self {
            Provenance::Registry { index_url } => ProvenanceView::Registry {
                index_url: index_url@,
            },
            Provenance::Git { repo_url, refspec } => ProvenanceView::Git {
                repo_url: repo_url@,
                refspec: match refspec {
                    Some(r) => Some(r@),
                    None => None,
                },
            },
            Provenance::LocalPath { path } => ProvenanceView::LocalPath { path: path@ },
        }
    }
}

impl View for CrateInfo {
    type V = CrateInfoView;

    open spec fn view(&self) -> CrateInfoView {
        CrateInfoView {
            name: self.name@,
            version: self.version@,
            provenance: self.provenance@,
            binaries: self.binaries.deep_view(),
        }
    }
}

/// Whether index `i` of `line` lies inside double quotes: whether an odd number of
/// quote characters stands before it.
pub open spec fn in_quotes(line: Seq<char>, i: int) -> bool
    decreases i,
{
    if 0 < i <= line.len() {
        in_quotes(line, i - 1) != (line[i - 1] == '"')
    } else {
        false
    }
}

/// Whether index `i` of `line` holds a `=` outside double quotes.
pub open spec fn is_assignment(line: Seq<char>, i: int) -> bool {
    0 <= i < line.len() && line[i] == '=' && !in_quotes(line, i)
}

/// The last index below `to` that holds a `=` outside double quotes; `-1` if there
/// is none.
pub open spec fn last_assignment(line: Seq<char>, to: int) -> int
    decreases to,
{
    if to <= 0 {
        -1
    } else if is_assignment(line, to - 1) {
        to - 1
    } else {
        last_assignment(line, to - 1)
    }
}

/// The key on `line`: the text before the last `=` outside double quotes, or all of
/// the line if there is none.
pub open spec fn line_key(line: Seq<char>) -> Seq<char> {
    let at = last_assignment(line, line.len() as int);
    if at < 0 {
        line
    } else {
        line.subrange(0, at)
    }
}

/// The value on `line`: the text after the last `=` outside double quotes, or all of
/// the line if there is none.
pub open spec fn line_value(line: Seq<char>) -> Seq<char> {
    line.subrange(last_assignment(line, line.len() as int) + 1, line.len() as int)
}

/// Whether the key on `line` is made of exactly three whitespace-separated tokens.
pub open spec fn has_three_tokens(line: Seq<char>) -> bool {
    token(line_key(line), 2).len() > 0 && token(line_key(line), 3).len() == 0
}

/// `s` without one double quote at its start and one at its end, where it has them.
pub open spec fn unquoted(s: Seq<char>) -> Seq<char> {
    without_suffix(without_prefix(s, "\""@), "\""@)
}

/// The name of the crate on `line`: the first token of the key without the double
/// quotes around it.
pub open spec fn line_name(line: Seq<char>) -> Seq<char> {
    unquoted(token(line_key(line), 0))
}

/// The version of the crate on `line`: the second token of the key, as it is written.
pub open spec fn line_version(line: Seq<char>) -> Seq<char> {
    token(line_key(line), 1)
}

/// The source descriptor on `line`: the third token of the key without its
/// parentheses.
pub open spec fn line_source(line: Seq<char>) -> Seq<char> {
    without(token(line_key(line), 2), "()"@)
}

/// Whether the source descriptor `source` holds a `+`.
pub open spec fn source_has_locator(source: Seq<char>) -> bool {
    first_index_of(source, '+', 0) < source.len()
}

/// The kind of source: the text before the first `+`.
pub open spec fn source_kind(source: Seq<char>) -> Seq<char> {
    source.subrange(0, first_index_of(source, '+', 0))
}

/// The locator: the text after the first `+`, without one double quote at its end,
/// which closes the quoted key.
pub open spec fn source_locator(source: Seq<char>) -> Seq<char> {
    without_suffix(
        source.subrange(first_index_of(source, '+', 0) + 1, source.len() as int),
        "\""@,
    )
}

/// A git locator without the resolved commit: the text before the last `#`, or all
/// of the locator if it holds no `#`.
pub open spec fn git_repo(locator: Seq<char>) -> Seq<char> {
    let hash = last_index_of(locator, '#', locator.len() as int);
    if hash < 0 {
        locator
    } else {
        locator.subrange(0, hash)
    }
}

/// How many of `?rev=`, `?tag=` and `?branch=` stand in `repo`.
pub open spec fn refspec_count(repo: Seq<char>) -> nat {
    let rev: nat = if has_substring(repo, "?rev="@) { 1 } else { 0 };
    let tag: nat = if has_substring(repo, "?tag="@) { 1 } else { 0 };
    let branch: nat = if has_substring(repo, "?branch="@) { 1 } else { 0 };
    rev + tag + branch
}

/// The text of `repo` that follows the last occurrence of `key`.
pub open spec fn value_after(repo: Seq<char>, key: Seq<char>) -> Seq<char> {
    repo.subrange(last_occurrence(repo, key) + key.len(), repo.len() as int)
}

/// The revision, tag or branch that `repo` names, if it names one.
pub open spec fn git_refspec(repo: Seq<char>) -> Option<RefspecView> {
    if has_substring(repo, "?rev="@) {
        Some(RefspecView::Rev(value_after(repo, "?rev="@)))
    } else if has_substring(repo, "?tag="@) {
        Some(RefspecView::Tag(value_after(repo, "?tag="@)))
    } else if has_substring(repo, "?branch="@) {
        Some(RefspecView::Branch(value_after(repo, "?branch="@)))
    } else {
        None
    }
}

/// The address of the repository: the text of `repo` before the first `?`.
pub open spec fn git_url(repo: Seq<char>) -> Seq<char> {
    repo.subrange(0, first_index_of(repo, '?', 0))
}

/// The provenance that the source descriptor of `line` states.
pub open spec fn line_provenance(line: Seq<char>) -> ProvenanceView {
    let source = line_source(line);
    let locator = source_locator(source);
    if source_kind(source) == "registry"@ {
        ProvenanceView::Registry { index_url: locator }
    } else if source_kind(source) == "git"@ {
        ProvenanceView::Git {
            repo_url: git_url(git_repo(locator)),
            refspec: git_refspec(git_repo(locator)),
        }
    } else {
        ProvenanceView::LocalPath { path: without_prefix(locator, "file://"@) }
    }
}

/// The content of the list that `value` holds: the value without the whitespace
/// around it and without the brackets that enclose it.
pub open spec fn list_content(value: Seq<char>) -> Seq<char> {
    without_suffix(without_prefix(trimmed(value), "["@), "]"@)
}

/// The binary that a piece of the list names: the piece without the whitespace and
/// the double quotes around it.
pub open spec fn binary_name(piece: Seq<char>) -> Seq<char> {
    trimmed(unquoted(trimmed(piece)))
}

/// The binaries that `value` lists: the comma-separated pieces of its content, each
/// as `binary_name` gives it, in their order; none if the content is empty or all
/// whitespace.
pub open spec fn value_binaries(value: Seq<char>) -> Seq<Seq<char>> {
    let content = list_content(value);
    if trimmed(content).len() == 0 {
        Seq::empty()
    } else {
        fields(content, ',').map_values(|piece: Seq<char>| binary_name(piece))
    }
}

/// The binaries that `line` lists: those of its value.
pub open spec fn line_binaries(line: Seq<char>) -> Seq<Seq<char>> {
    value_binaries(line_value(line))
}

/// Why `line` cannot be decoded; `None` if it can.
pub open spec fn decode_error(line: Seq<char>) -> Option<DecodeError> {
    let source = line_source(line);
    if !has_three_tokens(line) {
        Some(DecodeError::TokenCount)
    } else if !source_has_locator(source) {
        Some(DecodeError::NoLocator)
    } else if source_kind(source) == "registry"@ {
        None
    } else if source_kind(source) == "git"@ {
        if refspec_count(git_repo(source_locator(source))) > 1 {
            Some(DecodeError::MultipleRefspecs)
        } else {
            None
        }
    } else if source_kind(source) == "path"@ {
        None
    } else {
        Some(DecodeError::UnknownKind)
    }
}

/// The record that a decodable `line` stands for.
pub open spec fn decoded(line: Seq<char>) -> CrateInfoView {
    CrateInfoView {
        name: line_name(line),
        version: line_version(line),
        provenance: line_provenance(line),
        binaries: line_binaries(line),
    }
}

/// Whether the slice holds exactly the text `literal`.
fn is_text(s: &[char], literal: &str) -> (b: bool)
    ensures
        b == (s@ == literal@),
{
    let other = to_chars(literal);
    let b = s.len() == other.len() && starts_at(s, other.as_slice(), 0);
    proof {
        if s@.len() == other@.len() {
            assert(s@.subrange(0, s@.len() as int) =~= s@);
        }
    }
    b
}

/// Computes `git_refspec` where at most one of the three keys stands in `repo`.
fn decode_refspec(repo: &[char]) -> (res: Option<Option<Refspec>>)
    ensures
        match res {
            Some(refspec) => refspec_count(repo@) <= 1 && (match refspec {
                Some(r) => Some(r@),
                None => None,
            }) == git_refspec(repo@),
            None => refspec_count(repo@) > 1,
        },
{
    let rev_key = to_chars("?rev=");
    let tag_key = to_chars("?tag=");
    let branch_key = to_chars("?branch=");
    let rev = rfind_str(repo, rev_key.as_slice());
    let tag = rfind_str(repo, tag_key.as_slice());
    let branch = rfind_str(repo, branch_key.as_slice());
    let end = repo.len();
    match (rev, tag, branch) {
        (Some(at), None, None) => {
            let value = to_string(slice_subrange(repo, at + rev_key.len(), end));
            Some(Some(Refspec::Rev(value)))
        },
        (None, Some(at), None) => {
            let value = to_string(slice_subrange(repo, at + tag_key.len(), end));
            Some(Some(Refspec::Tag(value)))
        },
        (None, None, Some(at)) => {
            let value = to_string(slice_subrange(repo, at + branch_key.len(), end));
            Some(Some(Refspec::Branch(value)))
        },
        (None, None, None) => Some(None),
        _ => None,
    }
}

/// Computes `line_provenance` from the kind and the locator of a source descriptor.
fn decode_provenance(kind: &[char], locator: &[char]) -> (res: Result<Provenance, DecodeError>)
    ensures
        match res {
            Ok(p) => {
                if kind@ == "registry"@ {
                    p@ == (ProvenanceView::Registry { index_url: locator@ })
                } else if kind@ == "git"@ {
                    &&& refspec_count(git_repo(locator@)) <= 1
                    &&& p@ == (ProvenanceView::Git {
                        repo_url: git_url(git_repo(locator@)),
                        refspec: git_refspec(git_repo(locator@)),
                    })
                } else {
                    &&& kind@ == "path"@
                    &&& p@ == (ProvenanceView::LocalPath {
                        path: without_prefix(locator@, "file://"@),
                    })
                }
            },
            Err(e) => {
                if kind@ == "registry"@ {
                    false
                } else if kind@ == "git"@ {
                    e == DecodeError::MultipleRefspecs && refspec_count(git_repo(locator@)) > 1
                } else {
                    e == DecodeError::UnknownKind && kind@ != "path"@
                }
            },
        },
{
    if is_text(kind, "registry") {
        Ok(Provenance::Registry { index_url: to_string(locator) })
    } else if is_text(kind, "git") {
        let repo = match rfind_char(locator, '#') {
            Some(hash) => slice_subrange(locator, 0, hash),
            None => locator,
        };
        match decode_refspec(repo) {
            Some(refspec) => {
                let query = find_char(repo, '?', 0);
                let repo_url = to_string(slice_subrange(repo, 0, query));
                Ok(Provenance::Git { repo_url, refspec })
            },
            None => Err(DecodeError::MultipleRefspecs),
        }
    } else if is_text(kind, "path") {
        let scheme = to_chars("file://");
        let path = if starts_at(locator, scheme.as_slice(), 0) {
            slice_subrange(locator, scheme.len(), locator.len())
        } else {
            locator
        };
        Ok(Provenance::LocalPath { path: to_string(path) })
    } else {
        Err(DecodeError::UnknownKind)
    }
}

/// Cuts `line` into `line_key` and `line_value`.
fn key_and_value(line: &[char]) -> (parts: (&[char], &[char]))
    ensures
        parts.0@ == line_key(line@),
        parts.1@ == line_value(line@),
{
    let mut quoted = false;
    let mut after: usize = 0;
    let mut i: usize = 0;
    while i < line.len()
        invariant
            i <= line@.len(),
            quoted == in_quotes(line@, i as int),
            after == last_assignment(line@, i as int) + 1,
            after <= i,
        decreases line@.len() - i,
    {
        let c = line[i];
        if c == '=' && !quoted {
            after = i + 1;
        }
        if c == '"' {
            quoted = !quoted;
        }
        i += 1;
    }
    let key = if after == 0 {
        line
    } else {
        slice_subrange(line, 0, after - 1)
    };
    (key, slice_subrange(line, after, line.len()))
}

/// Computes `unquoted`, as a part of `s`.
fn unquote(s: &[char]) -> (rest: &[char])
    ensures
        rest@ == unquoted(s@),
{
    let quote = to_chars("\"");
    strip_suffix(strip_prefix(s, quote.as_slice()), quote.as_slice())
}

/// Computes `value_binaries`.
fn decode_binaries(value: &[char]) -> (binaries: Vec<String>)
    ensures
        binaries.deep_view() == value_binaries(value@),
{
    let open = to_chars("[");
    let close = to_chars("]");
    let content = strip_suffix(strip_prefix(trim(value), open.as_slice()), close.as_slice());
    let mut binaries: Vec<String> = Vec::new();
    if trim(content).len() == 0 {
        assert(binaries.deep_view() =~= value_binaries(value@));
        return binaries;
    }
    let pieces = split(content, ',');
    let mut i: usize = 0;
    while i < pieces.len()
        invariant
            i <= pieces@.len(),
            pieces@.len() == fields(content@, ',').len(),
            forall|k: int|
                0 <= k < pieces@.len() ==> (#[trigger] pieces@[k])@ == fields(content@, ',')[k],
            binaries@.len() == i,
            forall|k: int|
                0 <= k < i ==> (#[trigger] binaries@[k])@ == binary_name(
                    fields(content@, ',')[k],
                ),
        decreases pieces@.len() - i,
    {
        let name = trim(unquote(trim(pieces[i].as_slice())));
        binaries.push(to_string(name));
        i += 1;
    }
    assert(binaries.deep_view() =~= value_binaries(value@));
    binaries
}

/// Decodes the line that `text` holds, or says why it cannot be decoded.
fn decode_chars(text: &[char]) -> (res: Result<CrateInfo, DecodeError>)
    ensures
        match res {
            Ok(info) => decode_error(text@) is None && info@ == decoded(text@),
            Err(e) => decode_error(text@) == Some(e),
        },
{
    let (key, value) = key_and_value(text);
    let name_start = skip_whitespace(key, 0);
    let name_end = skip_token(key, name_start);
    let version_start = skip_whitespace(key, name_end);
    let version_end = skip_token(key, version_start);
    let source_start = skip_whitespace(key, version_end);
    let source_end = skip_token(key, source_start);
    let extra_start = skip_whitespace(key, source_end);
    let extra_end = skip_token(key, extra_start);
    proof {
        reveal_with_fuel(token_from, 4);
    }
    if source_start == source_end || extra_start != extra_end {
        return Err(DecodeError::TokenCount);
    }
    let quote = to_chars("\"");
    let parentheses = to_chars("()");
    let name = unquote(slice_subrange(key, name_start, name_end));
    let version = slice_subrange(key, version_start, version_end);
    let source = remove_all(
        slice_subrange(key, source_start, source_end),
        parentheses.as_slice(),
    );
    let plus = find_char(source.as_slice(), '+', 0);
    if plus == source.len() {
        return Err(DecodeError::NoLocator);
    }
    let kind = slice_subrange(source.as_slice(), 0, plus);
    let rest = slice_subrange(source.as_slice(), plus + 1, source.len());
    let locator = strip_suffix(rest, quote.as_slice());
    match decode_provenance(kind, locator) {
        Ok(provenance) => Ok(
            CrateInfo {
                name: to_string(name),
                version: to_string(version),
                provenance,
                binaries: decode_binaries(value),
            },
        ),
        Err(e) => Err(e),
    }
}

/// Decodes one line of the manifest, or says why it cannot be decoded.
pub fn try_decode_line(line: &str) -> (res: Result<CrateInfo, DecodeError>)
    ensures
        match res {
            Ok(info) => decode_error(line@) is None && info@ == decoded(line@),
            Err(e) => decode_error(line@) == Some(e),
        },
{
    let chars = to_chars(line);
    decode_chars(chars.as_slice())
}

/// Decodes one line of the manifest.
pub fn decode_line(line: &str) -> (info: CrateInfo)
    requires
        decode_error(line@) is None,
    ensures
        info@ == decoded(line@),
{
    match try_decode_line(line) {
        Ok(info) => info,
        Err(_) => unreached(),
    }
}

/// Whether the first line of `content`, without the whitespace around it, is the
/// marker `[v1]` of the supported format.
pub open spec fn has_supported_version(content: Seq<char>) -> bool {
    let lines = lines_of(content);
    lines.len() > 0 && trimmed(lines[0]) == "[v1]"@
}

/// The lines of `content` after the first: one for each installed crate.
pub open spec fn package_lines(content: Seq<char>) -> Seq<Seq<char>> {
    lines_of(content).skip(1)
}

/// Whether `packages` are the records of the manifest `content`: one for each line
/// after the first, in the order of the lines.
pub open spec fn is_manifest_of(packages: Seq<CrateInfoView>, content: Seq<char>) -> bool {
    &&& packages.len() == package_lines(content).len()
    &&& forall|i: int|
        0 <= i < packages.len() ==> #[trigger] packages[i] == decoded(package_lines(content)[i])
}

/// Whether every line of `content` after the first can be decoded.
pub open spec fn all_lines_decodable(content: Seq<char>) -> bool {
    forall|i: int|
        0 <= i < package_lines(content).len() ==> decode_error(
            #[trigger] package_lines(content)[i],
        ) is None
}

/// Decides `has_supported_version` from the lines of the manifest.
fn check_version(lines: &Vec<Vec<char>>) -> (supported: bool)
    ensures
        supported == (lines@.len() > 0 && trimmed(lines@[0]@) == "[v1]"@),
{
    lines.len() > 0 && is_text(trim(lines[0].as_slice()), "[v1]")
}

/// Looks for the first line of the manifest that cannot be decoded.
///
/// The result is `None` where the format version is not the supported one, since no
/// line is decoded then. Otherwise it is the index, among the lines after the first,
/// of the first line that cannot be decoded, with the reason; `None` if there is none.
pub fn find_malformed_line(file_content: &str) -> (found: Option<(usize, DecodeError)>)
    ensures
        found is None <==> (has_supported_version(file_content@) ==> all_lines_decodable(
            file_content@,
        )),
        found matches Some((i, e)) ==> {
            &&& i < package_lines(file_content@).len()
            &&& decode_error(package_lines(file_content@)[i as int]) == Some(e)
            &&& forall|j: int|
                0 <= j < i ==> decode_error(#[trigger] package_lines(file_content@)[j]) is None
        },
{
    let chars = to_chars(file_content);
    let lines = lines(chars.as_slice());
    if !check_version(&lines) {
        return None;
    }
    let ghost packages = package_lines(file_content@);
    let mut i: usize = 1;
    while i < lines.len()
        invariant
            1 <= i <= lines@.len(),
            lines@.len() == lines_of(file_content@).len(),
            forall|k: int|
                0 <= k < lines@.len() ==> (#[trigger] lines@[k])@ == lines_of(file_content@)[k],
            packages == package_lines(file_content@),
            has_supported_version(file_content@),
            forall|j: int| 0 <= j < i - 1 ==> decode_error(#[trigger] packages[j]) is None,
        decreases lines@.len() - i,
    {
        assert(packages[i - 1] == lines@[i as int]@);
        match decode_chars(lines[i].as_slice()) {
            Ok(_) => {},
            Err(e) => {
                assert(decode_error(package_lines(file_content@)[i - 1]) == Some(e));
                return Some((i - 1, e));
            },
        }
        i += 1;
    }
    None
}

/// Decodes the manifest of installed crates.
///
/// A manifest that could not be read stays the error that it is. One whose first line
/// is not the marker of the supported format gives `UnknownAPI`. Otherwise every line
/// after the first is decoded, one record for each, in the order of the lines.
pub fn get_installed_crate_information(file_content: Result<String, ErrorKind>) -> (res: Result<
    Vec<CrateInfo>,
    ErrorKind,
>)
    requires
        file_content matches Ok(text) ==> (has_supported_version(text@) ==> all_lines_decodable(
            text@,
        )),
    ensures
        match file_content {
            Err(e) => res == Err::<Vec<CrateInfo>, ErrorKind>(e),
            Ok(text) => if has_supported_version(text@) {
                &&& res matches Ok(packages)
                &&& is_manifest_of(packages@.map_values(|package: CrateInfo| package@), text@)
            } else {
                res == Err::<Vec<CrateInfo>, ErrorKind>(ErrorKind::UnknownAPI)
            },
        },
{
    let text = match file_content {
        Ok(text) => text,
        Err(e) => {
            return Err(e);
        },
    };
    let chars = to_chars(text.as_str());
    let lines = lines(chars.as_slice());
    if !check_version(&lines) {
        return Err(ErrorKind::UnknownAPI);
    }
    let ghost lines_left = package_lines(text@);
    let mut packages: Vec<CrateInfo> = Vec::new();
    let mut i: usize = 1;
    while i < lines.len()
        invariant
            1 <= i <= lines@.len(),
            lines@.len() == lines_of(text@).len(),
            forall|k: int| 0 <= k < lines@.len() ==> (#[trigger] lines@[k])@ == lines_of(text@)[k],
            lines_left == package_lines(text@),
            all_lines_decodable(text@),
            packages@.len() == i - 1,
            forall|j: int| 0 <= j < i - 1 ==> (#[trigger] packages@[j])@ == decoded(lines_left[j]),
        decreases lines@.len() - i,
    {
        assert(lines_left[i - 1] == lines@[i as int]@);
        match decode_chars(lines[i].as_slice()) {
            Ok(info) => {
                packages.push(info);
            },
            Err(_) => {
                unreached::<()>();
            },
        }
        i += 1;
    }
    proof {
        let found = packages@.map_values(|package: CrateInfo| package@);
        assert forall|j: int| 0 <= j < found.len() implies #[trigger] found[j] == decoded(
            lines_left[j],
        ) by {
            assert(found[j] == packages@[j]@);
        }
    }
    Ok(packages)
}

/// The text of an optional string.
pub open spec fn text_of(s: Option<String>) -> Option<Seq<char>> {
    match s {
        Some(s) => Some(s@),
        None => None,
    }
}

impl CrateInfo {
    /// The address of the git repository, for a crate installed from one.
    pub fn git(&self) -> (url: Option<String>)
        ensures
            text_of(url) == match self@.provenance {
                ProvenanceView::Git { repo_url, refspec } => Some(repo_url),
                _ => None,
            },
    {
        match &self.provenance {
            Provenance::Git { repo_url, refspec } => Some(repo_url.clone()),
            _ => None,
        }
    }

    /// The branch, for a crate installed from a branch of a git repository.
    pub fn branch(&self) -> (branch: Option<String>)
        ensures
            text_of(branch) == match self@.provenance {
                ProvenanceView::Git { repo_url, refspec: Some(RefspecView::Branch(b)) } => Some(b),
                _ => None,
            },
    {
        match &self.provenance {
            Provenance::Git { repo_url, refspec: Some(Refspec::Branch(b)) } => Some(b.clone()),
            _ => None,
        }
    }

    /// The tag, for a crate installed from a tag of a git repository.
    pub fn tag(&self) -> (tag: Option<String>)
        ensures
            text_of(tag) == match self@.provenance {
                ProvenanceView::Git { repo_url, refspec: Some(RefspecView::Tag(t)) } => Some(t),
                _ => None,
            },
    {
        match &self.provenance {
            Provenance::Git { repo_url, refspec: Some(Refspec::Tag(t)) } => Some(t.clone()),
            _ => None,
        }
    }

    /// The revision, for a crate installed from a revision of a git repository.
    pub fn rev(&self) -> (rev: Option<String>)
        ensures
            text_of(rev) == match self@.provenance {
                ProvenanceView::Git { repo_url, refspec: Some(RefspecView::Rev(r)) } => Some(r),
                _ => None,
            },
    {
        match &self.provenance {
            Provenance::Git { repo_url, refspec: Some(Refspec::Rev(r)) } => Some(r.clone()),
            _ => None,
        }
    }

    /// The address of the registry index, for a crate installed from a registry.
    pub fn registry(&self) -> (index_url: Option<String>)
        ensures
            text_of(index_url) == match self@.provenance {
                ProvenanceView::Registry { index_url } => Some(index_url),
                _ => None,
            },
    {
        match &self.provenance {
            Provenance::Registry { index_url } => Some(index_url.clone()),
            _ => None,
        }
    }

    /// The directory, for a crate installed from the local file system.
    pub fn path(&self) -> (path: Option<String>)
        ensures
            text_of(path) == match self@.provenance {
                ProvenanceView::LocalPath { path } => Some(path),
                _ => None,
            },
    {
        match &self.provenance {
            Provenance::LocalPath { path } => Some(path.clone()),
            _ => None,
        }
    }
}

} // verus!
