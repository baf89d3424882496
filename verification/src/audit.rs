//! The audit of installed crates: what the inspection of a binary says, which crates
//! are broken, and how each broken crate is installed again.

use crate::parse::{
    is_manifest_of, text_of, CrateInfo, CrateInfoView, Provenance, ProvenanceView, Refspec,
    RefspecView,
};
use crate::text::{
    append_chars, join, joined, lines, lines_of, occurs_at, starts_at, to_chars, trim, trimmed,
    without_suffix,
};
use vstd::prelude::*;
use vstd::seq_lib::lemma_flatten_concat;
use vstd::slice::slice_subrange;
use vstd::string::StringExecFns;

verus! {

/// Text gathered for the two output channels.
#[derive(Debug)]
pub struct Output {
    /// Text for the standard output channel.
    pub stdout: String,
    /// Text for the diagnostic channel.
    pub stderr: String,
}

impl Output {
    /// No text for either channel.
    pub fn new() -> (out: Self)
        ensures
            out.stdout@ == Seq::<char>::empty(),
            out.stderr@ == Seq::<char>::empty(),
    {
        Self { stdout: String::new(), stderr: String::new() }
    }
}

/// Whether `line` of an inspection says that a library was not found: whether it ends
/// with `=> not found`.
pub open spec fn is_unresolved(line: Seq<char>) -> bool {
    occurs_at(line, "=> not found"@, line.len() - "=> not found"@.len())
}

/// The library that an unresolved `line` names: the line without `=> not found` at
/// its end and without the whitespace around what is left.
pub open spec fn library_name(line: Seq<char>) -> Seq<char> {
    trimmed(without_suffix(line, "=> not found"@))
}

/// The lines of the inspection output `ldd_result` that say that a library was not
/// found.
pub open spec fn unresolved_lines(ldd_result: Seq<char>) -> Seq<Seq<char>> {
    lines_of(ldd_result).filter(|line: Seq<char>| is_unresolved(line))
}

/// The libraries that the inspection output `ldd_result` reports as not found, one
/// for each unresolved line, in the order of the lines.
pub open spec fn missing_libraries(ldd_result: Seq<char>) -> Seq<Seq<char>> {
    unresolved_lines(ldd_result).map_values(|line: Seq<char>| library_name(line))
}

/// The line of a report that names the binary.
pub open spec fn header_line(binary: Seq<char>) -> Seq<char> {
    "    Binary '"@ + binary + "' is missing:\n"@
}

/// The line of a report that names one missing library.
pub open spec fn library_line(library: Seq<char>) -> Seq<char> {
    "\t\t"@ + library + "\n"@
}

/// The lines of the report on one binary: none if no library is missing, else the
/// header and one line for each missing library.
pub open spec fn report_lines(ldd_result: Seq<char>, binary: Seq<char>) -> Seq<Seq<char>> {
    let missing = missing_libraries(ldd_result);
    if missing.len() == 0 {
        Seq::empty()
    } else {
        seq![header_line(binary)] + missing.map_values(|library: Seq<char>| library_line(library))
    }
}

/// The report on one binary: its lines, one after the other.
pub open spec fn report(ldd_result: Seq<char>, binary: Seq<char>) -> Seq<char> {
    report_lines(ldd_result, binary).flatten()
}

/// Reads the output of the inspection of one binary of `package`.
///
/// The report on the binary is added to the diagnostic text of `output_string`. The
/// result is `package` if a library is missing, and `None` if none is. An inspection
/// that printed nothing, or no unresolved line, counts as clean.
pub fn parse_ldd_output<'a>(
    output_string: &mut Output,
    ldd_result: &str,
    binary: &str,
    package: &'a CrateInfo,
) -> (outdated_package: Option<&'a CrateInfo>)
    ensures
        final(output_string).stdout@ == old(output_string).stdout@,
        final(output_string).stderr@ == old(output_string).stderr@ + report(ldd_result@, binary@),
        outdated_package is Some <==> missing_libraries(ldd_result@).len() > 0,
        outdated_package matches Some(p) ==> p == package,
{
    let chars = to_chars(ldd_result);
    let all_lines = lines(chars.as_slice());
    let marker = to_chars("=> not found");
    let ghost unresolved = |line: Seq<char>| is_unresolved(line);
    let ghost name = |line: Seq<char>| library_name(line);
    let ghost entry = |library: Seq<char>| library_line(library);
    let ghost text = lines_of(ldd_result@);
    let ghost mut found: Seq<Seq<char>> = Seq::empty();
    let mut outdated_package: Option<&CrateInfo> = None;
    let mut i: usize = 0;
    proof {
        reveal(Seq::filter);
        assert(found.map_values(entry).flatten() =~= Seq::<char>::empty());
        assert(old(output_string).stderr@ + Seq::<char>::empty() =~= old(output_string).stderr@);
    }
    while i < all_lines.len()
        invariant
            i <= all_lines@.len(),
            all_lines@.len() == text.len(),
            forall|k: int| 0 <= k < all_lines@.len() ==> (#[trigger] all_lines@[k])@ == text[k],
            marker@ == "=> not found"@,
            unresolved == (|line: Seq<char>| is_unresolved(line)),
            name == (|line: Seq<char>| library_name(line)),
            entry == (|library: Seq<char>| library_line(library)),
            found == text.take(i as int).filter(unresolved).map_values(name),
            output_string.stdout@ == old(output_string).stdout@,
            output_string.stderr@ == old(output_string).stderr@ + (if found.len() == 0 {
                Seq::<char>::empty()
            } else {
                header_line(binary@) + found.map_values(entry).flatten()
            }),
            outdated_package is Some <==> found.len() > 0,
            outdated_package matches Some(p) ==> p == package,
        decreases all_lines@.len() - i,
    {
        let line = all_lines[i].as_slice();
        proof {
            assert(text.take(i + 1) =~= text.take(i as int).push(line@));
            text.take(i as int).lemma_filter_push(line@, unresolved);
        }
        if line.len() >= marker.len() && starts_at(
            line,
            marker.as_slice(),
            line.len() - marker.len(),
        ) {
            if outdated_package.is_none() {
                outdated_package = Some(package);
                output_string.stderr.append("    Binary '");
                output_string.stderr.append(binary);
                output_string.stderr.append("' is missing:\n");
            }
            let library = trim(slice_subrange(line, 0, line.len() - marker.len()));
            output_string.stderr.append("\t\t");
            append_chars(&mut output_string.stderr, library);
            output_string.stderr.append("\n");
            proof {
                let kept = text.take(i as int).filter(unresolved);
                assert(kept.push(line@).map_values(name) =~= found.push(library@));
                assert(found.push(library@).map_values(entry) =~= found.map_values(entry)
                    + seq![library_line(library@)]);
                lemma_flatten_concat(found.map_values(entry), seq![library_line(library@)]);
                seq![library_line(library@)].lemma_flatten_one_element();
                found = found.push(library@);
                assert(output_string.stderr@ =~= old(output_string).stderr@ + (header_line(binary@)
                    + found.map_values(entry).flatten()));
            }
        }
        i += 1;
    }
    proof {
        assert(text.take(text.len() as int) =~= text);
        if found.len() > 0 {
            assert(seq![header_line(binary@)].flatten() =~= header_line(binary@)) by {
                seq![header_line(binary@)].lemma_flatten_one_element();
            }
            lemma_flatten_concat(seq![header_line(binary@)], found.map_values(entry));
        } else {
            assert(report_lines(ldd_result@, binary@).flatten() =~= Seq::<char>::empty());
        }
    }
    outdated_package
}

/// The notice that the check of a crate begins with.
pub open spec fn checking_line(name: Seq<char>, version: Seq<char>) -> Seq<char> {
    "  Checking crate "@ + name + " "@ + version + "\n"@
}

/// The binaries of `package` that are to be inspected: all of them, or none where
/// every crate is rebuilt anyway.
pub open spec fn inspected_binaries(package: CrateInfoView, rebuild_all: bool) -> Seq<Seq<char>> {
    if rebuild_all {
        Seq::empty()
    } else {
        package.binaries
    }
}

/// Whether the inspection of some binary among `binaries` reports a missing library;
/// `ldd_results` holds the inspection output of each binary, in the same order.
pub open spec fn some_binary_is_broken(
    binaries: Seq<Seq<char>>,
    ldd_results: Seq<Seq<char>>,
) -> bool {
    exists|i: int| 0 <= i < binaries.len() && #[trigger] missing_libraries(ldd_results[i]).len() > 0
}

/// Whether `package` needs a rebuild: always where every crate is rebuilt, and
/// otherwise where the inspection of one of its binaries reports a missing library.
pub open spec fn needs_rebuild(
    package: CrateInfoView,
    ldd_results: Seq<Seq<char>>,
    rebuild_all: bool,
) -> bool {
    rebuild_all || some_binary_is_broken(package.binaries, ldd_results)
}

/// The reports on the first `n` of `binaries`, one after the other.
pub open spec fn reports(binaries: Seq<Seq<char>>, ldd_results: Seq<Seq<char>>, n: nat) -> Seq<
    char,
>
    decreases n,
{
    if n == 0 {
        Seq::empty()
    } else {
        reports(binaries, ldd_results, (n - 1) as nat) + report(
            ldd_results[n - 1],
            binaries[n - 1],
        )
    }
}

/// What the check of `package` writes to the diagnostic channel: the reports on the
/// inspected binaries, in their order.
pub open spec fn crate_report(
    package: CrateInfoView,
    ldd_results: Seq<Seq<char>>,
    rebuild_all: bool,
) -> Seq<char> {
    let binaries = inspected_binaries(package, rebuild_all);
    reports(binaries, ldd_results, binaries.len())
}

/// The binaries of `package` whose inspection the check of the crate needs.
pub fn binaries_to_inspect<'a>(package: &'a CrateInfo, rebuild_all: bool) -> (binaries: &'a [
    String
])
    ensures
        binaries.deep_view() == inspected_binaries(package@, rebuild_all),
{
    let all = package.binaries.as_slice();
    let binaries = if rebuild_all {
        slice_subrange(all, 0, 0)
    } else {
        all
    };
    assert(binaries.deep_view() =~= inspected_binaries(package@, rebuild_all));
    binaries
}

/// Checks one crate against the inspection output of its binaries.
///
/// `ldd_results` holds the output for each of `binaries_to_inspect`, in the same
/// order; where every crate is rebuilt it is not looked at. The result is `package`
/// if it needs a rebuild and `None` if it does not, together with the text for the
/// two output channels.
pub fn check_crate<'a>(
    package: &'a CrateInfo,
    ldd_results: &Vec<String>,
    rebuild_all: bool,
) -> (res: (Option<&'a CrateInfo>, Output))
    requires
        rebuild_all || ldd_results@.len() == package@.binaries.len(),
    ensures
        res.0 is Some <==> needs_rebuild(package@, ldd_results.deep_view(), rebuild_all),
        res.0 matches Some(p) ==> p == package,
        res.1.stdout@ == checking_line(package@.name, package@.version),
        res.1.stderr@ == crate_report(package@, ldd_results.deep_view(), rebuild_all),
{
    let mut output_string = Output::new();
    output_string.stdout.append("  Checking crate ");
    output_string.stdout.append(package.name.as_str());
    output_string.stdout.append(" ");
    output_string.stdout.append(package.version.as_str());
    output_string.stdout.append("\n");
    assert(output_string.stdout@ =~= checking_line(package@.name, package@.version));
    if rebuild_all {
        return (Some(package), output_string);
    }
    let ghost binaries = package@.binaries;
    let ghost results = ldd_results.deep_view();
    let mut outdated_package: Option<&CrateInfo> = None;
    let mut i: usize = 0;
    while i < package.binaries.len()
        invariant
            i <= package.binaries@.len(),
            binaries == package@.binaries,
            results == ldd_results.deep_view(),
            ldd_results@.len() == package.binaries@.len(),
            output_string.stdout@ == checking_line(package@.name, package@.version),
            output_string.stderr@ == reports(binaries, results, i as nat),
            outdated_package is Some <==> exists|k: int|
                0 <= k < i && #[trigger] missing_libraries(results[k]).len() > 0,
            outdated_package matches Some(p) ==> p == package,
        decreases package.binaries@.len() - i,
    {
        let found = parse_ldd_output(
            &mut output_string,
            ldd_results[i].as_str(),
            package.binaries[i].as_str(),
            package,
        );
        if found.is_some() {
            outdated_package = found;
        }
        proof {
            assert(results[i as int] == ldd_results@[i as int]@);
            assert(binaries[i as int] == package.binaries@[i as int]@);
        }
        i += 1;
    }
    (outdated_package, output_string)
}

/// The records that `packages` hold.
pub open spec fn records(packages: Seq<CrateInfo>) -> Seq<CrateInfoView> {
    packages.map_values(|package: CrateInfo| package@)
}

/// Whether `inspections` holds, for each of `packages`, one inspection output for
/// each of its binaries.
pub open spec fn inspections_match(
    packages: Seq<CrateInfoView>,
    inspections: Seq<Seq<Seq<char>>>,
) -> bool {
    &&& inspections.len() == packages.len()
    &&& forall|i: int|
        0 <= i < packages.len() ==> (#[trigger] inspections[i]).len()
            == packages[i].binaries.len()
}

/// The indices, among the first `n` of `packages`, of the crates that need a rebuild,
/// in rising order.
pub open spec fn broken_indices(
    packages: Seq<CrateInfoView>,
    inspections: Seq<Seq<Seq<char>>>,
    rebuild_all: bool,
    n: nat,
) -> Seq<int>
    decreases n,
{
    if n == 0 {
        Seq::empty()
    } else {
        let before = broken_indices(packages, inspections, rebuild_all, (n - 1) as nat);
        if needs_rebuild(packages[n - 1], inspections[n - 1], rebuild_all) {
            before.push(n - 1)
        } else {
            before
        }
    }
}

/// The indices of the crates among `packages` that need a rebuild, in rising order.
pub open spec fn broken_crates(
    packages: Seq<CrateInfoView>,
    inspections: Seq<Seq<Seq<char>>>,
    rebuild_all: bool,
) -> Seq<int> {
    broken_indices(packages, inspections, rebuild_all, packages.len())
}

/// Whether `broken` are the crates among `packages` that need a rebuild, each once,
/// in the order of `packages`.
pub open spec fn is_audit_of(
    broken: Seq<CrateInfoView>,
    packages: Seq<CrateInfoView>,
    inspections: Seq<Seq<Seq<char>>>,
    rebuild_all: bool,
) -> bool {
    let indices = broken_crates(packages, inspections, rebuild_all);
    &&& broken.len() == indices.len()
    &&& forall|k: int| 0 <= k < broken.len() ==> #[trigger] broken[k] == packages[indices[k]]
}

/// Audits every crate of the manifest against the inspection output of its binaries.
///
/// `inspections` holds, for each crate in the order of `packages`, the output for each
/// of its `binaries_to_inspect`; where every crate is rebuilt it is not looked at. The
/// result holds the crates that need a rebuild, as
/// references into `packages` and in their order, and for every crate of `packages`
/// the text that its check writes.
pub fn audit<'a>(
    packages: &'a Vec<CrateInfo>,
    inspections: &Vec<Vec<String>>,
    rebuild_all: bool,
) -> (res: (Vec<&'a CrateInfo>, Vec<Output>))
    requires
        rebuild_all || inspections_match(records(packages@), inspections.deep_view()),
    ensures
        ({
            let found = broken_crates(records(packages@), inspections.deep_view(), rebuild_all);
            &&& res.0@.len() == found.len()
            &&& forall|k: int|
                0 <= k < found.len() ==> *(#[trigger] res.0@[k]) == packages@[found[k]]
        }),
        is_audit_of(
            res.0@.map_values(|package: &CrateInfo| package@),
            records(packages@),
            inspections.deep_view(),
            rebuild_all,
        ),
        res.1@.len() == packages@.len(),
        forall|i: int|
            0 <= i < packages@.len() ==> {
                &&& (#[trigger] res.1@[i]).stdout@ == checking_line(
                    packages@[i]@.name,
                    packages@[i]@.version,
                )
                &&& res.1@[i].stderr@ == crate_report(
                    packages@[i]@,
                    inspections.deep_view()[i],
                    rebuild_all,
                )
            },
{
    let ghost all = records(packages@);
    let ghost outputs_of = inspections.deep_view();
    let mut broken: Vec<&CrateInfo> = Vec::new();
    let mut outputs: Vec<Output> = Vec::new();
    let mut i: usize = 0;
    while i < packages.len()
        invariant
            i <= packages@.len(),
            all == records(packages@),
            outputs_of == inspections.deep_view(),
            rebuild_all || inspections_match(all, outputs_of),
            broken@.len() == broken_indices(all, outputs_of, rebuild_all, i as nat).len(),
            forall|k: int|
                0 <= k < broken@.len() ==> *(#[trigger] broken@[k]) == packages@[broken_indices(
                    all,
                    outputs_of,
                    rebuild_all,
                    i as nat,
                )[k]],
            forall|k: int|
                0 <= k < broken@.len() ==> 0 <= #[trigger] broken_indices(
                    all,
                    outputs_of,
                    rebuild_all,
                    i as nat,
                )[k] < i,
            outputs@.len() == i,
            forall|j: int|
                0 <= j < i ==> {
                    &&& (#[trigger] outputs@[j]).stdout@ == checking_line(
                        packages@[j]@.name,
                        packages@[j]@.version,
                    )
                    &&& outputs@[j].stderr@ == crate_report(
                        packages@[j]@,
                        outputs_of[j],
                        rebuild_all,
                    )
                },
        decreases packages@.len() - i,
    {
        proof {
            assert(all[i as int] == packages@[i as int]@);
            if !rebuild_all {
                assert(outputs_of[i as int] == inspections@[i as int].deep_view());
            }
        }
        let (outdated, output) = if rebuild_all {
            check_crate(&packages[i], &Vec::new(), true)
        } else {
            check_crate(&packages[i], &inspections[i], false)
        };
        match outdated {
            Some(package) => {
                broken.push(package);
            },
            None => {},
        }
        outputs.push(output);
        i += 1;
    }
    proof {
        let found = broken@.map_values(|package: &CrateInfo| package@);
        let indices = broken_indices(all, outputs_of, rebuild_all, packages@.len() as nat);
        assert forall|k: int| 0 <= k < found.len() implies #[trigger] found[k]
            == all[indices[k]] by {
            assert(*broken@[k] == packages@[indices[k]]);
        }
    }
    (broken, outputs)
}

/// The names of `packages`, in their order.
pub open spec fn names(packages: Seq<CrateInfoView>) -> Seq<Seq<char>> {
    packages.map_values(|package: CrateInfoView| package.name)
}

/// What the audit says at its end of the crates with the names `broken`.
pub open spec fn summary(broken: Seq<Seq<char>>, rebuild_all: bool) -> Seq<char> {
    if broken.len() == 0 {
        "\n  Everything looks good! :)"@
    } else if rebuild_all {
        "\n  Rebuilding all installed crates as requested."@
    } else {
        "\n  Crates needing rebuild: "@ + joined(broken, " "@)
    }
}

/// The sentence that ends the audit: that nothing is broken, that every crate is
/// rebuilt, or the names of the broken crates.
pub fn audit_summary(broken: &Vec<&CrateInfo>, rebuild_all: bool) -> (text: String)
    ensures
        text@ == summary(
            names(broken@.map_values(|package: &CrateInfo| package@)),
            rebuild_all,
        ),
{
    let ghost broken_names = names(broken@.map_values(|package: &CrateInfo| package@));
    if broken.len() == 0 {
        String::from_str("\n  Everything looks good! :)")
    } else if rebuild_all {
        String::from_str("\n  Rebuilding all installed crates as requested.")
    } else {
        let mut listed: Vec<String> = Vec::new();
        let mut i: usize = 0;
        while i < broken.len()
            invariant
                i <= broken@.len(),
                broken_names == names(broken@.map_values(|package: &CrateInfo| package@)),
                listed@.len() == i,
                forall|k: int| 0 <= k < i ==> (#[trigger] listed@[k])@ == broken_names[k],
            decreases broken@.len() - i,
        {
            listed.push(broken[i].name.clone());
            i += 1;
        }
        assert(listed.deep_view() =~= broken_names);
        let mut text = String::from_str("\n  Crates needing rebuild: ");
        text.append(join(&listed, " ").as_str());
        text
    }
}

/// Whether broken crates are installed again: where that was asked for, or where
/// every crate is rebuilt.
pub fn wants_rebuild(do_auto_rebuild: bool, rebuild_all: bool) -> (rebuild: bool)
    ensures
        rebuild == (do_auto_rebuild || rebuild_all),
{
    do_auto_rebuild || rebuild_all
}

/// The one registry from which a crate can be installed again.
pub open spec fn known_registry() -> Seq<char> {
    "https://github.com/rust-lang/crates.io-index"@
}

/// Whether `package` can be installed again: a crate from a registry only if the
/// registry is the known one.
pub open spec fn can_be_reinstalled(package: CrateInfoView) -> bool {
    package.provenance matches ProvenanceView::Registry { index_url } ==> index_url
        == known_registry()
}

/// The arguments that tell the installer where to take `package` from.
pub open spec fn source_args(package: CrateInfoView) -> Seq<Seq<char>> {
    match package.provenance {
        ProvenanceView::Git { repo_url, refspec } => seq!["--git"@, repo_url] + (match refspec {
            Some(RefspecView::Branch(branch)) => seq!["--branch"@, branch],
            Some(RefspecView::Tag(tag)) => seq!["--tag"@, tag],
            Some(RefspecView::Rev(rev)) => seq!["--rev"@, rev],
            None => Seq::empty(),
        }),
        ProvenanceView::Registry { index_url } => seq!["--version"@, package.version],
        ProvenanceView::LocalPath { path } => seq!["--path"@, path],
    }
}

/// Decides `can_be_reinstalled`.
pub fn has_known_registry(package: &CrateInfo) -> (known: bool)
    ensures
        known == can_be_reinstalled(package@),
{
    match &package.provenance {
        Provenance::Registry { index_url } => {
            let known = String::from_str("https://github.com/rust-lang/crates.io-index");
            *index_url == known
        },
        _ => true,
    }
}

/// The arguments that install `package` again from where it came: the repository with
/// its branch, tag or revision, the same version from the registry, or the directory.
pub fn cargo_args(package: &CrateInfo) -> (args: Vec<String>)
    requires
        can_be_reinstalled(package@),
    ensures
        args.deep_view() == source_args(package@),
{
    let mut args: Vec<String> = Vec::new();
    match &package.provenance {
        Provenance::Git { repo_url, refspec } => {
            args.push(String::from_str("--git"));
            args.push(repo_url.clone());
            match refspec {
                Some(Refspec::Branch(branch)) => {
                    args.push(String::from_str("--branch"));
                    args.push(branch.clone());
                },
                Some(Refspec::Tag(tag)) => {
                    args.push(String::from_str("--tag"));
                    args.push(tag.clone());
                },
                Some(Refspec::Rev(rev)) => {
                    args.push(String::from_str("--rev"));
                    args.push(rev.clone());
                },
                None => {},
            }
        },
        Provenance::Registry { index_url } => {
            args.push(String::from_str("--version"));
            args.push(package.version.clone());
        },
        Provenance::LocalPath { path } => {
            args.push(String::from_str("--path"));
            args.push(path.clone());
        },
    }
    assert(args.deep_view() =~= source_args(package@));
    args
}

/// The notice that the installation of `binary` begins with.
pub open spec fn reinstall_line(binary: Seq<char>) -> Seq<char> {
    "  Reinstalling "@ + binary
}

/// The arguments of the installer for `binary`: `install`, the name, `--force`, and
/// those of `cargo_args` that are not empty.
pub open spec fn install_args(binary: Seq<char>, cargo_args: Seq<Seq<char>>) -> Seq<Seq<char>> {
    seq!["install"@, binary, "--force"@] + cargo_args.filter(|arg: Seq<char>| arg.len() > 0)
}

/// Prepares the installation of `binary`: the notice for the standard output channel
/// and the arguments to start the installer with.
pub fn cargo_install_command(binary: &str, cargo_args: &Vec<String>) -> (res: (String, Vec<String>))
    ensures
        res.0@ == reinstall_line(binary@),
        res.1.deep_view() == install_args(binary@, cargo_args.deep_view()),
{
    let mut notice = String::from_str("  Reinstalling ");
    notice.append(binary);
    let mut command: Vec<String> = Vec::new();
    command.push(String::from_str("install"));
    command.push(String::from_str(binary));
    command.push(String::from_str("--force"));
    let ghost given = cargo_args.deep_view();
    let ghost filled = |arg: Seq<char>| arg.len() > 0;
    let mut i: usize = 0;
    proof {
        reveal(Seq::filter);
        assert(command.deep_view() =~= seq!["install"@, binary@, "--force"@] + given.take(0).filter(
            filled,
        ));
    }
    while i < cargo_args.len()
        invariant
            i <= cargo_args@.len(),
            given == cargo_args.deep_view(),
            filled == (|arg: Seq<char>| arg.len() > 0),
            command.deep_view() == seq!["install"@, binary@, "--force"@] + given.take(
                i as int,
            ).filter(filled),
        decreases cargo_args@.len() - i,
    {
        let argument = &cargo_args[i];
        let ghost before = command.deep_view();
        proof {
            assert(given.take(i + 1) =~= given.take(i as int).push(argument@));
            given.take(i as int).lemma_filter_push(argument@, filled);
        }
        if !argument.as_str().is_empty() {
            command.push(argument.clone());
            assert(command.deep_view() =~= before.push(argument@));
        }
        assert(command.deep_view() =~= seq!["install"@, binary@, "--force"@] + given.take(
            i + 1,
        ).filter(filled));
        i += 1;
    }
    assert(given.take(given.len() as int) =~= given);
    (notice, command)
}

/// Whether an installation failed: whether the installer could not be started
/// (`None`) or ended without success (`Some(false)`).
pub open spec fn install_failed(outcome: Option<bool>) -> bool {
    outcome != Some(true)
}

/// Notes how the installation of `binary` ended: a failed one adds the name to
/// `list_of_failures`.
pub fn record_install(binary: &str, outcome: Option<bool>, list_of_failures: &mut Vec<String>)
    ensures
        final(list_of_failures).deep_view() == if install_failed(outcome) {
            old(list_of_failures).deep_view().push(binary@)
        } else {
            old(list_of_failures).deep_view()
        },
{
    let succeeded = match outcome {
        Some(success) => success,
        None => false,
    };
    if !succeeded {
        list_of_failures.push(String::from_str(binary));
        assert(list_of_failures.deep_view() =~= old(list_of_failures).deep_view().push(binary@));
    }
}

/// What is said of failed installations: nothing if there are none, else their names.
pub open spec fn failures_line(failures: Seq<Seq<char>>) -> Option<Seq<char>> {
    if failures.len() == 0 {
        None
    } else {
        Some("    Failed rebuilds: "@ + joined(failures, " "@))
    }
}

/// The line that names the failed installations, if there are any.
pub fn failure_report(list_of_failures: &Vec<String>) -> (line: Option<String>)
    ensures
        text_of(line) == failures_line(list_of_failures.deep_view()),
{
    if list_of_failures.len() == 0 {
        None
    } else {
        let mut line = String::from_str("    Failed rebuilds: ");
        line.append(join(list_of_failures, " ").as_str());
        Some(line)
    }
}

/// The exit code of the run: 0 where no crate is broken or every broken crate was
/// installed again, 4 where an installation failed, 5 where broken crates were left
/// as they are.
pub open spec fn exit_code_of(broken: nat, rebuild: bool, failures: nat) -> int {
    if broken == 0 {
        0
    } else if !rebuild {
        5
    } else if failures > 0 {
        4
    } else {
        0
    }
}

/// Computes `exit_code_of`.
pub fn exit_code(broken: usize, rebuild: bool, failures: usize) -> (code: i32)
    ensures
        code == exit_code_of(broken as nat, rebuild, failures as nat),
{
    if broken == 0 {
        0
    } else if !rebuild {
        5
    } else if failures > 0 {
        4
    } else {
        0
    }
}

/// The report on a binary is empty where no line of the inspection is unresolved.
/// Where some are, it holds the header, which names the binary, and below it one
/// line for each unresolved line, in their order: the line without `=> not found`
/// and without the whitespace around the rest, after two tabs.
pub proof fn lemma_report_lines(ldd_result: Seq<char>, binary: Seq<char>)
    ensures
        missing_libraries(ldd_result).len() == unresolved_lines(ldd_result).len(),
        unresolved_lines(ldd_result).len() == 0 ==> report(ldd_result, binary)
            == Seq::<char>::empty(),
        unresolved_lines(ldd_result).len() > 0 ==> {
            &&& report_lines(ldd_result, binary).len() == unresolved_lines(ldd_result).len() + 1
            &&& report_lines(ldd_result, binary)[0] == header_line(binary)
            &&& forall|k: int|
                0 <= k < unresolved_lines(ldd_result).len() ==> #[trigger] report_lines(
                    ldd_result,
                    binary,
                )[k + 1] == "\t\t"@ + trimmed(
                    without_suffix(unresolved_lines(ldd_result)[k], "=> not found"@),
                ) + "\n"@
        },
{
    if unresolved_lines(ldd_result).len() == 0 {
        assert(report_lines(ldd_result, binary).flatten() =~= Seq::<char>::empty());
    }
}

/// Where every crate is rebuilt, no binary of any crate is inspected, and every crate
/// needs a rebuild whatever an inspection would say: the audit finds all of
/// `packages`, in their order.
pub proof fn lemma_rebuild_all(packages: Seq<CrateInfoView>, inspections: Seq<Seq<Seq<char>>>)
    ensures
        forall|i: int|
            0 <= i < packages.len() ==> #[trigger] inspected_binaries(packages[i], true).len() == 0,
        forall|i: int|
            0 <= i < packages.len() ==> needs_rebuild(#[trigger] packages[i], inspections[i], true),
        is_audit_of(packages, packages, inspections, true),
{
    lemma_rebuild_all_indices(packages, inspections, packages.len());
}

/// Where every crate is rebuilt, the first `n` crates all need a rebuild.
proof fn lemma_rebuild_all_indices(
    packages: Seq<CrateInfoView>,
    inspections: Seq<Seq<Seq<char>>>,
    n: nat,
)
    ensures
        broken_indices(packages, inspections, true, n) == Seq::new(n, |i: int| i),
    decreases n,
{
    if n > 0 {
        lemma_rebuild_all_indices(packages, inspections, (n - 1) as nat);
        assert(Seq::new((n - 1) as nat, |i: int| i).push(n - 1) =~= Seq::new(n, |i: int| i));
    } else {
        assert(broken_indices(packages, inspections, true, n) =~= Seq::new(n, |i: int| i));
    }
}

/// Two audits of the same manifest against the same inspection outputs find the same
/// crates broken: what an audit finds depends on nothing else.
pub proof fn lemma_audit_is_repeatable(
    content: Seq<char>,
    inspections: Seq<Seq<Seq<char>>>,
    rebuild_all: bool,
    first_packages: Seq<CrateInfoView>,
    first_broken: Seq<CrateInfoView>,
    second_packages: Seq<CrateInfoView>,
    second_broken: Seq<CrateInfoView>,
)
    requires
        is_manifest_of(first_packages, content),
        is_audit_of(first_broken, first_packages, inspections, rebuild_all),
        is_manifest_of(second_packages, content),
        is_audit_of(second_broken, second_packages, inspections, rebuild_all),
    ensures
        first_packages == second_packages,
        first_broken == second_broken,
{
    assert(first_packages =~= second_packages);
    assert(first_broken =~= second_broken);
}

/// The audit finds a crate broken exactly when it needs a rebuild: the indices of
/// the broken crates are those of the crates that need one, each once and in rising
/// order.
pub proof fn lemma_broken_indices(
    packages: Seq<CrateInfoView>,
    inspections: Seq<Seq<Seq<char>>>,
    rebuild_all: bool,
    n: nat,
)
    requires
        n <= packages.len(),
    ensures
        forall|i: int|
            0 <= i < n ==> (broken_indices(packages, inspections, rebuild_all, n).contains(i)
                <==> needs_rebuild(#[trigger] packages[i], inspections[i], rebuild_all)),
        forall|k: int|
            0 <= k < broken_indices(packages, inspections, rebuild_all, n).len() ==> 0
                <= #[trigger] broken_indices(packages, inspections, rebuild_all, n)[k] < n,
        forall|j: int, k: int|
            0 <= j < k < broken_indices(packages, inspections, rebuild_all, n).len()
                ==> broken_indices(packages, inspections, rebuild_all, n)[j] < broken_indices(
                packages,
                inspections,
                rebuild_all,
                n,
            )[k],
    decreases n,
{
    if n > 0 {
        let before = broken_indices(packages, inspections, rebuild_all, (n - 1) as nat);
        let all = broken_indices(packages, inspections, rebuild_all, n);
        lemma_broken_indices(packages, inspections, rebuild_all, (n - 1) as nat);
        assert forall|i: int| 0 <= i < n implies (all.contains(i) <==> needs_rebuild(
            #[trigger] packages[i],
            inspections[i],
            rebuild_all,
        )) by {
            if needs_rebuild(packages[n - 1], inspections[n - 1], rebuild_all) {
                assert(all == before.push(n - 1));
                assert(all[all.len() - 1] == n - 1);
                if i < n - 1 && before.contains(i) {
                    let k = choose|k: int| 0 <= k < before.len() && before[k] == i;
                    assert(all[k] == i);
                }
                if all.contains(i) && i < n - 1 {
                    let k = choose|k: int| 0 <= k < all.len() && all[k] == i;
                    assert(before[k] == i);
                }
            } else {
                if all.contains(n - 1) {
                    let k = choose|k: int| 0 <= k < all.len() && all[k] == n - 1;
                    assert(before[k] < n - 1);
                }
            }
        }
    }
}

} // verus!
