use cargo_rebuild_check::audit::{
    audit, audit_summary, binaries_to_inspect, cargo_args, cargo_install_command, check_crate,
    exit_code, failure_report, has_known_registry, parse_ldd_output, record_install,
    wants_rebuild, Output,
};
use cargo_rebuild_check::parse::{decode_line, get_installed_crate_information, CrateInfo};

const CLIPPY_LINE: &str = "\"clippy 0.0.189 (registry+https://github.com/rust-lang/crates.io-index)\" = [\"cargo-clippy\", \"clippy-driver\"]";

const BROKEN_LDD_OUTPUT: &str = "    linux-vdso.so.1 (0x00007ffec37d0000)
    librustc_driver-6516506ab0349d45.so => not found
    librustc_plugin-14c7fbb709ee1764.so => not found
    librustc_typeck-ca6d3c89de970134.so => not found
    librustc-6b0d6e07668228e2.so => not found
    libsyntax-5ece0a81ed6c5461.so => not found
    librustc_errors-7907d589f279528b.so => not found
    libsyntax_pos-610524479a0d36fa.so => not found
    librustc_data_structures-b8a8de55dc5cd1ce.so => not found
    libstd-0cfbe79f10411924.so => not found
    libpthread.so.0 => /usr/lib/libpthread.so.0 (0x00007f2367625000)
    libgcc_s.so.1 => /usr/lib/libgcc_s.so.1 (0x00007f236740e000)
    libc.so.6 => /usr/lib/libc.so.6 (0x00007f2367057000)
    libm.so.6 => /usr/lib/libm.so.6 (0x00007f2366d0b000)
    /lib64/ld-linux-x86-64.so.2 => /usr/lib64/ld-linux-x86-64.so.2 (0x00007f2367c6f000)\n";

const CLEAN_LDD_OUTPUT: &str = "    linux-vdso.so.1 (0x00007ffec37d0000)
libpthread.so.0 => /usr/lib/libpthread.so.0 (0x00007f2367625000)
libc.so.6 => /usr/lib/libc.so.6 (0x00007f2367057000)\n";

fn strings(items: &[&str]) -> Vec<String> {
    items.iter().map(|item| item.to_string()).collect()
}

fn manifest() -> Vec<CrateInfo> {
    let content = "[v1]
\"clippy 0.0.189 (registry+https://github.com/rust-lang/crates.io-index)\" = [\"cargo-clippy\", \"clippy-driver\"]
\"ripgrep 0.8.0 (git+https://github.com/BurntSushi/ripgrep?tag=0.8.0#23d1b91e)\" = [\"rg\"]
\"racer 2.0.12 (path+file:///tmp/racer)\" = [\"racer\"]
";
    get_installed_crate_information(Ok(content.to_string())).unwrap()
}

#[test]
fn package_needs_rebuild() {
    let clippy_line ="\"clippy 0.0.189 (registry+https://github.com/rust-lang/crates.io-index)\" = [\"cargo-clippy\", \"clippy-driver\"]";

    let clippy_crateinfo = decode_line(clippy_line);

    let mut to_be_printed_string = Output::new();
    // clippy-driver
    let ldd_output = "    linux-vdso.so.1 (0x00007ffec37d0000)
    librustc_driver-6516506ab0349d45.so => not found
    librustc_plugin-14c7fbb709ee1764.so => not found
    librustc_typeck-ca6d3c89de970134.so => not found
    librustc-6b0d6e07668228e2.so => not found
    libsyntax-5ece0a81ed6c5461.so => not found
    librustc_errors-7907d589f279528b.so => not found
    libsyntax_pos-610524479a0d36fa.so => not found
    librustc_data_structures-b8a8de55dc5cd1ce.so => not found
    libstd-0cfbe79f10411924.so => not found
    libpthread.so.0 => /usr/lib/libpthread.so.0 (0x00007f2367625000)
    libgcc_s.so.1 => /usr/lib/libgcc_s.so.1 (0x00007f236740e000)
    libc.so.6 => /usr/lib/libc.so.6 (0x00007f2367057000)
    libm.so.6 => /usr/lib/libm.so.6 (0x00007f2366d0b000)
    /lib64/ld-linux-x86-64.so.2 => /usr/lib64/ld-linux-x86-64.so.2 (0x00007f2367c6f000)\n";

    let our_formatted_output = "    Binary 'clippy-driver' is missing:
\t\tlibrustc_driver-6516506ab0349d45.so
\t\tlibrustc_plugin-14c7fbb709ee1764.so
\t\tlibrustc_typeck-ca6d3c89de970134.so
\t\tlibrustc-6b0d6e07668228e2.so
\t\tlibsyntax-5ece0a81ed6c5461.so
\t\tlibrustc_errors-7907d589f279528b.so
\t\tlibsyntax_pos-610524479a0d36fa.so
\t\tlibrustc_data_structures-b8a8de55dc5cd1ce.so
\t\tlibstd-0cfbe79f10411924.so\n";

    let parsed = parse_ldd_output(
        &mut to_be_printed_string,
        ldd_output,
        "clippy-driver",
        &clippy_crateinfo,
    );
    assert!(parsed.is_some());
    let ci = parsed.unwrap();
    // do some sanity checks
    assert_eq!(ci.name, "clippy");
    assert_eq!(ci.git(), None,);
    assert_eq!(ci.branch(), None);
    assert_eq!(ci.tag(), None);
    assert_eq!(ci.rev(), None);
    assert_eq!(ci.binaries, vec!["cargo-clippy", "clippy-driver"]);
    assert_eq!(our_formatted_output, to_be_printed_string.stderr);
}

#[test]
fn package_does_not_need_rebuild() {
    let clippy_line ="\"clippy 0.0.189 (registry+https://github.com/rust-lang/crates.io-index)\" = [\"cargo-clippy\", \"clippy-driver\"]";

    let clippy_crateinfo = decode_line(clippy_line);

    let mut to_be_printed_string = Output::new();
    // clippy-driver
    let ldd_output = "    linux-vdso.so.1 (0x00007ffec37d0000)
librustc_driver-6516506ab0349d45.so => foo.so
librustc_plugin-14c7fbb709ee1764.so => foo.so
librustc_typeck-ca6d3c89de970134.so => foo.so
librustc-6b0d6e07668228e2.so => foo.so
libsyntax-5ece0a81ed6c5461.so => foo.so
librustc_errors-7907d589f279528b.so => foo.so
libsyntax_pos-610524479a0d36fa.so => foo.so
librustc_data_structures-b8a8de55dc5cd1ce.so => foo.so
libstd-0cfbe79f10411924.so => foo.so
libpthread.so.0 => /usr/lib/libpthread.so.0 (0x00007f2367625000)
libgcc_s.so.1 => /usr/lib/libgcc_s.so.1 (0x00007f236740e000)
libc.so.6 => /usr/lib/libc.so.6 (0x00007f2367057000)
libm.so.6 => /usr/lib/libm.so.6 (0x00007f2366d0b000)
/lib64/ld-linux-x86-64.so.2 => /usr/lib64/ld-linux-x86-64.so.2 (0x00007f2367c6f000)\n";

    let parsed = parse_ldd_output(
        &mut to_be_printed_string,
        ldd_output,
        "clippy-driver",
        &clippy_crateinfo,
    );
    assert!(parsed.is_none());
    assert!(to_be_printed_string.stderr.is_empty());
}

#[test]
fn report_has_one_line_for_each_missing_library() {
    let package = decode_line(CLIPPY_LINE);
    let mut output = Output::new();
    let found = parse_ldd_output(&mut output, BROKEN_LDD_OUTPUT, "clippy-driver", &package);
    assert!(found.is_some());
    let report: Vec<&str> = output.stderr.lines().collect();
    assert_eq!(report.len(), 10);
    assert_eq!(report[0], "    Binary 'clippy-driver' is missing:");
    for line in &report[1..] {
        assert!(line.starts_with("\t\t"));
        assert!(!line.contains("=> not found"));
        assert_eq!(line.trim(), &line[2..]);
    }
    assert_eq!(report[9], "\t\tlibstd-0cfbe79f10411924.so");
    assert!(output.stdout.is_empty());
}

#[test]
fn empty_inspection_output_is_clean() {
    let package = decode_line(CLIPPY_LINE);
    let mut output = Output::new();
    assert!(parse_ldd_output(&mut output, "", "clippy-driver", &package).is_none());
    assert!(parse_ldd_output(&mut output, "\n\n", "clippy-driver", &package).is_none());
    assert!(output.stderr.is_empty());
    assert!(output.stdout.is_empty());
}

#[test]
fn report_is_added_to_what_was_gathered() {
    let package = decode_line(CLIPPY_LINE);
    let mut output = Output::new();
    output.stdout.push_str("kept");
    output.stderr.push_str("before\n");
    let found = parse_ldd_output(&mut output, "liba.so => not found", "a", &package);
    assert!(found.is_some());
    assert_eq!(output.stdout, "kept");
    assert_eq!(output.stderr, "before\n    Binary 'a' is missing:\n\t\tliba.so\n");
}

#[test]
fn only_the_marker_at_the_end_of_a_line_counts() {
    let package = decode_line(CLIPPY_LINE);
    let mut output = Output::new();
    let ldd = "liba.so => not found (0x1)\n  libb.so => not found => not found\r\nlibc.so => not found \n=> not found";
    let found = parse_ldd_output(&mut output, ldd, "b", &package);
    assert!(found.is_some());
    assert_eq!(
        output.stderr,
        "    Binary 'b' is missing:\n\t\tlibb.so => not found\n\t\t\n"
    );
}

#[test]
fn crate_with_broken_binary_needs_rebuild() {
    let package = decode_line(CLIPPY_LINE);
    let results = strings(&[BROKEN_LDD_OUTPUT, CLEAN_LDD_OUTPUT]);
    let (outdated, output) = check_crate(&package, &results, false);
    assert_eq!(outdated.unwrap().name, "clippy");
    assert_eq!(output.stdout, "  Checking crate clippy 0.0.189\n");
    let report: Vec<&str> = output.stderr.lines().collect();
    assert_eq!(report.len(), 10);
    assert_eq!(report[0], "    Binary 'cargo-clippy' is missing:");
}

#[test]
fn each_broken_binary_has_its_own_header() {
    let package = decode_line(CLIPPY_LINE);
    let results = strings(&["liba.so => not found\n", "libb.so => not found\n"]);
    let (outdated, output) = check_crate(&package, &results, false);
    assert!(outdated.is_some());
    assert_eq!(
        output.stderr,
        "    Binary 'cargo-clippy' is missing:\n\t\tliba.so\n    Binary 'clippy-driver' is missing:\n\t\tlibb.so\n"
    );
}

#[test]
fn clean_crate_needs_no_rebuild() {
    let package = decode_line(CLIPPY_LINE);
    let results = strings(&[CLEAN_LDD_OUTPUT, ""]);
    let (outdated, output) = check_crate(&package, &results, false);
    assert!(outdated.is_none());
    assert_eq!(output.stdout, "  Checking crate clippy 0.0.189\n");
    assert!(output.stderr.is_empty());
}

#[test]
fn rebuild_all_inspects_nothing_and_breaks_every_crate() {
    let packages = manifest();
    for package in &packages {
        assert!(binaries_to_inspect(package, true).is_empty());
        assert_eq!(binaries_to_inspect(package, false), &package.binaries[..]);
    }
    let inspections: Vec<Vec<String>> = vec![vec![], vec![], vec![]];
    let (broken, outputs) = audit(&packages, &inspections, true);
    let names: Vec<&str> = broken.iter().map(|p| p.name.as_str()).collect();
    assert_eq!(names, vec!["clippy", "ripgrep", "racer"]);
    assert_eq!(outputs.len(), 3);
    assert_eq!(outputs[1].stdout, "  Checking crate ripgrep 0.8.0\n");
    assert!(outputs.iter().all(|o| o.stderr.is_empty()));
    assert_eq!(
        audit_summary(&broken, true),
        "\n  Rebuilding all installed crates as requested."
    );
    // whatever the inspections say, and without any
    let clean = vec![strings(&[CLEAN_LDD_OUTPUT]), strings(&[BROKEN_LDD_OUTPUT])];
    let (broken, outputs) = audit(&packages, &clean, true);
    assert_eq!(broken.len(), 3);
    assert!(outputs.iter().all(|o| o.stderr.is_empty()));
    let (broken, _) = audit(&packages, &Vec::new(), true);
    assert_eq!(broken.len(), 3);
    let (outdated, output) = check_crate(&packages[0], &strings(&[CLEAN_LDD_OUTPUT]), true);
    assert!(outdated.is_some());
    assert_eq!(output.stdout, "  Checking crate clippy 0.0.189\n");
    assert!(output.stderr.is_empty());
}

#[test]
fn audit_finds_the_broken_crates_in_order() {
    let packages = manifest();
    let inspections = vec![
        strings(&[CLEAN_LDD_OUTPUT, BROKEN_LDD_OUTPUT]),
        strings(&[CLEAN_LDD_OUTPUT]),
        strings(&["libracer.so => not found\n"]),
    ];
    let (broken, outputs) = audit(&packages, &inspections, false);
    let names: Vec<&str> = broken.iter().map(|p| p.name.as_str()).collect();
    assert_eq!(names, vec!["clippy", "racer"]);
    assert!(std::ptr::eq(broken[0], &packages[0]));
    assert!(std::ptr::eq(broken[1], &packages[2]));
    assert_eq!(outputs.len(), 3);
    assert!(outputs[1].stderr.is_empty());
    assert_eq!(
        outputs[2].stderr,
        "    Binary 'racer' is missing:\n\t\tlibracer.so\n"
    );
    assert_eq!(
        audit_summary(&broken, false),
        "\n  Crates needing rebuild: clippy racer"
    );
}

#[test]
fn audit_twice_gives_the_same_crates() {
    let packages = manifest();
    let inspections = vec![
        strings(&[BROKEN_LDD_OUTPUT, CLEAN_LDD_OUTPUT]),
        strings(&[BROKEN_LDD_OUTPUT]),
        strings(&[CLEAN_LDD_OUTPUT]),
    ];
    let (first, first_outputs) = audit(&packages, &inspections, false);
    let (second, second_outputs) = audit(&packages, &inspections, false);
    assert_eq!(first.len(), 2);
    assert_eq!(first.len(), second.len());
    for (a, b) in first.iter().zip(second.iter()) {
        assert!(std::ptr::eq(*a, *b));
    }
    for (a, b) in first_outputs.iter().zip(second_outputs.iter()) {
        assert_eq!(a.stdout, b.stdout);
        assert_eq!(a.stderr, b.stderr);
    }
}

#[test]
fn audit_of_clean_crates_finds_nothing() {
    let packages = manifest();
    let inspections = vec![
        strings(&[CLEAN_LDD_OUTPUT, CLEAN_LDD_OUTPUT]),
        strings(&[""]),
        strings(&[CLEAN_LDD_OUTPUT]),
    ];
    let (broken, _) = audit(&packages, &inspections, false);
    assert!(broken.is_empty());
    assert_eq!(audit_summary(&broken, false), "\n  Everything looks good! :)");
    assert_eq!(audit_summary(&broken, true), "\n  Everything looks good! :)");
    let none: Vec<CrateInfo> = Vec::new();
    let (broken, outputs) = audit(&none, &Vec::new(), true);
    assert!(broken.is_empty());
    assert!(outputs.is_empty());
}

#[test]
fn arguments_for_each_provenance() {
    let git = decode_line("\"x 1 (git+https://example.org/x#0123)\" = [\"x\"]");
    assert_eq!(cargo_args(&git), strings(&["--git", "https://example.org/x"]));
    let branch = decode_line("\"alacritty 0.1.0 (git+https://github.com/jwilm/alacritty/?branch=scrollback#9ee1cf24)\" = [\"alacritty\"]");
    assert_eq!(
        cargo_args(&branch),
        strings(&["--git", "https://github.com/jwilm/alacritty/", "--branch", "scrollback"])
    );
    let tag = decode_line("\"ripgrep 0.8.0 (git+https://github.com/BurntSushi/ripgrep?tag=0.8.0#23d1b91e)\" = [\"rg\"]");
    assert_eq!(
        cargo_args(&tag),
        strings(&["--git", "https://github.com/BurntSushi/ripgrep", "--tag", "0.8.0"])
    );
    let rev = decode_line("\"x 1 (git+https://example.org/x?rev=37a364d#37a364d)\" = [\"x\"]");
    assert_eq!(
        cargo_args(&rev),
        strings(&["--git", "https://example.org/x", "--rev", "37a364d"])
    );
    let registry = decode_line(CLIPPY_LINE);
    assert_eq!(cargo_args(&registry), strings(&["--version", "0.0.189"]));
    let path = decode_line("\"racer 2.0.12 (path+file:///tmp/racer)\" = [\"racer\"]");
    assert_eq!(cargo_args(&path), strings(&["--path", "/tmp/racer"]));
}

#[test]
fn only_the_known_registry_is_supported() {
    assert!(has_known_registry(&decode_line(CLIPPY_LINE)));
    assert!(!has_known_registry(&decode_line(
        "\"x 1 (registry+https://example.org/index)\" = [\"x\"]"
    )));
    assert!(has_known_registry(&decode_line(
        "\"x 1 (git+https://example.org/x#0123)\" = [\"x\"]"
    )));
    assert!(has_known_registry(&decode_line(
        "\"x 1 (path+file:///x)\" = [\"x\"]"
    )));
}

#[test]
fn install_command_leaves_out_empty_arguments() {
    let (notice, command) =
        cargo_install_command("clippy", &strings(&["--version", "", "0.0.189", ""]));
    assert_eq!(notice, "  Reinstalling clippy");
    assert_eq!(
        command,
        strings(&["install", "clippy", "--force", "--version", "0.0.189"])
    );
    let (_, command) = cargo_install_command("rg", &Vec::new());
    assert_eq!(command, strings(&["install", "rg", "--force"]));
}

#[test]
fn failed_installations_are_listed() {
    let mut failures: Vec<String> = Vec::new();
    assert_eq!(failure_report(&failures), None);
    record_install("clippy", Some(true), &mut failures);
    assert!(failures.is_empty());
    record_install("rg", Some(false), &mut failures);
    record_install("racer", None, &mut failures);
    assert_eq!(failures, strings(&["rg", "racer"]));
    assert_eq!(
        failure_report(&failures),
        Some("    Failed rebuilds: rg racer".to_string())
    );
}

#[test]
fn rebuild_is_wanted_on_either_flag() {
    assert!(!wants_rebuild(false, false));
    assert!(wants_rebuild(true, false));
    assert!(wants_rebuild(false, true));
    assert!(wants_rebuild(true, true));
}

#[test]
fn exit_codes() {
    assert_eq!(exit_code(0, false, 0), 0);
    assert_eq!(exit_code(0, true, 0), 0);
    assert_eq!(exit_code(2, false, 0), 5);
    assert_eq!(exit_code(2, true, 0), 0);
    assert_eq!(exit_code(2, true, 1), 4);
}
