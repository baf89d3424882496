use cargo_rebuild_check::errors::ErrorKind;
use cargo_rebuild_check::parse::{
    decode_line, find_malformed_line, get_installed_crate_information, try_decode_line,
    DecodeError, Provenance, Refspec,
};

#[test]
fn decode_line_git_simple() {
    let line = "\"cargo-cache 0.1.0 (git+http://github.com/matthiaskrgr/cargo-cache#6083f409343aeb8c7fcedd1877fd1ae4ef8c9e49)\" = [\"cargo-cache\"]";
    let ci = decode_line(line); // crate info obj
    assert_eq!(ci.name, "cargo-cache");
    assert_eq!(ci.version, "0.1.0");
    assert_eq!(
        ci.git(),
        Some("http://github.com/matthiaskrgr/cargo-cache".to_string())
    );
    assert_eq!(ci.branch(), None);
    assert_eq!(ci.tag(), None);
    assert_eq!(ci.rev(), None);
    assert_eq!(ci.registry(), None);
    assert_eq!(ci.path(), None);
    assert_eq!(ci.binaries, vec!["cargo-cache"]);
}

#[test]
fn decode_line_git_branch() {
    let line = "\"alacritty 0.1.0 (git+https://github.com/jwilm/alacritty/?branch=scrollback#9ee1cf2455d5512b087757e09451f9d122548da2)\" = [\"alacritty\"]";
    let ci = decode_line(line);
    assert_eq!(ci.name, "alacritty");
    assert_eq!(ci.version, "0.1.0");
    assert_eq!(
        ci.git(),
        Some("https://github.com/jwilm/alacritty/".to_string())
    );
    assert_eq!(ci.branch(), Some("scrollback".to_string()));
    assert_eq!(ci.tag(), None);
    assert_eq!(ci.rev(), None);
    assert_eq!(ci.registry(), None);
    assert_eq!(ci.path(), None);
    assert_eq!(ci.binaries, vec!["alacritty"]);
}

#[test]
fn decode_line_git_tag() {
    let line = "\"ripgrep 0.8.0 (git+https://github.com/BurntSushi/ripgrep?tag=0.8.0#23d1b91eaddbfb886a3a99d615f49551cd35cb6c)\" = [\"rg\"]";
    let ci = decode_line(line);
    assert_eq!(ci.name, "ripgrep");
    assert_eq!(ci.version, "0.8.0");
    assert_eq!(
        ci.git(),
        Some("https://github.com/BurntSushi/ripgrep".to_string())
    );
    assert_eq!(ci.branch(), None);
    assert_eq!(ci.tag(), Some("0.8.0".to_string()));
    assert_eq!(ci.rev(), None);
    assert_eq!(ci.registry(), None);
    assert_eq!(ci.path(), None);
    assert_eq!(ci.binaries, vec!["rg"]);
}

#[test]
fn decode_line_git_rev() {
    let line = "\"cargo-rebuild-check 0.1.0 (git+https://github.com/matthiaskrgr/cargo-rebuild-check?rev=37a364d852f697612fede36546cbb31ef0265f08#37a364d852f697612fede36546cbb31ef0265f08)\" = [\"cargo-rebuild-check\"]";
    let ci = decode_line(line);
    assert_eq!(ci.name, "cargo-rebuild-check");
    assert_eq!(ci.version, "0.1.0");
    assert_eq!(
        ci.git(),
        Some("https://github.com/matthiaskrgr/cargo-rebuild-check".to_string())
    );
    assert_eq!(ci.branch(), None);
    assert_eq!(ci.tag(), None);
    assert_eq!(
        ci.rev(),
        Some("37a364d852f697612fede36546cbb31ef0265f08".to_string())
    );
    assert_eq!(ci.registry(), None);
    assert_eq!(ci.path(), None);
    assert_eq!(ci.binaries, vec!["cargo-rebuild-check"]);
}

#[test]
fn decode_line_registry() {
    let line = "\"mdbook 0.1.5 (registry+https://github.com/rust-lang/crates.io-index)\" = [\"mdbook\"]";
    let ci = decode_line(line);
    assert_eq!(ci.name, "mdbook");
    assert_eq!(ci.version, "0.1.5");
    assert_eq!(ci.git(), None,);
    assert_eq!(ci.branch(), None);
    assert_eq!(ci.tag(), None);
    assert_eq!(ci.rev(), None);
    assert_eq!(
        ci.registry(),
        Some("https://github.com/rust-lang/crates.io-index".to_string())
    );
    assert_eq!(ci.path(), None);
    assert_eq!(ci.binaries, vec!["mdbook"]);
}

#[test]
fn decode_line_path() {
    let line = "\"racer 2.0.12 (path+file:///tmp/racer)\" = [\"racer\"]";
    let ci = decode_line(line);
    assert_eq!(ci.name, "racer");
    assert_eq!(ci.version, "2.0.12");
    assert_eq!(ci.git(), None,);
    assert_eq!(ci.branch(), None);
    assert_eq!(ci.tag(), None);
    assert_eq!(ci.rev(), None);
    assert_eq!(ci.registry(), None);
    assert_eq!(ci.path(), Some("/tmp/racer".to_string()));
    assert_eq!(ci.binaries, vec!["racer"]);
}

#[test]
fn decode_line_multiple_binaries() {
    let line = "\"rustfmt-nightly 0.4.1 (registry+https://github.com/rust-lang/crates.io-index)\" = [\"cargo-fmt\", \"git-rustfmt\", \"rustfmt\", \"rustfmt-format-diff\"]";
    let ci = decode_line(line);
    assert_eq!(ci.name, "rustfmt-nightly");
    assert_eq!(ci.version, "0.4.1");
    assert_eq!(ci.git(), None,);
    assert_eq!(ci.branch(), None);
    assert_eq!(ci.tag(), None);
    assert_eq!(ci.rev(), None);
    assert_eq!(
        ci.registry(),
        Some("https://github.com/rust-lang/crates.io-index".to_string())
    );
    assert_eq!(ci.path(), None);
    assert_eq!(
        ci.binaries,
        vec!["cargo-fmt", "git-rustfmt", "rustfmt", "rustfmt-format-diff"]
    );
}

#[test]
fn check_failure_on_invalid_api() {
    let file_content = "[v2]
\"afl 0.3.2 (registry+https://github.com/rust-lang/crates.io-index)\" = [\"cargo-afl\"]"
        .to_string();
    let file_result = Ok(file_content);
    let parsed = get_installed_crate_information(file_result);
    assert!(parsed.is_err());
    match parsed {
        Err(e) => {
            assert_eq!(e, ErrorKind::UnknownAPI);
        }
        _ => unreachable!(),
    }
}

#[test]
fn check_success_on_valid_api() {
    let file_content = "[v1]
\"afl 0.3.2 (registry+https://github.com/rust-lang/crates.io-index)\" = [\"cargo-afl\"]"
        .to_string();
    let file_result = Ok(file_content);
    let parsed = get_installed_crate_information(file_result);
    assert!(parsed.is_ok());
    let parsed = parsed.unwrap();
    assert_eq!(parsed.len(), 1);
    let pkg = &parsed.first().unwrap();
    assert_eq!(pkg.name, "afl");
    assert_eq!(pkg.version, "0.3.2");
}

#[test]
fn manifest_record_is_complete() {
    let file_content = "[v1]
\"afl 0.3.2 (registry+https://github.com/rust-lang/crates.io-index)\" = [\"cargo-afl\"]"
        .to_string();
    let parsed = get_installed_crate_information(Ok(file_content)).unwrap();
    assert_eq!(parsed.len(), 1);
    let pkg = &parsed[0];
    assert_eq!(pkg.name, "afl");
    assert_eq!(pkg.version, "0.3.2");
    assert_eq!(
        pkg.registry(),
        Some("https://github.com/rust-lang/crates.io-index".to_string())
    );
    assert_eq!(pkg.git(), None);
    assert_eq!(pkg.path(), None);
    assert_eq!(pkg.binaries, vec!["cargo-afl"]);
}

#[test]
fn manifest_keeps_the_order_of_its_lines() {
    let file_content = "[v1]\n\"b 2 (path+file:///b)\" = [\"b\"]\r\n\"a 1 (registry+r)\" = [\"a1\", \"a2\"]\n"
        .to_string();
    let parsed = get_installed_crate_information(Ok(file_content)).unwrap();
    assert_eq!(parsed.len(), 2);
    assert_eq!(parsed[0].name, "b");
    assert_eq!(parsed[0].path(), Some("/b".to_string()));
    assert_eq!(parsed[0].binaries, vec!["b"]);
    assert_eq!(parsed[1].name, "a");
    assert_eq!(parsed[1].registry(), Some("r".to_string()));
    assert_eq!(parsed[1].binaries, vec!["a1", "a2"]);
}

#[test]
fn manifest_with_marker_only_is_empty() {
    let parsed = get_installed_crate_information(Ok("[v1]\n".to_string())).unwrap();
    assert!(parsed.is_empty());
    let parsed = get_installed_crate_information(Ok("  [v1] ".to_string())).unwrap();
    assert!(parsed.is_empty());
}

#[test]
fn manifest_without_marker_is_unknown_api() {
    assert_eq!(
        get_installed_crate_information(Ok(String::new())).unwrap_err(),
        ErrorKind::UnknownAPI
    );
    assert_eq!(
        get_installed_crate_information(Ok("\"a 1 (registry+r)\" = [\"a\"]".to_string()))
            .unwrap_err(),
        ErrorKind::UnknownAPI
    );
}

#[test]
fn unread_manifest_stays_its_error() {
    assert_eq!(
        get_installed_crate_information(Err(ErrorKind::NoCargoHome)).unwrap_err(),
        ErrorKind::NoCargoHome
    );
    assert_eq!(
        get_installed_crate_information(Err(ErrorKind::NoCratesToml)).unwrap_err(),
        ErrorKind::NoCratesToml
    );
    assert_eq!(
        get_installed_crate_information(Err(ErrorKind::NoReadCratesToml)).unwrap_err(),
        ErrorKind::NoReadCratesToml
    );
    assert_eq!(
        get_installed_crate_information(Err(ErrorKind::NotOpenCratesToml)).unwrap_err(),
        ErrorKind::NotOpenCratesToml
    );
}

#[test]
fn malformed_line_is_found() {
    let good = "[v1]\n\"a 1 (registry+r)\" = [\"a\"]\n";
    assert_eq!(find_malformed_line(good), None);
    let bad = "[v1]\n\"a 1 (registry+r)\" = [\"a\"]\n\"b 1\n\"c 1 (svn+x)\" = []\n";
    assert_eq!(find_malformed_line(bad), Some((1, DecodeError::TokenCount)));
    let other_version = "[v2]\ngarbage\n";
    assert_eq!(find_malformed_line(other_version), None);
}

#[test]
fn too_many_tokens() {
    assert_eq!(
        try_decode_line("\"afl 0.3.2 (registry+r) more\" = [\"cargo-afl\"]").unwrap_err(),
        DecodeError::TokenCount
    );
    assert_eq!(
        try_decode_line("\"afl 0.3.2 (registry+r)\" x = [\"cargo-afl\"]").unwrap_err(),
        DecodeError::TokenCount
    );
}

#[test]
fn key_ends_at_the_assignment() {
    let ci = decode_line("\"afl 0.3.2 (registry+r)\"=[\"cargo-afl\"]");
    assert_eq!(ci.name, "afl");
    assert_eq!(ci.version, "0.3.2");
    assert_eq!(ci.registry(), Some("r".to_string()));
    assert_eq!(ci.binaries, vec!["cargo-afl"]);
}

#[test]
fn line_without_assignment_is_key_and_value() {
    let ci = decode_line("\"afl 0.3.2 (registry+r)\"");
    assert_eq!(ci.name, "afl");
    assert_eq!(ci.registry(), Some("r".to_string()));
    assert_eq!(ci.binaries, vec!["afl 0.3.2 (registry+r)"]);
}

#[test]
fn too_few_tokens() {
    assert_eq!(try_decode_line("").unwrap_err(), DecodeError::TokenCount);
    assert_eq!(
        try_decode_line("\"afl 0.3.2").unwrap_err(),
        DecodeError::TokenCount
    );
}

#[test]
fn source_without_locator() {
    assert_eq!(
        try_decode_line("\"afl 0.3.2 (registry)\" = [\"cargo-afl\"]").unwrap_err(),
        DecodeError::NoLocator
    );
}

#[test]
fn unknown_kind_of_source() {
    assert_eq!(
        try_decode_line("\"afl 0.3.2 (svn+https://example.org/afl)\" = [\"cargo-afl\"]")
            .unwrap_err(),
        DecodeError::UnknownKind
    );
}

#[test]
fn more_than_one_refspec() {
    let line = "\"x 0.1.0 (git+https://example.org/x?rev=abc?tag=v1#abc)\" = [\"x\"]";
    assert_eq!(
        try_decode_line(line).unwrap_err(),
        DecodeError::MultipleRefspecs
    );
    let line = "\"x 0.1.0 (git+https://example.org/x?branch=b?rev=abc#abc)\" = [\"x\"]";
    assert_eq!(
        try_decode_line(line).unwrap_err(),
        DecodeError::MultipleRefspecs
    );
}

#[test]
fn locator_is_cut_at_the_first_plus() {
    let ci = decode_line("\"x 1 (registry+https://example.org/a+b)\" = [\"x\"]");
    assert_eq!(ci.registry(), Some("https://example.org/a+b".to_string()));
}

#[test]
fn commit_is_cut_at_the_last_hash() {
    let ci = decode_line("\"x 1 (git+https://example.org/a#b#0123)\" = [\"x\"]");
    assert_eq!(ci.git(), Some("https://example.org/a#b".to_string()));
    match ci.provenance {
        Provenance::Git { refspec: None, .. } => {}
        _ => panic!("a git crate at its default state was expected"),
    }
}

#[test]
fn refspec_variants() {
    let ci = decode_line("\"x 1 (git+https://example.org/a?tag=v2#0123)\" = [\"x\"]");
    match ci.provenance {
        Provenance::Git {
            repo_url,
            refspec: Some(Refspec::Tag(tag)),
        } => {
            assert_eq!(repo_url, "https://example.org/a");
            assert_eq!(tag, "v2");
        }
        _ => panic!("a git crate at a tag was expected"),
    }
}

#[test]
fn only_a_prefix_is_taken_off_a_path() {
    let ci = decode_line("\"x 1 (path+file:///srv/file://x)\" = [\"x\"]");
    assert_eq!(ci.path(), Some("/srv/file://x".to_string()));
    let ci = decode_line("\"x 1 (path+/srv/x)\" = [\"x\"]");
    assert_eq!(ci.path(), Some("/srv/x".to_string()));
}

#[test]
fn binaries_follow_the_assignment_outside_quotes() {
    let ci = decode_line("\"x 1 (registry+r)\" = [\"a=b\", \"c\"]");
    assert_eq!(ci.binaries, vec!["a=b", "c"]);
}

#[test]
fn only_the_enclosing_brackets_and_quotes_are_taken_off() {
    let ci = decode_line("\"x 1 (registry+r)\" = [\"a[1]\", \" b \", c\"d]");
    assert_eq!(ci.binaries, vec!["a[1]", "b", "c\"d"]);
}

#[test]
fn key_without_quotes() {
    let ci = decode_line("afl 0.3.2 (registry+https://example.org/x) = [\"a\"]");
    assert_eq!(ci.name, "afl");
    assert_eq!(ci.version, "0.3.2");
    assert_eq!(ci.registry(), Some("https://example.org/x".to_string()));
    assert_eq!(ci.binaries, vec!["a"]);
}

#[test]
fn empty_list_of_binaries() {
    let ci = decode_line("\"x 1 (registry+r)\" = []");
    assert!(ci.binaries.is_empty());
    let ci = decode_line("\"x 1 (registry+r)\" = [\"a\", ]");
    assert_eq!(ci.binaries, vec!["a", ""]);
}

#[test]
fn whitespace_between_tokens_is_of_any_kind() {
    let ci = decode_line("\t\"x\u{a0}\u{2003}1.0 \t(registry+r)\"\u{3000}=\u{85}[ \"a\"\t]");
    assert_eq!(ci.name, "x");
    assert_eq!(ci.version, "1.0");
    assert_eq!(ci.registry(), Some("r".to_string()));
    assert_eq!(ci.binaries, vec!["a"]);
}
