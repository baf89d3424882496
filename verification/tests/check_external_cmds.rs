use cargo_rebuild_check::check_external_cmds::{
    all_binaries_available, get_rustc, rustc_sysroot,
};

#[test]
fn all_three_found() {
    assert_eq!(all_binaries_available(true, true, true), Ok(true));
}

#[test]
fn none_found() {
    assert_eq!(
        all_binaries_available(false, false, false),
        Err("ldd rustc cargo".to_string())
    );
}

#[test]
fn missing_binaries_are_named_in_order() {
    assert_eq!(
        all_binaries_available(false, true, true),
        Err("ldd".to_string())
    );
    assert_eq!(
        all_binaries_available(true, false, true),
        Err(" rustc".to_string())
    );
    assert_eq!(
        all_binaries_available(true, true, false),
        Err(" cargo".to_string())
    );
    assert_eq!(
        all_binaries_available(false, true, false),
        Err("ldd cargo".to_string())
    );
    assert_eq!(
        all_binaries_available(true, false, false),
        Err(" rustc cargo".to_string())
    );
}

#[test]
fn compiler_from_the_environment_or_the_default() {
    assert_eq!(get_rustc(None), "rustc");
    assert_eq!(get_rustc(Some("/opt/rust/bin/rustc".to_string())), "/opt/rust/bin/rustc");
}

#[test]
fn sysroot_is_the_output_without_its_line_feed() {
    assert_eq!(rustc_sysroot("/usr/local\n"), "/usr/local");
    assert_eq!(rustc_sysroot(""), "");
    assert_eq!(rustc_sysroot("\n"), "");
}
