//! Which of the external programs the audit relies on are missing.

use crate::text::{to_chars, to_string, without_last};
use vstd::prelude::*;
use vstd::slice::slice_subrange;
use vstd::string::StringExecFns;

verus! {

/// Name of the compiler program used when the environment names none.
pub open spec fn default_rustc() -> Seq<char> {
    "rustc"@
}

/// The compiler program to run: the one the environment names, else `rustc`.
pub fn get_rustc(rustc_env: Option<String>) -> (rustc: String)
    ensures
        rustc@ == match rustc_env {
            Some(name) => name@,
            None => default_rustc(),
        },
{
    match rustc_env {
        Some(name) => name,
        None => String::from_str("rustc"),
    }
}

/// The list of missing programs, as it is shown to the user: `ldd`, ` rustc` and ` cargo`,
/// each present in the text exactly when the program is absent, in this order.
pub open spec fn missing_binaries(has_ldd: bool, has_rustc: bool, has_cargo: bool) -> Seq<char> {
    (if has_ldd { Seq::<char>::empty() } else { "ldd"@ })
        + (if has_rustc { Seq::<char>::empty() } else { " rustc"@ })
        + (if has_cargo { Seq::<char>::empty() } else { " cargo"@ })
}

/// Reports whether the three programs the audit needs were found.
///
/// Each argument says whether the program could be started. The result is `Ok(true)`
/// exactly when all three were found, and otherwise the text naming the missing ones.
pub fn all_binaries_available(has_ldd: bool, has_rustc: bool, has_cargo: bool) -> (res: Result<
    bool,
    String,
>)
    ensures
        (has_ldd && has_rustc && has_cargo) <==> res is Ok,
        res matches Ok(found) ==> found,
        res matches Err(missing) ==> missing@ == missing_binaries(has_ldd, has_rustc, has_cargo),
{
    let mut missing_bins = String::new();
    if !has_ldd {
        missing_bins.append("ldd");
    }
    if !has_rustc {
        missing_bins.append(" rustc");
    }
    if !has_cargo {
        missing_bins.append(" cargo");
    }
    proof {
        reveal_strlit("ldd");
        reveal_strlit(" rustc");
        reveal_strlit(" cargo");
        assert(missing_bins@ =~= missing_binaries(has_ldd, has_rustc, has_cargo));
    }
    if missing_bins.as_str().is_empty() {
        Ok(true)
    } else {
        Err(missing_bins)
    }
}

/// The directory that the compiler printed as its sysroot: its output without the
/// line feed at the end.
pub fn rustc_sysroot(rustc_output: &str) -> (sysroot: String)
    ensures
        sysroot@ == without_last(rustc_output@),
{
    let chars = to_chars(rustc_output);
    let all = chars.as_slice();
    if all.len() == 0 {
        String::new()
    } else {
        to_string(slice_subrange(all, 0, all.len() - 1))
    }
}

} // verus!
