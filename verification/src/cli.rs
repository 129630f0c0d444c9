//! Decisions of the interactive layer: what a confirmation answer
//! means, whether a self-update is permitted, which component provides
//! a proxied binary, and the small helpers of the self-installer.  The
//! prompting, printing and environment reads stay with the caller,
//! which hands the read values in.

use vstd::prelude::*;

verus! {

#[derive(Debug, PartialEq, Eq, Structural)]
pub enum Confirm {
    Yes,
    No,
    Advanced,
}

/// What an answer to the three-way installation prompt means: the first
/// choice (or just pressing enter) proceeds, the second customises, and
/// anything else cancels.
pub open spec fn confirm_choice_spec(input: Seq<char>) -> Confirm {
    if input == "1"@ || input == ""@ {
        Confirm::Yes
    } else if input == "2"@ {
        Confirm::Advanced
    } else {
        Confirm::No
    }
}

pub fn confirm_choice(input: &str) -> (r: Confirm)
    ensures
        r == confirm_choice_spec(input@),
{
    if crate::strutil::str_eq_str(input, "1") || crate::strutil::str_eq_str(input, "") {
        Confirm::Yes
    } else if crate::strutil::str_eq_str(input, "2") {
        Confirm::Advanced
    } else {
        Confirm::No
    }
}

#[derive(Debug, PartialEq, Eq, Structural)]
pub enum SelfUpdatePermission {
    HardFail,
    Skip,
    Permit,
}

/// Whether a self-update may run: always on hosts whose updater runs
/// elsewhere, never under a containerised install (where an explicit
/// request is a hard failure and an implicit one is skipped).
pub fn self_update_permitted_decision(updater_external: bool, containerized: bool, explicit: bool)
    -> (r: SelfUpdatePermission)
    ensures
        updater_external ==> r == SelfUpdatePermission::Permit,
        !updater_external && containerized && explicit ==> r == SelfUpdatePermission::HardFail,
        !updater_external && containerized && !explicit ==> r == SelfUpdatePermission::Skip,
        !updater_external && !containerized ==> r == SelfUpdatePermission::Permit,
{
    if updater_external {
        SelfUpdatePermission::Permit
    } else if containerized {
        if explicit {
            SelfUpdatePermission::HardFail
        } else {
            SelfUpdatePermission::Skip
        }
    } else {
        SelfUpdatePermission::Permit
    }
}

/// The component that provides each proxied binary, when one does.
pub open spec fn component_for_bin_spec(b: Seq<char>) -> Option<Seq<char>> {
    if b == "rustc"@ || b == "rustdoc"@ || b == "rust-lldb"@ || b == "rust-gdb"@
        || b == "rust-gdbgui"@ {
        Some("rustc"@)
    } else if b == "cargo"@ {
        Some("cargo"@)
    } else if b == "rls"@ {
        Some("rls"@)
    } else if b == "cargo-clippy"@ || b == "clippy-driver"@ {
        Some("clippy"@)
    } else if b == "cargo-miri"@ {
        Some("miri"@)
    } else if b == "rustfmt"@ || b == "cargo-fmt"@ {
        Some("rustfmt"@)
    } else {
        None
    }
}

/// The component that provides a proxied binary, when one does.
pub fn component_for_bin(binary: &str) -> (r: Option<&'static str>)
    ensures
        match r {
            Some(c) => component_for_bin_spec(binary@) == Some(c@),
            None => component_for_bin_spec(binary@) is None,
        },
{
    if crate::strutil::str_eq_str(binary, "rustc") || crate::strutil::str_eq_str(binary, "rustdoc")
        || crate::strutil::str_eq_str(binary, "rust-lldb")
        || crate::strutil::str_eq_str(binary, "rust-gdb")
        || crate::strutil::str_eq_str(binary, "rust-gdbgui") {
        Some("rustc")
    } else if crate::strutil::str_eq_str(binary, "cargo") {
        Some("cargo")
    } else if crate::strutil::str_eq_str(binary, "rls") {
        Some("rls")
    } else if crate::strutil::str_eq_str(binary, "cargo-clippy")
        || crate::strutil::str_eq_str(binary, "clippy-driver") {
        Some("clippy")
    } else if crate::strutil::str_eq_str(binary, "cargo-miri") {
        Some("miri")
    } else if crate::strutil::str_eq_str(binary, "rustfmt")
        || crate::strutil::str_eq_str(binary, "cargo-fmt") {
        Some("rustfmt")
    } else {
        None
    }
}

/// The hint printed when a proxied binary is missing: how to install
/// the component that provides it, naming the toolchain when it is not
/// the default one.
pub fn install_msg(bin: &str, toolchain: &str, is_default: bool) -> (r: String)
    ensures
        match component_for_bin_spec(bin@) {
            Some(c) => if is_default {
                r@ == "\nTo install, run `rustup component add "@ + c + "`"@
            } else {
                r@ == "\nTo install, run `rustup component add "@ + c + " --toolchain "@
                    + toolchain@ + "`"@
            },
            None => r@ == ""@,
        },
{
    match component_for_bin(bin) {
        Some(c) => {
            let mut s = "\nTo install, run `rustup component add ".to_owned();
            s.append(c);
            if !is_default {
                s.append(" --toolchain ");
                s.append(toolchain);
            }
            s.append("`");
            s
        },
        None => "".to_owned(),
    }
}

/// On hosts without a registry there is no recorded search path.
pub fn get_path() -> (r: Option<String>)
    ensures
        r is None,
{
    None
}

/// With no recorded search path there is nothing to restore.
pub fn restore_path(p: &Option<String>) {
    let _ = p;
}

/// Removes the first occurrence of a sourced line from a shell profile,
/// splicing the bytes around it back together; a profile without the
/// line comes back unchanged as `None`.
pub fn remove_source_line(file: &Vec<u8>, line: &Vec<u8>) -> (r: Option<Vec<u8>>)
    ensures
        match r {
            Some(out) => exists|i: int| 0 <= i && i + line@.len() <= file@.len()
                && #[trigger] file@.subrange(i, i + line@.len()) == line@
                && out@ == file@.subrange(0, i)
                    + file@.subrange(i + line@.len(), file@.len() as int),
            None => forall|i: int| 0 <= i && i + line@.len() <= file@.len()
                ==> #[trigger] file@.subrange(i, i + line@.len()) != line@,
        },
{
    let n = file.len();
    let m = line.len();
    if m > n {
        proof {
            assert forall|i: int| 0 <= i && i + line@.len() <= file@.len()
                implies #[trigger] file@.subrange(i, i + line@.len()) != line@ by {}
        }
        return None;
    }
    let mut p: usize = 0;
    loop
        invariant
            n == file@.len(),
            m == line@.len(),
            m <= n,
            p <= n - m + 1,
            forall|i: int| 0 <= i < p ==> #[trigger] file@.subrange(i, i + line@.len()) != line@,
        decreases n - m - p + 1,
    {
        if p > n - m {
            return None;
        }
        if bytes_match_at(file, p, line) {
            let mut out: Vec<u8> = Vec::new();
            let mut i: usize = 0;
            while i < p
                invariant
                    i <= p,
                    p + m <= n,
                    n == file@.len(),
                    out@ == file@.subrange(0, i as int),
                decreases p - i,
            {
                out.push(file[i]);
                proof {
                    assert(out@ =~= file@.subrange(0, i + 1));
                }
                i += 1;
            }
            let mut i: usize = p + m;
            while i < n
                invariant
                    p + m <= i <= n,
                    n == file@.len(),
                    out@ == file@.subrange(0, p as int)
                        + file@.subrange(p + m, i as int),
                decreases n - i,
            {
                out.push(file[i]);
                proof {
                    assert(out@ =~= file@.subrange(0, p as int)
                        + file@.subrange(p + m, i + 1));
                }
                i += 1;
            }
            proof {
                assert(file@.subrange(p as int, p + m) == line@);
            }
            return Some(out);
        }
        if p == n - m {
            return None;
        }
        p += 1;
    }
}

fn bytes_match_at(file: &Vec<u8>, p: usize, line: &Vec<u8>) -> (r: bool)
    requires
        p + line@.len() <= file@.len(),
    ensures
        r == (file@.subrange(p as int, p + line@.len()) == line@),
{
    let m = line.len();
    let n = file.len();
    let mut i: usize = 0;
    while i < m
        invariant
            i <= m,
            m == line@.len(),
            n == file@.len(),
            p + m <= n,
            forall|j: int| 0 <= j < i ==> file@[p + j] == line@[j],
        decreases m - i,
    {
        if file[p + i] != line[i] {
            proof {
                assert(file@.subrange(p as int, p + line@.len())[i as int] == file@[p + i]);
            }
            return false;
        }
        i += 1;
    }
    proof {
        assert(file@.subrange(p as int, p + line@.len()) =~= line@);
    }
    true
}

} // verus!
