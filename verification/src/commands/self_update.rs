//! `qeet self-update`: work out how qeet was installed and name the command that upgrades
//! it, rather than overwriting the binary behind a package manager's back.
use vstd::prelude::*;

use crate::text::{chars_of, contains, contains_exec, starts_with, starts_with_exec};

verus! {

broadcast use vstd::string::group_string_axioms;

/// How this binary got here.
#[derive(Debug, Clone, Copy, PartialEq, Eq, Structural)]
pub enum Installed {
    Homebrew,
    /// The shell or PowerShell installer, which leaves a receipt behind.
    Installer,
    /// `cargo install`.
    Cargo,
    Unknown,
}

/// The install method, from the binary's path and whether the installer's receipt exists.
///
/// A Homebrew layout -- a `Cellar` in the resolved path, the Apple-silicon prefix, or
/// Linuxbrew -- wins over a stray receipt: brew owns the binary, so brew must do the upgrade.
pub open spec fn installed_via(exe: Option<Seq<char>>, receipt_exists: bool) -> Installed {
    match exe {
        Some(p) if contains(p, "/Cellar/"@) || starts_with(p, "/opt/homebrew/"@) || contains(
            p,
            "/linuxbrew/"@,
        ) => Installed::Homebrew,
        Some(p) if contains(p, "/.cargo/bin/"@) => Installed::Cargo,
        _ => if receipt_exists {
            Installed::Installer
        } else {
            Installed::Unknown
        },
    }
}

/// Work out the install method from the binary's location and the installer's receipt.
pub fn detect(exe: Option<&str>, receipt_exists: bool) -> (i: Installed)
    ensures
        i == installed_via(
            match exe {
                Some(p) => Some(p@),
                None => None,
            },
            receipt_exists,
        ),
{
    if let Some(path) = exe {
        let p = chars_of(path);
        if contains_exec(&p, &chars_of("/Cellar/")) || starts_with_exec(
            &p,
            &chars_of("/opt/homebrew/"),
        ) || contains_exec(&p, &chars_of("/linuxbrew/")) {
            return Installed::Homebrew;
        }
        if contains_exec(&p, &chars_of("/.cargo/bin/")) {
            return Installed::Cargo;
        }
    }
    if receipt_exists {
        Installed::Installer
    } else {
        Installed::Unknown
    }
}

/// What the install method is called, and the command that upgrades it: none when the
/// method is not known.
pub open spec fn route_of(i: Installed) -> (Seq<char>, Option<Seq<char>>) {
    match i {
        Installed::Homebrew => ("Homebrew"@, Some("brew update && brew upgrade qeet"@)),
        Installed::Installer => (
            "install script"@,
            Some(
                "curl --proto '=https' --tlsv1.2 -fsSL \\\n    https://github.com/qeetgroup/qeet-cli/releases/latest/download/qeet-cli-installer.sh | sh"@,
            ),
        ),
        Installed::Cargo => (
            "cargo"@,
            Some("cargo install --git https://github.com/qeetgroup/qeet-cli --locked"@),
        ),
        Installed::Unknown => ("unrecognised"@, None),
    }
}

/// What the install method is called, and the command that upgrades it.
pub fn route(i: Installed) -> (r: (&'static str, Option<&'static str>))
    ensures
        r.0@ == route_of(i).0,
        match r.1 {
            Some(c) => route_of(i).1 == Some(c@),
            None => route_of(i).1 is None,
        },
{
    match i {
        Installed::Homebrew => ("Homebrew", Some("brew update && brew upgrade qeet")),
        Installed::Installer => (
            "install script",
            Some(
                "curl --proto '=https' --tlsv1.2 -fsSL \\\n    https://github.com/qeetgroup/qeet-cli/releases/latest/download/qeet-cli-installer.sh | sh",
            ),
        ),
        Installed::Cargo => (
            "cargo",
            Some("cargo install --git https://github.com/qeetgroup/qeet-cli --locked"),
        ),
        Installed::Unknown => ("unrecognised", None),
    }
}

} // verus!
