//! Decisions of the build tasks: the names of the built library, and the files of a new
//! NIF crate.
use vstd::prelude::*;

use crate::atom::string_is;
use crate::text::{contains_seq, str_contains};

verus! {

/// The operating system a build is for: read from the target triple where one is given,
/// else the host's.
pub open spec fn target_os(target: Option<Seq<char>>, host_os: Seq<char>) -> Seq<char> {
    match target {
        Some(t) => if contains_seq(t, "windows"@) {
            "windows"@
        } else if contains_seq(t, "darwin"@) || contains_seq(t, "apple"@) {
            "macos"@
        } else {
            "linux"@
        },
        None => host_os,
    }
}

/// The file cargo builds for `package` on `os`, and the name the VM loads it under.
pub open spec fn artifacts_for(os: Seq<char>, package: Seq<char>) -> (Seq<char>, Seq<char>) {
    if os == "windows"@ {
        (package + ".dll"@, package + ".dll"@)
    } else if os == "macos"@ {
        ("lib"@ + package + ".dylib"@, package + ".so"@)
    } else {
        ("lib"@ + package + ".so"@, package + ".so"@)
    }
}

/// The file cargo builds for `package` and the name it is installed under, for the given
/// target triple, or for the host (`host_os`, as `std::env::consts::OS` names it).
pub fn artifact_names(target: Option<&str>, package: &str, host_os: &str) -> (r: (String, String))
    ensures
        (r.0@, r.1@) == artifacts_for(
            target_os(
                match target {
                    Some(t) => Some(t@),
                    None => None,
                },
                host_os@,
            ),
            package@,
        ),
{
    let os = match target {
        Some(t) => if str_contains(t, "windows") {
            String::from_str("windows")
        } else if str_contains(t, "darwin") || str_contains(t, "apple") {
            String::from_str("macos")
        } else {
            String::from_str("linux")
        },
        None => String::from_str(host_os),
    };
    if string_is(&os, "windows") {
        let mut a = String::from_str(package);
        a.append(".dll");
        let mut b = String::from_str(package);
        b.append(".dll");
        (a, b)
    } else if string_is(&os, "macos") {
        let mut a = String::from_str("lib");
        a.append(package);
        a.append(".dylib");
        let mut b = String::from_str(package);
        b.append(".so");
        (a, b)
    } else {
        let mut a = String::from_str("lib");
        a.append(package);
        a.append(".so");
        let mut b = String::from_str(package);
        b.append(".so");
        (a, b)
    }
}

/// The manifest of a new NIF crate named `crate_name`.
pub open spec fn scaffold_manifest(crate_name: Seq<char>) -> Seq<char> {
    "[package]\nname = \""@ + crate_name
        + "\"\nversion = \"0.1.0\"\nedition = \"2024\"\nlicense = \"MIT OR Apache-2.0\"\n\n[lib]\ncrate-type = [\"cdylib\"]\ntest = false\n\n[dependencies]\ngleamler = { path = \"../../gleamler\" }\n"@
}

/// The manifest of a new NIF crate named `crate_name`.
pub fn scaffold_cargo_toml(crate_name: &str) -> (s: String)
    ensures
        s@ == scaffold_manifest(crate_name@),
{
    let mut s = String::from_str("[package]\nname = \"");
    s.append(crate_name);
    s.append(
        "\"\nversion = \"0.1.0\"\nedition = \"2024\"\nlicense = \"MIT OR Apache-2.0\"\n\n[lib]\ncrate-type = [\"cdylib\"]\ntest = false\n\n[dependencies]\ngleamler = { path = \"../../gleamler\" }\n",
    );
    s
}

/// The source of a new NIF crate: two example NIFs and the library's entry.
pub fn scaffold_lib_rs() -> (s: &'static str)
    ensures
        s@ == "use gleamler::{gleam_nif, init_nifs};\n\n/// Adds two integers\n#[gleam_nif]\nfn add(a: i64, b: i64) -> i64 {\n    a + b\n}\n\n/// Greets by name\n#[gleam_nif]\nfn greet(name: String) -> String {\n    format!(\"Hello from {}!\", name)\n}\n\ninit_nifs!();\n"@,
{
    "use gleamler::{gleam_nif, init_nifs};\n\n/// Adds two integers\n#[gleam_nif]\nfn add(a: i64, b: i64) -> i64 {\n    a + b\n}\n\n/// Greets by name\n#[gleam_nif]\nfn greet(name: String) -> String {\n    format!(\"Hello from {}!\", name)\n}\n\ninit_nifs!();\n"
}

// ---------------------------------------------------------------- watch mode

/// Whether a changed file is one that watch mode rebuilds for: a Rust or Gleam source
/// outside build outputs (`target`, `build`, `priv`) and version control (`.git`).
pub open spec fn is_watched_path(path: Seq<char>) -> bool {
    !contains_seq(path, "target"@) && !contains_seq(path, "build"@) && !contains_seq(path, "priv"@)
        && !contains_seq(path, ".git"@) && (crate::text::ends_with(path, ".rs"@)
        || crate::text::ends_with(path, ".gleam"@))
}

/// The kinds of file-system event that watch mode looks at.
pub enum ChangeKind {
    Create,
    Modify,
    Remove,
    /// Access and other events, which never trigger a rebuild.
    Other,
}

/// The least time between two rebuilds, in milliseconds.
pub open spec fn debounce_ms() -> int {
    300
}

/// Whether a file-system event triggers a rebuild: it creates, modifies or removes a
/// watched file, and at least the debounce time has passed since the last rebuild.
pub open spec fn triggers_rebuild(kind: ChangeKind, paths: Seq<String>, since_last_ms: u128) -> bool {
    !(kind is Other) && (exists|i: int| 0 <= i < paths.len() && is_watched_path(#[trigger] paths[i]@))
        && since_last_ms >= debounce_ms()
}

/// Whether a changed file is one that watch mode rebuilds for.
pub fn watched_path(path: &str) -> (r: bool)
    ensures
        r == is_watched_path(path@),
{
    !str_contains(path, "target") && !str_contains(path, "build") && !str_contains(path, "priv")
        && !str_contains(path, ".git") && (crate::text::str_ends_with(path, ".rs")
        || crate::text::str_ends_with(path, ".gleam"))
}

/// Whether watch mode rebuilds on this event, `since_last_ms` after its last rebuild.
pub fn should_rebuild(kind: ChangeKind, paths: &Vec<String>, since_last_ms: u128) -> (r: bool)
    ensures
        r == triggers_rebuild(kind, paths@, since_last_ms),
{
    if let ChangeKind::Other = kind {
        return false;
    }
    let mut any = false;
    let mut i: usize = 0;
    while i < paths.len()
        invariant
            i <= paths.len(),
            any == (exists|k: int| 0 <= k < i && is_watched_path(#[trigger] paths@[k]@)),
        decreases paths.len() - i,
    {
        if watched_path(paths[i].as_str()) {
            any = true;
        }
        i = i + 1;
    }
    any && since_last_ms >= 300
}

// ---------------------------------------------------------------- which tests run

/// The test suites a test run runs.
pub struct TestSelection {
    pub rust: bool,
    pub gleam: bool,
    pub leak: bool,
    pub valgrind: bool,
}

/// The suites to run for the given flags: all but Valgrind when `all` is given or no
/// suite is named; Valgrind only when named.
pub fn tests_to_run(rust: bool, gleam: bool, leak: bool, valgrind: bool, all: bool) -> (t: TestSelection)
    ensures
        t.rust == (all || (!rust && !gleam && !leak && !valgrind) || rust),
        t.gleam == (all || (!rust && !gleam && !leak && !valgrind) || gleam),
        t.leak == (all || (!rust && !gleam && !leak && !valgrind) || leak),
        t.valgrind == valgrind,
{
    let run_all = all || (!rust && !gleam && !leak && !valgrind);
    TestSelection { rust: run_all || rust, gleam: run_all || gleam, leak: run_all || leak, valgrind }
}

} // verus!
