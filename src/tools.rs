//! Decisions around the build driver: which host tools to expose and under
//! which names, the search path, the targets, and the runner settings.
use vstd::prelude::*;

use crate::text::{
    clone_strings, contains, contains_str, holds_string, owned, strip, strip_chars, strip_class,
    str_eq,
};
use crate::triple::{runner_var, runner_var_name};

verus! {

/// The host tools to expose, as (tool shipped with the toolchain, name the
/// target's build rules call).
pub open spec fn llvm_tool_pairs() -> Seq<(Seq<char>, Seq<char>)> {
    seq![("rust-lld"@, "lld-link"@), ("llvm-ar"@, "llvm-lib"@), ("llvm-ar"@, "llvm-dlltool"@)]
}

/// The host tools to expose, as (tool shipped with the toolchain, name the
/// target's build rules call).
pub fn llvm_tool_links() -> (r: Vec<(String, String)>)
    ensures
        r.deep_view() == llvm_tool_pairs(),
{
    let r = vec![
        (owned("rust-lld"), owned("lld-link")),
        (owned("llvm-ar"), owned("llvm-lib")),
        (owned("llvm-ar"), owned("llvm-dlltool")),
    ];
    assert(r.deep_view() =~= llvm_tool_pairs());
    r
}

/// What to do to expose a tool under a name.
pub enum ToolAction {
    /// Nothing: the name resolves already, or there is no host tool to link;
    /// a missing tool shows when the build invokes it.
    Nothing,
    /// Replace whatever is at `file_name` in the cache directory with a link
    /// to the host tool.
    Link { file_name: String },
}

/// The file name an exposed tool gets: with `.exe` on Windows.
pub open spec fn exposed_file_name(name: Seq<char>, windows: bool) -> Seq<char> {
    if windows {
        name + ".exe"@
    } else {
        name
    }
}

/// Links the host tool under `exposed` only when `exposed` does not resolve
/// on the search path and the host tool was found.
pub fn plan_tool(exposed: &str, exposed_on_path: bool, host_tool_found: bool, windows: bool) -> (r:
    ToolAction)
    ensures
        (exposed_on_path || !host_tool_found) <==> r is Nothing,
        r matches ToolAction::Link { file_name } ==> file_name@ == exposed_file_name(
            exposed@,
            windows,
        ),
{
    if exposed_on_path || !host_tool_found {
        ToolAction::Nothing
    } else if windows {
        let mut f = owned(exposed);
        f.append(".exe");
        ToolAction::Link { file_name: f }
    } else {
        ToolAction::Link { file_name: owned(exposed) }
    }
}

/// The clang that stands in for `clang-cl`. Elsewhere than on macOS, the one
/// on the search path. On macOS the system's `/usr/bin/clang` is passed over
/// for Xcode's, which `xcrun` reports.
pub fn choose_clang(on_path: Option<String>, xcrun: Option<String>, macos: bool) -> (r: Option<
    String,
>)
    ensures
        !macos ==> r == on_path,
        macos ==> r == match on_path {
            Some(p) => if p@ == "/usr/bin/clang"@ {
                xcrun
            } else {
                Some(p)
            },
            None => xcrun,
        },
{
    if !macos {
        return on_path;
    }
    match on_path {
        Some(p) => if str_eq(p.as_str(), "/usr/bin/clang") {
            xcrun
        } else {
            Some(p)
        },
        None => xcrun,
    }
}

/// The search path for the build driver: an LLVM directory in front when one
/// is given and not listed yet, and the cache directory last, where the
/// exposed tools are.
pub open spec fn extended_path(
    paths: Seq<Seq<char>>,
    llvm_dir: Option<Seq<char>>,
    cache_dir: Seq<char>,
) -> Seq<Seq<char>> {
    match llvm_dir {
        Some(d) => if paths.contains(d) {
            paths.push(cache_dir)
        } else {
            seq![d] + paths.push(cache_dir)
        },
        None => paths.push(cache_dir),
    }
}

/// The search path for the build driver.
pub fn extend_search_path(paths: &Vec<String>, llvm_dir: Option<String>, cache_dir: &str) -> (r:
    Vec<String>)
    ensures
        r.deep_view() == extended_path(
            paths.deep_view(),
            match llvm_dir {
                Some(d) => Some(d@),
                None => None,
            },
            cache_dir@,
        ),
{
    let mut r: Vec<String> = Vec::new();
    let mut listed = false;
    match &llvm_dir {
        Some(d) => {
            listed = holds_string(paths, d);
            if !listed {
                r.push(d.clone());
            }
        },
        None => {},
    }
    let ghost front = r.deep_view();
    let rest = clone_strings(paths);
    let mut i: usize = 0;
    while i < rest.len()
        invariant
            i <= rest.len(),
            rest.deep_view() == paths.deep_view(),
            r.deep_view() =~= front + rest.deep_view().take(i as int),
        decreases rest.len() - i,
    {
        let ghost prev = r.deep_view();
        r.push(rest[i].clone());
        assert(r.deep_view() =~= prev.push(rest[i as int]@));
        assert(rest.deep_view().take(i + 1) =~= rest.deep_view().take(i as int).push(
            rest[i as int]@,
        ));
        i = i + 1;
    }
    assert(rest.deep_view().take(rest.len() as int) =~= rest.deep_view());
    let ghost before = r.deep_view();
    r.push(owned(cache_dir));
    assert(r.deep_view() =~= before.push(cache_dir@));
    r
}

/// The target the build configuration names, from what `cargo config get
/// build.target` printed: without surrounding white space and quotes.
pub fn parse_config_target(stdout: &str) -> (r: String)
    ensures
        r@ == strip(strip(stdout@, strip_class(false)), strip_class(true)),
{
    let trimmed = strip_chars(stdout, false);
    strip_chars(trimmed.as_str(), true)
}

/// The targets to prepare, and the `--target` argument to add: the given
/// targets, or else the one the build configuration names, which then has to
/// be passed on explicitly.
pub fn resolve_targets(given: &Vec<String>, configured: Option<String>) -> (r: (
    Vec<String>,
    Option<String>,
))
    ensures
        given.len() > 0 ==> r.0.deep_view() == given.deep_view() && r.1 is None,
        given.len() == 0 ==> match configured {
            Some(t) => r.0.deep_view() == seq![t@] && r.1 == Some(t),
            None => r.0.len() == 0 && r.1 is None,
        },
{
    if given.len() > 0 {
        return (clone_strings(given), None);
    }
    match configured {
        Some(t) => {
            let v = vec![t.clone()];
            assert(v.deep_view() =~= seq![t@]);
            (v, Some(t))
        },
        None => (Vec::new(), None),
    }
}

/// Whether the rustflags ask for a statically linked C runtime: the
/// `RUSTFLAGS` variable or a flag of the build configuration holds
/// `+crt-static`.
pub fn is_static_crt_enabled(rustflags_env: Option<String>, config_flags: &Vec<String>) -> (r:
    bool)
    ensures
        r == (match rustflags_env {
            Some(e) => contains(e@, "+crt-static"@),
            None => false,
        } || exists|i: int|
            0 <= i < config_flags.len() && contains(
                #[trigger] config_flags.deep_view()[i],
                "+crt-static"@,
            )),
{
    match &rustflags_env {
        Some(e) => {
            if contains_str(e.as_str(), "+crt-static") {
                return true;
            }
        },
        None => {},
    }
    let mut i: usize = 0;
    while i < config_flags.len()
        invariant
            i <= config_flags.len(),
            forall|j: int|
                0 <= j < i ==> !contains(#[trigger] config_flags.deep_view()[j], "+crt-static"@),
        decreases config_flags.len() - i,
    {
        if contains_str(config_flags[i].as_str(), "+crt-static") {
            assert(contains(config_flags.deep_view()[i as int], "+crt-static"@));
            return true;
        }
        i = i + 1;
    }
    false
}

/// The runner settings for running MSVC binaries under wine, for the targets
/// in order: `WINEDEBUG=-all` and cargo's runner variable set to `wine`,
/// each unless `preset` (the variables already set) names it.
pub open spec fn runner_entries(targets: Seq<Seq<char>>, preset: Seq<Seq<char>>) -> Seq<
    (Seq<char>, Seq<char>),
>
    decreases targets.len(),
{
    if targets.len() == 0 {
        seq![]
    } else {
        let t = targets.last();
        runner_entries(targets.drop_last(), preset) + if contains(t, "msvc"@) {
            (if preset.contains("WINEDEBUG"@) {
                seq![]
            } else {
                seq![("WINEDEBUG"@, "-all"@)]
            }) + (if preset.contains(runner_var(t)) {
                seq![]
            } else {
                seq![(runner_var(t), "wine"@)]
            })
        } else {
            seq![]
        }
    }
}

/// The runner settings for running MSVC binaries under wine.
pub fn wine_runner_overlay(targets: &Vec<String>, preset: &Vec<String>) -> (r: Vec<
    (String, String),
>)
    ensures
        r.deep_view() == runner_entries(targets.deep_view(), preset.deep_view()),
{
    let ghost ts = targets.deep_view();
    let mut r: Vec<(String, String)> = Vec::new();
    let wine_debug = owned("WINEDEBUG");
    let mut i: usize = 0;
    assert(ts.take(0) =~= seq![]);
    while i < targets.len()
        invariant
            ts == targets.deep_view(),
            i <= targets.len(),
            wine_debug@ == "WINEDEBUG"@,
            r.deep_view() == runner_entries(ts.take(i as int), preset.deep_view()),
        decreases targets.len() - i,
    {
        let ghost prev = r.deep_view();
        let t = targets[i].as_str();
        assert(ts.take(i + 1).drop_last() =~= ts.take(i as int));
        assert(ts.take(i + 1).last() == t@);
        if contains_str(t, "msvc") {
            let debug_set = holds_string(preset, &wine_debug);
            if !debug_set {
                r.push((owned("WINEDEBUG"), owned("-all")));
            }
            let ghost mid = r.deep_view();
            let var = runner_var_name(t);
            let runner_set = holds_string(preset, &var);
            if !runner_set {
                r.push((var, owned("wine")));
            }
            assert(r.deep_view() =~= prev + ((if debug_set {
                seq![]
            } else {
                seq![("WINEDEBUG"@, "-all"@)]
            }) + (if runner_set {
                seq![]
            } else {
                seq![(runner_var(t@), "wine"@)]
            })));
        } else {
            assert(r.deep_view() =~= prev + seq![]);
        }
        i = i + 1;
    }
    assert(ts.take(targets.len() as int) =~= ts);
    r
}

/// A shell line that exports a variable: `export KEY="VALUE";`.
pub fn export_line(key: &str, value: &str) -> (r: String)
    ensures
        r@ == "export "@ + key@ + "=\""@ + value@ + "\";"@,
{
    let mut r = owned("export ");
    r.append(key);
    r.append("=\"");
    r.append(value);
    r.append("\";");
    r
}

} // verus!
