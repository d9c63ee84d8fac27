//! Paths under the cache directory, in the `/`-separated form that both the
//! environment and the toolchain descriptor embed.
use vstd::prelude::*;

use crate::options::CrossCompiler;
use crate::text::owned;
use crate::triple::{sdk_arch, unknown_vendor_form, TargetTriple, TripleView};

verus! {

/// The prefix Windows gives verbatim paths (`\\?\`).
pub open spec fn has_verbatim_prefix(p: Seq<char>) -> bool {
    p.len() >= 4 && p[0] == '\\' && p[1] == '\\' && p[2] == '?' && p[3] == '\\'
}

/// A canonicalized path as compilers accept it. On Windows (`windows`),
/// canonicalization prefixes paths with `\\?\`, which is removed; elsewhere
/// paths are returned as they are.
pub fn adjust_canonicalization(p: String, windows: bool) -> (r: String)
    ensures
        r@ == if windows && has_verbatim_prefix(p@) {
            p@.skip(4)
        } else {
            p@
        },
{
    if !windows {
        return p;
    }
    let n = p.as_str().unicode_len();
    if n >= 4 && p.as_str().get_char(0) == '\\' && p.as_str().get_char(1) == '\\'
        && p.as_str().get_char(2) == '?' && p.as_str().get_char(3) == '\\' {
        let rest = owned(p.as_str().substring_char(4, n));
        assert(rest@ =~= p@.skip(4));
        rest
    } else {
        p
    }
}

/// The name of a backend's directories in the cache, which is also the name of
/// its compiler driver.
pub open spec fn backend_name(b: CrossCompiler) -> Seq<char> {
    match b {
        CrossCompiler::ClangCl => "clang-cl"@,
        CrossCompiler::Clang => "clang"@,
    }
}

/// The name of a backend's directories in the cache.
pub fn backend_dir_name(b: CrossCompiler) -> (r: &'static str)
    ensures
        r@ == backend_name(b),
{
    match b {
        CrossCompiler::ClangCl => "clang-cl",
        CrossCompiler::Clang => "clang",
    }
}

/// The header directories under the SDK tree `d`, in search order.
pub open spec fn include_dirs(b: CrossCompiler, d: Seq<char>) -> Seq<Seq<char>> {
    match b {
        CrossCompiler::ClangCl => seq![
            d + "/crt/include"@,
            d + "/sdk/include/ucrt"@,
            d + "/sdk/include/um"@,
            d + "/sdk/include/shared"@,
        ],
        CrossCompiler::Clang => seq![
            d + "/include"@,
            d + "/include/c++/stl"@,
            d + "/include/__msvc_vcruntime_intrinsics"@,
        ],
    }
}

/// The library directories under the SDK tree `d` for a triple, in the order
/// the linker searches them: CRT, then `um`, then `ucrt`.
pub open spec fn lib_dirs(b: CrossCompiler, t: TripleView, d: Seq<char>) -> Seq<Seq<char>> {
    match b {
        CrossCompiler::ClangCl => seq![
            d + "/crt/lib/"@ + sdk_arch(t.arch),
            d + "/sdk/lib/um/"@ + sdk_arch(t.arch),
            d + "/sdk/lib/ucrt/"@ + sdk_arch(t.arch),
        ],
        CrossCompiler::Clang => seq![d + "/lib/"@ + unknown_vendor_form(t.triple)],
    }
}

fn cat(a: &str, b: &str) -> (r: String)
    ensures
        r@ == a@ + b@,
{
    let mut r = owned(a);
    r.append(b);
    r
}

/// The header directories under the SDK tree `d`.
pub fn include_dirs_vec(b: CrossCompiler, d: &str) -> (r: Vec<String>)
    ensures
        r.deep_view() == include_dirs(b, d@),
{
    let r = match b {
        CrossCompiler::ClangCl => vec![
            cat(d, "/crt/include"),
            cat(d, "/sdk/include/ucrt"),
            cat(d, "/sdk/include/um"),
            cat(d, "/sdk/include/shared"),
        ],
        CrossCompiler::Clang => vec![
            cat(d, "/include"),
            cat(d, "/include/c++/stl"),
            cat(d, "/include/__msvc_vcruntime_intrinsics"),
        ],
    };
    assert(r.deep_view() =~= include_dirs(b, d@));
    r
}

/// The library directories under the SDK tree `d` for a triple.
pub fn lib_dirs_vec(b: CrossCompiler, tt: &TargetTriple, d: &str) -> (r: Vec<String>)
    ensures
        r.deep_view() == lib_dirs(b, tt@, d@),
{
    let r = match b {
        CrossCompiler::ClangCl => {
            let a = tt.sdk_arch();
            let mut crt = cat(d, "/crt/lib/");
            crt.append(a.as_str());
            let mut um = cat(d, "/sdk/lib/um/");
            um.append(a.as_str());
            let mut ucrt = cat(d, "/sdk/lib/ucrt/");
            ucrt.append(a.as_str());
            vec![crt, um, ucrt]
        },
        CrossCompiler::Clang => {
            let mut lib = cat(d, "/lib/");
            lib.append(tt.unknown_vendor().as_str());
            vec![lib]
        },
    };
    assert(r.deep_view() =~= lib_dirs(b, tt@, d@));
    r
}

/// Where the toolchain descriptor for a triple is written:
/// `<cache>/cmake/<backend>/<triple>-toolchain.cmake`.
pub open spec fn descriptor_path(b: CrossCompiler, cache: Seq<char>, t: Seq<char>) -> Seq<char> {
    cache + "/cmake/"@ + backend_name(b) + "/"@ + t + "-toolchain.cmake"@
}

/// Where the toolchain descriptor for the triple `t` is written.
pub fn descriptor_path_of(b: CrossCompiler, cache: &str, t: &str) -> (r: String)
    ensures
        r@ == descriptor_path(b, cache@, t@),
{
    let mut r = cat(cache, "/cmake/");
    r.append(backend_dir_name(b));
    r.append("/");
    r.append(t);
    r.append("-toolchain.cmake");
    r
}

/// The directory the descriptors of a backend are written to.
pub open spec fn descriptor_dir(b: CrossCompiler, cache: Seq<char>) -> Seq<char> {
    cache + "/cmake/"@ + backend_name(b)
}

/// The directory the descriptors of a backend are written to.
pub fn descriptor_dir_of(b: CrossCompiler, cache: &str) -> (r: String)
    ensures
        r@ == descriptor_dir(b, cache@),
{
    let mut r = cat(cache, "/cmake/");
    r.append(backend_dir_name(b));
    r
}

} // verus!
