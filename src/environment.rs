//! The environment overlay for the build driver: compiler, linker and archiver
//! selection, search flags, and the CMake hooks, for one target triple.
use vstd::prelude::*;

use crate::layout::{
    backend_dir_name, backend_name, descriptor_path, descriptor_path_of, include_dirs,
    include_dirs_vec, lib_dirs, lib_dirs_vec,
};
use crate::options::CrossCompiler;
use crate::text::{contains, join, join_strs, owned, replace_all};
use crate::triple::{arch_of, is_msvc_target, no_vendor_form, triple_view, TargetTriple, TripleView};

verus! {

/// Why no environment can be synthesized for a target.
#[derive(Clone, Debug, PartialEq, Eq)]
pub enum SetupError {
    /// The triple has no architecture component.
    InvalidTargetTriple { triple: String },
    /// A rustflag holds the unit separator that cargo's encoded form splits on.
    UnencodableRustflags,
}

impl SetupError {
    /// A message for the user.
    pub fn message(&self) -> (r: String)
        ensures
            r@ == match self {
                SetupError::InvalidTargetTriple { triple } => "invalid target triple: "@ + triple@,
                SetupError::UnencodableRustflags => "flag in rustflags must not contain its separator ('\\u{1f}')"@,
            },
    {
        match self {
            SetupError::InvalidTargetTriple { triple } => {
                let mut m = owned("invalid target triple: ");
                m.append(triple.as_str());
                m
            },
            SetupError::UnencodableRustflags => owned(
                "flag in rustflags must not contain its separator ('\\u{1f}')",
            ),
        }
    }
}

/// What the environment for a triple is synthesized from, besides the triple
/// and the backend. Paths are in `/`-separated form.
pub struct SynthesisInput {
    /// The root of the cache directory.
    pub cache_dir: String,
    /// The CRT/SDK tree (`clang-cl`) or the MSVC sysroot (`clang`).
    pub sdk_dir: String,
    /// The `PATH` the build driver runs with.
    pub search_path: String,
    /// What the user had set in `CL_FLAGS`, or empty.
    pub user_cl_flags: String,
    /// What the user had set in `CFLAGS`, or empty.
    pub user_c_flags: String,
    /// What the user had set in `CXXFLAGS`, or empty.
    pub user_cxx_flags: String,
    /// The rustflags the build configuration sets for the triple.
    pub config_rustflags: Vec<String>,
}

/// Each of `xs` with `p` in front.
pub open spec fn prefixed(xs: Seq<Seq<char>>, p: Seq<char>) -> Seq<Seq<char>> {
    xs.map_values(|x: Seq<char>| p + x)
}

/// Each of `xs` with `p` in front.
pub fn prefix_each(xs: &Vec<String>, p: &str) -> (r: Vec<String>)
    ensures
        r.deep_view() == prefixed(xs.deep_view(), p@),
{
    let mut r: Vec<String> = Vec::new();
    let mut i: usize = 0;
    while i < xs.len()
        invariant
            i <= xs.len(),
            r.deep_view() =~= prefixed(xs.deep_view(), p@).take(i as int),
        decreases xs.len() - i,
    {
        let ghost prev = r.deep_view();
        let mut s = owned(p);
        s.append(xs[i].as_str());
        r.push(s);
        assert(r.deep_view() =~= prev.push(p@ + xs[i as int]@));
        assert(prefixed(xs.deep_view(), p@).take(i + 1) =~= prefixed(xs.deep_view(), p@).take(
            i as int,
        ).push(p@ + xs[i as int]@));
        i = i + 1;
    }
    assert(prefixed(xs.deep_view(), p@).take(xs.len() as int) =~= prefixed(xs.deep_view(), p@));
    r
}

fn extend_strings(out: &mut Vec<String>, xs: &Vec<String>)
    ensures
        final(out).deep_view() == old(out).deep_view() + xs.deep_view(),
{
    let ghost start = out.deep_view();
    let mut i: usize = 0;
    while i < xs.len()
        invariant
            i <= xs.len(),
            out.deep_view() =~= start + xs.deep_view().take(i as int),
        decreases xs.len() - i,
    {
        let ghost prev = out.deep_view();
        out.push(xs[i].clone());
        assert(out.deep_view() =~= prev.push(xs[i as int]@));
        assert(xs.deep_view().take(i + 1) =~= xs.deep_view().take(i as int).push(xs[i as int]@));
        i = i + 1;
    }
    assert(xs.deep_view().take(xs.len() as int) =~= xs.deep_view());
}

/// The unit separator that joins cargo's encoded rustflags.
pub open spec fn unit_separator() -> char {
    '\u{1f}'
}

/// The flags joined as `Flags::encode` joins them: a separator before each
/// flag but those that come while nothing has been written yet.
pub open spec fn encoded_from(buf: Seq<char>, flags: Seq<Seq<char>>) -> Seq<char>
    decreases flags.len(),
{
    if flags.len() == 0 {
        buf
    } else {
        encoded_from(
            if buf.len() == 0 {
                flags[0]
            } else {
                buf.push(unit_separator()) + flags[0]
            },
            flags.drop_first(),
        )
    }
}

/// The value of `CARGO_ENCODED_RUSTFLAGS` for `flags`.
pub open spec fn encoded(flags: Seq<Seq<char>>) -> Seq<char> {
    encoded_from(seq![], flags)
}

/// No flag holds the separator.
pub open spec fn encodable(flags: Seq<Seq<char>>) -> bool {
    forall|i: int| 0 <= i < flags.len() ==> !(#[trigger] flags[i]).contains(unit_separator())
}

/// Relies on `cargo_config2::Flags::encode`: the flags joined by the unit
/// separator, or an error when a flag holds the separator.
#[verifier::external_body]
fn encode_rustflags(flags: &Vec<String>) -> (r: Option<String>)
    ensures
        r is Some <==> encodable(flags.deep_view()),
        r matches Some(s) ==> s@ == encoded(flags.deep_view()),
{
    cargo_config2::Flags::from(flags.clone()).encode().ok()
}

/// The flag that names a header directory for the backend's compiler driver.
pub open spec fn include_flag(b: CrossCompiler) -> Seq<char> {
    match b {
        CrossCompiler::ClangCl => "/imsvc"@,
        CrossCompiler::Clang => "-I"@,
    }
}

/// The compiler flags that select the target and the search directories.
pub open spec fn compile_flags(b: CrossCompiler, t: TripleView, d: Seq<char>) -> Seq<char> {
    match b {
        CrossCompiler::ClangCl => "--target="@ + t.triple
            + " -Wno-unused-command-line-argument -fuse-ld=lld-link "@ + join(
            prefixed(include_dirs(b, d), include_flag(b)),
            " "@,
        ),
        CrossCompiler::Clang => "--target="@ + no_vendor_form(t.triple) + " -fuse-ld=lld-link "@
            + join(prefixed(include_dirs(b, d), include_flag(b)), " "@) + " "@ + join(
            prefixed(lib_dirs(b, t, d), "-L"@),
            " "@,
        ),
    }
}

/// The flags that C and C++ compilation share: for `clang-cl` the value of
/// `CL_FLAGS`, which carries what the user had set there.
pub open spec fn base_flags(b: CrossCompiler, t: TripleView, inp: SynthesisInput) -> Seq<char> {
    match b {
        CrossCompiler::ClangCl => compile_flags(b, t, inp.sdk_dir@) + " "@ + inp.user_cl_flags@,
        CrossCompiler::Clang => compile_flags(b, t, inp.sdk_dir@),
    }
}

/// What stands between the shared flags and the user's `CXXFLAGS`.
pub open spec fn cxx_separator(b: CrossCompiler) -> Seq<char> {
    match b {
        CrossCompiler::ClangCl => " /EHsc "@,
        CrossCompiler::Clang => " "@,
    }
}

/// The header search flags for tools that do not share the compiler's
/// defaults (the binding generator, the resource compiler).
pub open spec fn header_flags(b: CrossCompiler, d: Seq<char>) -> Seq<char> {
    join(prefixed(include_dirs(b, d), "-I"@), " "@)
}

/// The flags that select the linker.
pub open spec fn linker_flags(b: CrossCompiler) -> Seq<Seq<char>> {
    match b {
        CrossCompiler::ClangCl => seq!["-C"@, "linker-flavor=lld-link"@],
        CrossCompiler::Clang => seq![
            "-C"@,
            "linker-flavor=lld-link"@,
            "-C"@,
            "link-arg=-defaultlib:oldnames"@,
        ],
    }
}

/// The rustflags: the configuration's first, then the linker selection, then
/// the library search directories in order.
pub open spec fn rustflags(b: CrossCompiler, t: TripleView, inp: SynthesisInput) -> Seq<
    Seq<char>,
> {
    inp.config_rustflags.deep_view() + linker_flags(b) + prefixed(
        lib_dirs(b, t, inp.sdk_dir@),
        "-Lnative="@,
    )
}

/// The compiler, archiver and linker selection for a triple.
pub open spec fn compiler_entries(cc: Seq<char>, t: TripleView) -> Seq<(Seq<char>, Seq<char>)> {
    seq![
        ("TARGET_CC"@, cc),
        ("TARGET_CXX"@, cc),
        ("CC_"@ + t.env_name, cc),
        ("CXX_"@ + t.env_name, cc),
        ("TARGET_AR"@, "llvm-lib"@),
        ("AR_"@ + t.env_name, "llvm-lib"@),
        ("CARGO_TARGET_"@ + t.env_name_upper + "_LINKER"@, "lld-link"@),
    ]
}

/// The CMake settings for a triple: the Ninja generator, the Windows system,
/// and the triple's toolchain descriptor.
pub open spec fn cmake_entries(t: TripleView, toolchain: Seq<char>) -> Seq<(Seq<char>, Seq<char>)> {
    seq![
        ("CMAKE_GENERATOR"@, "Ninja"@),
        ("CMAKE_SYSTEM_NAME"@, "Windows"@),
        ("CMAKE_TOOLCHAIN_FILE_"@ + t.env_name, toolchain),
    ]
}

/// Appends the compiler, archiver and linker selection for a triple.
pub fn setup_target_compiler_and_linker_env(
    overlay: &mut Vec<(String, String)>,
    tt: &TargetTriple,
    compiler: &str,
)
    ensures
        final(overlay).deep_view() == old(overlay).deep_view() + compiler_entries(compiler@, tt@),
{
    let ghost start = overlay.deep_view();
    let e = tt.env_name.as_str();
    overlay.push(var("TARGET_CC", compiler));
    overlay.push(var("TARGET_CXX", compiler));
    overlay.push((cat("CC_", e), owned(compiler)));
    overlay.push((cat("CXX_", e), owned(compiler)));
    overlay.push(var("TARGET_AR", "llvm-lib"));
    overlay.push((cat("AR_", e), owned("llvm-lib")));
    let mut linker_var = cat("CARGO_TARGET_", tt.env_name_upper.as_str());
    linker_var.append("_LINKER");
    overlay.push((linker_var, owned("lld-link")));
    assert(overlay.deep_view() =~= start + compiler_entries(compiler@, tt@));
}

/// Appends the CMake settings for a triple whose descriptor is `toolchain`.
pub fn setup_cmake_env(overlay: &mut Vec<(String, String)>, tt: &TargetTriple, toolchain: String)
    ensures
        final(overlay).deep_view() == old(overlay).deep_view() + cmake_entries(tt@, toolchain@),
{
    let ghost start = overlay.deep_view();
    overlay.push(var("CMAKE_GENERATOR", "Ninja"));
    overlay.push(var("CMAKE_SYSTEM_NAME", "Windows"));
    overlay.push((cat("CMAKE_TOOLCHAIN_FILE_", tt.env_name.as_str()), toolchain));
    assert(overlay.deep_view() =~= start + cmake_entries(tt@, toolchain@));
}

/// The environment overlay for a triple, in the order it is applied.
pub open spec fn overlay_entries(b: CrossCompiler, t: TripleView, inp: SynthesisInput) -> Seq<
    (Seq<char>, Seq<char>),
> {
    let d = inp.sdk_dir@;
    let base = base_flags(b, t, inp);
    compiler_entries(backend_name(b), t) + (if b == CrossCompiler::ClangCl {
        seq![("CL_FLAGS"@, base)]
    } else {
        seq![]
    }) + seq![
        ("CFLAGS_"@ + t.env_name, base + " "@ + inp.user_c_flags@),
        ("CXXFLAGS_"@ + t.env_name, base + cxx_separator(b) + inp.user_cxx_flags@),
        ("BINDGEN_EXTRA_CLANG_ARGS_"@ + t.env_name, header_flags(b, d)),
        ("RCFLAGS"@, header_flags(b, d)),
        ("CARGO_ENCODED_RUSTFLAGS"@, encoded(rustflags(b, t, inp))),
        ("PATH"@, inp.search_path@),
    ] + cmake_entries(t, descriptor_path(b, inp.cache_dir@, t.triple))
}

fn var(k: &str, v: &str) -> (r: (String, String))
    ensures
        r.deep_view() == (k@, v@),
{
    (owned(k), owned(v))
}

fn cat(a: &str, b: &str) -> (r: String)
    ensures
        r@ == a@ + b@,
{
    let mut r = owned(a);
    r.append(b);
    r
}

/// The compiler flags that select the target and the search directories.
fn compile_flags_of(b: CrossCompiler, tt: &TargetTriple, d: &str) -> (r: String)
    ensures
        r@ == compile_flags(b, tt@, d@),
{
    let incs = include_dirs_vec(b, d);
    match b {
        CrossCompiler::ClangCl => {
            let mut s = cat("--target=", tt.triple.as_str());
            s.append(" -Wno-unused-command-line-argument -fuse-ld=lld-link ");
            s.append(join_strs(&prefix_each(&incs, "/imsvc"), " ").as_str());
            s
        },
        CrossCompiler::Clang => {
            let libs = lib_dirs_vec(b, tt, d);
            let mut s = cat("--target=", tt.no_vendor().as_str());
            s.append(" -fuse-ld=lld-link ");
            s.append(join_strs(&prefix_each(&incs, "-I"), " ").as_str());
            s.append(" ");
            s.append(join_strs(&prefix_each(&libs, "-L"), " ").as_str());
            s
        },
    }
}

/// The rustflags for a triple.
fn rustflags_of(b: CrossCompiler, tt: &TargetTriple, inp: &SynthesisInput) -> (r: Vec<String>)
    ensures
        r.deep_view() == rustflags(b, tt@, *inp),
{
    let mut flags: Vec<String> = Vec::new();
    extend_strings(&mut flags, &inp.config_rustflags);
    let linker = match b {
        CrossCompiler::ClangCl => vec![owned("-C"), owned("linker-flavor=lld-link")],
        CrossCompiler::Clang => vec![
            owned("-C"),
            owned("linker-flavor=lld-link"),
            owned("-C"),
            owned("link-arg=-defaultlib:oldnames"),
        ],
    };
    assert(linker.deep_view() =~= linker_flags(b));
    extend_strings(&mut flags, &linker);
    let libs = lib_dirs_vec(b, tt, inp.sdk_dir.as_str());
    extend_strings(&mut flags, &prefix_each(&libs, "-Lnative="));
    flags
}

/// The environment overlay for a parsed triple; fails only when a rustflag
/// holds cargo's separator.
pub fn backend_overlay(b: CrossCompiler, tt: &TargetTriple, inp: &SynthesisInput) -> (r: Result<
    Vec<(String, String)>,
    SetupError,
>)
    ensures
        r is Ok <==> encodable(rustflags(b, tt@, *inp)),
        r matches Ok(o) ==> o.deep_view() == overlay_entries(b, tt@, *inp),
        r matches Err(e) ==> e == SetupError::UnencodableRustflags,
{
    let flags = rustflags_of(b, tt, inp);
    let encoded = match encode_rustflags(&flags) {
        None => {
            return Err(SetupError::UnencodableRustflags);
        },
        Some(s) => s,
    };
    let d = inp.sdk_dir.as_str();
    let e = tt.env_name.as_str();
    let cc = backend_dir_name(b);
    let compile = compile_flags_of(b, tt, d);
    let base = match b {
        CrossCompiler::ClangCl => {
            let mut s = cat(compile.as_str(), " ");
            s.append(inp.user_cl_flags.as_str());
            s
        },
        CrossCompiler::Clang => compile,
    };
    let incs = include_dirs_vec(b, d);
    let header = join_strs(&prefix_each(&incs, "-I"), " ");

    let mut o: Vec<(String, String)> = Vec::new();
    setup_target_compiler_and_linker_env(&mut o, tt, cc);
    if b == CrossCompiler::ClangCl {
        o.push((owned("CL_FLAGS"), base.clone()));
    }
    let mut cflags = cat(base.as_str(), " ");
    cflags.append(inp.user_c_flags.as_str());
    o.push((cat("CFLAGS_", e), cflags));
    let mut cxxflags = owned(base.as_str());
    match b {
        CrossCompiler::ClangCl => cxxflags.append(" /EHsc "),
        CrossCompiler::Clang => cxxflags.append(" "),
    }
    cxxflags.append(inp.user_cxx_flags.as_str());
    o.push((cat("CXXFLAGS_", e), cxxflags));
    o.push((cat("BINDGEN_EXTRA_CLANG_ARGS_", e), header.clone()));
    o.push((owned("RCFLAGS"), header));
    o.push((owned("CARGO_ENCODED_RUSTFLAGS"), encoded));
    o.push((owned("PATH"), inp.search_path.clone()));
    setup_cmake_env(&mut o, tt, descriptor_path_of(b, inp.cache_dir.as_str(), tt.triple.as_str()));
    assert(o.deep_view() =~= overlay_entries(b, tt@, *inp));
    Ok(o)
}

/// The environment overlay for the triple `target` with backend `b`: fails
/// when the triple has no architecture component, naming it, or when a
/// rustflag holds cargo's separator.
pub fn synthesize(b: CrossCompiler, target: &str, inp: &SynthesisInput) -> (r: Result<
    Vec<(String, String)>,
    SetupError,
>)
    ensures
        arch_of(target@) is None ==> (r matches Err(SetupError::InvalidTargetTriple { triple })
            && triple@ == target@),
        arch_of(target@) is Some ==> (r is Ok <==> encodable(
            rustflags(b, triple_view(target@), *inp),
        )),
        r matches Ok(o) ==> o.deep_view() == overlay_entries(b, triple_view(target@), *inp),
        r matches Err(e) ==> (e is InvalidTargetTriple) == (arch_of(target@) is None),
{
    match TargetTriple::parse(target) {
        None => Err(SetupError::InvalidTargetTriple { triple: owned(target) }),
        Some(tt) => backend_overlay(b, &tt, inp),
    }
}

/// Checks the MSVC triples among `targets` before any work is done: the
/// first one without an architecture component is reported.
pub fn check_targets(targets: &Vec<String>) -> (r: Result<(), SetupError>)
    ensures
        r is Ok <==> forall|i: int|
            0 <= i < targets.len() && contains(#[trigger] targets@[i]@, "msvc"@) ==> arch_of(
                targets@[i]@,
            ) is Some,
        r matches Err(e) ==> (e matches SetupError::InvalidTargetTriple { triple } && exists|i: int|
            0 <= i < targets.len() && #[trigger] targets@[i]@ == triple@ && contains(
                triple@,
                "msvc"@,
            ) && arch_of(triple@) is None && forall|j: int|
                0 <= j < i ==> (contains(#[trigger] targets@[j]@, "msvc"@) ==> arch_of(
                    targets@[j]@,
                ) is Some)),
{
    let mut i: usize = 0;
    while i < targets.len()
        invariant
            i <= targets.len(),
            forall|j: int|
                0 <= j < i ==> (contains(#[trigger] targets@[j]@, "msvc"@) ==> arch_of(
                    targets@[j]@,
                ) is Some),
        decreases targets.len() - i,
    {
        let t = targets[i].as_str();
        if is_msvc_target(t) && TargetTriple::parse(t).is_none() {
            return Err(SetupError::InvalidTargetTriple { triple: owned(t) });
        }
        i = i + 1;
    }
    Ok(())
}

impl SynthesisInput {
    /// Both inputs hold the same values.
    pub open spec fn same_as(&self, other: &SynthesisInput) -> bool {
        &&& self.cache_dir@ == other.cache_dir@
        &&& self.sdk_dir@ == other.sdk_dir@
        &&& self.search_path@ == other.search_path@
        &&& self.user_cl_flags@ == other.user_cl_flags@
        &&& self.user_c_flags@ == other.user_c_flags@
        &&& self.user_cxx_flags@ == other.user_cxx_flags@
        &&& self.config_rustflags.deep_view() == other.config_rustflags.deep_view()
    }
}

/// Synthesis is deterministic: for one backend and triple, inputs that hold
/// the same values give the same overlay, entry for entry and byte for byte.
pub proof fn lemma_synthesis_deterministic(
    b: CrossCompiler,
    target: Seq<char>,
    inp1: SynthesisInput,
    inp2: SynthesisInput,
)
    requires
        inp1.same_as(&inp2),
    ensures
        overlay_entries(b, triple_view(target), inp1) == overlay_entries(
            b,
            triple_view(target),
            inp2,
        ),
        encodable(rustflags(b, triple_view(target), inp1)) == encodable(
            rustflags(b, triple_view(target), inp2),
        ),
{
    let t = triple_view(target);
    assert(rustflags(b, t, inp1) == rustflags(b, t, inp2));
    assert(base_flags(b, t, inp1) == base_flags(b, t, inp2));
    assert(overlay_entries(b, t, inp1) =~= overlay_entries(b, t, inp2));
}

/// `s` holds no unit separator.
pub open spec fn separator_free(s: Seq<char>) -> bool {
    forall|i: int| 0 <= i < s.len() ==> s[i] != unit_separator()
}

proof fn lemma_free_concat(a: Seq<char>, b: Seq<char>)
    requires
        separator_free(a),
        separator_free(b),
    ensures
        separator_free(a + b),
{
    assert forall|i: int| 0 <= i < (a + b).len() implies (a + b)[i] != unit_separator() by {
        if i < a.len() {
            assert((a + b)[i] == a[i]);
        } else {
            assert((a + b)[i] == b[i - a.len()]);
        }
    }
}

proof fn lemma_free_replace(s: Seq<char>, pat: Seq<char>, with: Seq<char>)
    requires
        separator_free(s),
        separator_free(with),
    ensures
        separator_free(replace_all(s, pat, with)),
    decreases s.len(),
{
    if pat.len() == 0 || s.len() < pat.len() {
    } else if s.take(pat.len() as int) == pat {
        let rest = s.skip(pat.len() as int);
        assert forall|i: int| 0 <= i < rest.len() implies rest[i] != unit_separator() by {
            assert(rest[i] == s[i + pat.len()]);
        }
        lemma_free_replace(rest, pat, with);
        lemma_free_concat(with, replace_all(rest, pat, with));
    } else {
        let rest = s.skip(1);
        assert forall|i: int| 0 <= i < rest.len() implies rest[i] != unit_separator() by {
            assert(rest[i] == s[i + 1]);
        }
        lemma_free_replace(rest, pat, with);
        lemma_free_concat(seq![s[0]], replace_all(rest, pat, with));
    }
}

/// The rustflags for a triple are encodable when the configuration's flags
/// are, and neither the triple, its architecture nor the SDK tree holds the
/// separator.
pub proof fn lemma_rustflags_encodable(b: CrossCompiler, t: TripleView, inp: SynthesisInput)
    requires
        encodable(inp.config_rustflags.deep_view()),
        separator_free(t.triple),
        separator_free(t.arch),
        separator_free(inp.sdk_dir@),
    ensures
        encodable(rustflags(b, t, inp)),
{
    reveal_strlit("-C");
    reveal_strlit("linker-flavor=lld-link");
    reveal_strlit("link-arg=-defaultlib:oldnames");
    reveal_strlit("-Lnative=");
    reveal_strlit("/crt/lib/");
    reveal_strlit("/sdk/lib/um/");
    reveal_strlit("/sdk/lib/ucrt/");
    reveal_strlit("/lib/");
    reveal_strlit("x86");
    reveal_strlit("-unknown-");
    let d = inp.sdk_dir@;
    let cfg = inp.config_rustflags.deep_view();
    let lf = linker_flags(b);
    let dirs = lib_dirs(b, t, d);
    let lp = prefixed(dirs, "-Lnative="@);
    assert forall|i: int| 0 <= i < lf.len() implies separator_free(#[trigger] lf[i]) by {}
    let a = crate::triple::sdk_arch(t.arch);
    assert(separator_free(a));
    lemma_free_replace(t.triple, "-pc-"@, "-unknown-"@);
    let u = crate::triple::unknown_vendor_form(t.triple);
    assert forall|i: int| 0 <= i < dirs.len() implies separator_free(#[trigger] dirs[i]) by {
        match b {
            CrossCompiler::ClangCl => {
                lemma_free_concat(d, "/crt/lib/"@);
                lemma_free_concat(d + "/crt/lib/"@, a);
                lemma_free_concat(d, "/sdk/lib/um/"@);
                lemma_free_concat(d + "/sdk/lib/um/"@, a);
                lemma_free_concat(d, "/sdk/lib/ucrt/"@);
                lemma_free_concat(d + "/sdk/lib/ucrt/"@, a);
            },
            CrossCompiler::Clang => {
                lemma_free_concat(d, "/lib/"@);
                lemma_free_concat(d + "/lib/"@, u);
            },
        }
    }
    assert forall|i: int| 0 <= i < lp.len() implies separator_free(#[trigger] lp[i]) by {
        lemma_free_concat("-Lnative="@, dirs[i]);
    }
    let rf = rustflags(b, t, inp);
    assert forall|i: int| 0 <= i < rf.len() implies !(#[trigger] rf[i]).contains(
        unit_separator(),
    ) by {
        if i < cfg.len() {
            assert(rf[i] == cfg[i]);
        } else if i < cfg.len() + lf.len() {
            assert(rf[i] == lf[i - cfg.len()]);
        } else {
            assert(rf[i] == lp[i - cfg.len() - lf.len()]);
        }
        assert(separator_free(rf[i]));
    }
}

/// Synthesis succeeds for every well-formed triple free of the separator,
/// given an SDK tree and configuration rustflags free of it.
pub proof fn lemma_synthesis_succeeds(b: CrossCompiler, target: Seq<char>, inp: SynthesisInput)
    requires
        arch_of(target) is Some,
        separator_free(target),
        separator_free(inp.sdk_dir@),
        encodable(inp.config_rustflags.deep_view()),
    ensures
        encodable(rustflags(b, triple_view(target), inp)),
{
    let k = choose|k: int| crate::text::is_first(target, '-', k);
    let arch = target.take(k);
    assert forall|i: int| 0 <= i < arch.len() implies arch[i] != unit_separator() by {
        assert(arch[i] == target[i]);
    }
    assert(triple_view(target).arch == arch);
    lemma_rustflags_encodable(b, triple_view(target), inp);
}

} // verus!
