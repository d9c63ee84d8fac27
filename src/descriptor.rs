//! The CMake toolchain descriptor for a triple: the same compiler and linker
//! selection and the same search directories as the environment overlay, in
//! CMake's syntax.
use vstd::prelude::*;

use crate::environment::{
    base_flags, compile_flags, include_flag, overlay_entries, prefix_each, prefixed, rustflags,
    SynthesisInput,
};
use crate::layout::{include_dirs, include_dirs_vec, lib_dirs, lib_dirs_vec};
use crate::options::CrossCompiler;
use crate::text::{
    contains, join, join_strs, lemma_contains_left, lemma_contains_right, lemma_contains_self,
    lemma_contains_trans, lemma_join_contains, owned,
};
use crate::triple::{cmake_processor, no_vendor_form, TargetTriple, TripleView};

verus! {

/// The compiler and linker selection.
pub open spec fn header(b: CrossCompiler, t: TripleView) -> Seq<char> {
    match b {
        CrossCompiler::ClangCl => "\nset(CMAKE_SYSTEM_NAME Windows)\nset(CMAKE_SYSTEM_PROCESSOR "@ + cmake_processor(t.arch) + ")\n\nset(CMAKE_C_COMPILER clang-cl CACHE FILEPATH \"\")\nset(CMAKE_CXX_COMPILER clang-cl CACHE FILEPATH \"\")\nset(CMAKE_AR llvm-lib)\nset(CMAKE_LINKER lld-link CACHE FILEPATH \"\")\n"@,
        CrossCompiler::Clang => "\nset(CMAKE_SYSTEM_NAME Windows)\nset(CMAKE_SYSTEM_PROCESSOR "@ + cmake_processor(t.arch) + ")\n\nset(CMAKE_C_COMPILER clang CACHE FILEPATH \"\")\nset(CMAKE_CXX_COMPILER clang++ CACHE FILEPATH \"\")\nset(CMAKE_LINKER lld-link CACHE FILEPATH \"\")\nset(CMAKE_RC_COMPILER llvm-rc CACHE FILEPATH \"\")\nset(CMAKE_C_COMPILER_TARGET "@ + t.triple + " CACHE STRING \"\")\nset(CMAKE_CXX_COMPILER_TARGET "@ + t.triple + " CACHE STRING \"\")\n"@,
    }
}

/// The target the compiler driver is told of.
pub open spec fn target_arg(b: CrossCompiler, t: TripleView) -> Seq<char> {
    match b {
        CrossCompiler::ClangCl => t.triple,
        CrossCompiler::Clang => no_vendor_form(t.triple),
    }
}

/// The driver flags between the target and the header directories.
pub open spec fn driver_lines(b: CrossCompiler) -> Seq<char> {
    match b {
        CrossCompiler::ClangCl => "\n    -Wno-unused-command-line-argument\n    -fuse-ld=lld-link\n\n"@,
        CrossCompiler::Clang => "\n    -fuse-ld=lld-link\n"@,
    }
}

/// One line per header directory.
pub open spec fn include_lines(b: CrossCompiler, d: Seq<char>) -> Seq<Seq<char>> {
    prefixed(include_dirs(b, d), "    "@ + include_flag(b))
}

/// One line per library directory.
pub open spec fn libpath_lines(dirs: Seq<Seq<char>>) -> Seq<Seq<char>> {
    dirs.map_values(|p: Seq<char>| "    -libpath:\""@ + p + "\""@)
}

/// The compile flags block.
pub open spec fn compile_block(b: CrossCompiler, t: TripleView, d: Seq<char>) -> Seq<char> {
    "\nset(COMPILE_FLAGS\n    --target="@ + target_arg(b, t) + driver_lines(b) + join(
        include_lines(b, d),
        "\n"@,
    ) + ")\n"@
}

/// The link flags block.
pub open spec fn link_block(b: CrossCompiler, t: TripleView, d: Seq<char>) -> Seq<char> {
    "\nset(LINK_FLAGS\n    /manifest:no\n"@ + (if b == CrossCompiler::ClangCl {
        "\n"@
    } else {
        seq![]
    }) + join(libpath_lines(lib_dirs(b, t, d)), "\n"@) + ")\n"@
}

/// The lines that apply the flag blocks to CMake's flag variables.
pub open spec fn apply_block(b: CrossCompiler) -> Seq<char> {
    "\nstring(REPLACE \";\" \" \" COMPILE_FLAGS \"${COMPILE_FLAGS}\")\n\nset(_CMAKE_C_FLAGS_INITIAL \"${CMAKE_C_FLAGS}\" CACHE STRING \"\")\nset(CMAKE_C_FLAGS \"${_CMAKE_C_FLAGS_INITIAL} ${COMPILE_FLAGS}\" CACHE STRING \"\" FORCE)\n\nset(_CMAKE_CXX_FLAGS_INITIAL \"${CMAKE_CXX_FLAGS}\" CACHE STRING \"\")\n"@ + (if b == CrossCompiler::ClangCl {
        "set(CMAKE_CXX_FLAGS \"${_CMAKE_CXX_FLAGS_INITIAL} ${COMPILE_FLAGS} /EHsc\" CACHE STRING \"\" FORCE)\n"@
    } else {
        "set(CMAKE_CXX_FLAGS \"${_CMAKE_CXX_FLAGS_INITIAL} ${COMPILE_FLAGS}\" CACHE STRING \"\" FORCE)\n"@
    }) + "\nstring(REPLACE \";\" \" \" LINK_FLAGS \"${LINK_FLAGS}\")\n\nset(_CMAKE_EXE_LINKER_FLAGS_INITIAL \"${CMAKE_EXE_LINKER_FLAGS}\" CACHE STRING \"\")\nset(CMAKE_EXE_LINKER_FLAGS \"${_CMAKE_EXE_LINKER_FLAGS_INITIAL} ${LINK_FLAGS}\" CACHE STRING \"\" FORCE)\n\nset(_CMAKE_MODULE_LINKER_FLAGS_INITIAL \"${CMAKE_MODULE_LINKER_FLAGS}\" CACHE STRING \"\")\nset(CMAKE_MODULE_LINKER_FLAGS \"${_CMAKE_MODULE_LINKER_FLAGS_INITIAL} ${LINK_FLAGS}\" CACHE STRING \"\" FORCE)\n\nset(_CMAKE_SHARED_LINKER_FLAGS_INITIAL \"${CMAKE_SHARED_LINKER_FLAGS}\" CACHE STRING \"\")\nset(CMAKE_SHARED_LINKER_FLAGS \"${_CMAKE_SHARED_LINKER_FLAGS_INITIAL} ${LINK_FLAGS}\" CACHE STRING \"\" FORCE)\n\n# CMake populates these with a bunch of unnecessary libraries, which requires\n# extra case-correcting symlinks and what not. Instead, let projects explicitly\n# control which libraries they require.\nset(CMAKE_C_STANDARD_LIBRARIES \"\" CACHE STRING \"\" FORCE)\nset(CMAKE_CXX_STANDARD_LIBRARIES \"\" CACHE STRING \"\" FORCE)\n\nset(CMAKE_TRY_COMPILE_CONFIGURATION Release)\n"@
}

/// The C runtime linkage: static when the target asks for a static CRT.
pub open spec fn runtime_line(static_crt: bool) -> Seq<char> {
    if static_crt {
        "\nset(CMAKE_MSVC_RUNTIME_LIBRARY \"MultiThreaded$<$<CONFIG:Debug>:Debug>\")\n"@
    } else {
        "\nset(CMAKE_MSVC_RUNTIME_LIBRARY \"MultiThreaded$<$<CONFIG:Debug>:Debug>DLL\")\n"@
    }
}

/// The rule override that lets `clang-cl` take macOS paths.
pub open spec fn override_line(b: CrossCompiler) -> Seq<char> {
    if b == CrossCompiler::ClangCl {
        "\n# Allow clang-cl to work with macOS paths.\nset(CMAKE_USER_MAKE_RULES_OVERRIDE \"${CMAKE_CURRENT_LIST_DIR}/override.cmake\")\n"@
    } else {
        seq![]
    }
}

/// The toolchain descriptor for a triple whose SDK tree is `d`.
pub open spec fn descriptor_text(b: CrossCompiler, t: TripleView, d: Seq<char>, static_crt: bool) -> Seq<char> {
    header(b, t) + compile_block(b, t, d) + link_block(b, t, d) + apply_block(b) + runtime_line(
        static_crt,
    ) + override_line(b)
}

fn libpath_lines_of(dirs: &Vec<String>) -> (r: Vec<String>)
    ensures
        r.deep_view() == libpath_lines(dirs.deep_view()),
{
    let mut r: Vec<String> = Vec::new();
    let mut i: usize = 0;
    while i < dirs.len()
        invariant
            i <= dirs.len(),
            r.deep_view() =~= libpath_lines(dirs.deep_view()).take(i as int),
        decreases dirs.len() - i,
    {
        let ghost prev = r.deep_view();
        let mut s = owned("    -libpath:\"");
        s.append(dirs[i].as_str());
        s.append("\"");
        r.push(s);
        assert(r.deep_view() =~= prev.push(s@));
        assert(libpath_lines(dirs.deep_view()).take(i + 1) =~= libpath_lines(dirs.deep_view()).take(
            i as int,
        ).push(s@));
        i = i + 1;
    }
    assert(libpath_lines(dirs.deep_view()).take(dirs.len() as int) =~= libpath_lines(
        dirs.deep_view(),
    ));
    r
}

/// The toolchain descriptor for a triple whose SDK tree is `d`, with static
/// or dynamic C runtime linkage.
pub fn descriptor(b: CrossCompiler, tt: &TargetTriple, d: &str, static_crt: bool) -> (r: String)
    ensures
        r@ == descriptor_text(b, tt@, d@, static_crt),
{
    let ghost t = tt@;
    let mut s = String::new();
    match b {
        CrossCompiler::ClangCl => {
            s.append("\nset(CMAKE_SYSTEM_NAME Windows)\nset(CMAKE_SYSTEM_PROCESSOR ");
            s.append(tt.cmake_processor().as_str());
            s.append(")\n\nset(CMAKE_C_COMPILER clang-cl CACHE FILEPATH \"\")\nset(CMAKE_CXX_COMPILER clang-cl CACHE FILEPATH \"\")\nset(CMAKE_AR llvm-lib)\nset(CMAKE_LINKER lld-link CACHE FILEPATH \"\")\n");
        },
        CrossCompiler::Clang => {
            s.append("\nset(CMAKE_SYSTEM_NAME Windows)\nset(CMAKE_SYSTEM_PROCESSOR ");
            s.append(tt.cmake_processor().as_str());
            s.append(")\n\nset(CMAKE_C_COMPILER clang CACHE FILEPATH \"\")\nset(CMAKE_CXX_COMPILER clang++ CACHE FILEPATH \"\")\nset(CMAKE_LINKER lld-link CACHE FILEPATH \"\")\nset(CMAKE_RC_COMPILER llvm-rc CACHE FILEPATH \"\")\nset(CMAKE_C_COMPILER_TARGET ");
            s.append(tt.triple.as_str());
            s.append(" CACHE STRING \"\")\nset(CMAKE_CXX_COMPILER_TARGET ");
            s.append(tt.triple.as_str());
            s.append(" CACHE STRING \"\")\n");
        },
    }
    assert(s@ =~= header(b, t));
    s.append("\nset(COMPILE_FLAGS\n    --target=");
    match b {
        CrossCompiler::ClangCl => {
            s.append(tt.triple.as_str());
            s.append("\n    -Wno-unused-command-line-argument\n    -fuse-ld=lld-link\n\n");
        },
        CrossCompiler::Clang => {
            s.append(tt.no_vendor().as_str());
            s.append("\n    -fuse-ld=lld-link\n");
        },
    }
    let flag = match b {
        CrossCompiler::ClangCl => "    /imsvc",
        CrossCompiler::Clang => "    -I",
    };
    proof {
        reveal_strlit("    /imsvc");
        reveal_strlit("    -I");
        reveal_strlit("    ");
        reveal_strlit("/imsvc");
        reveal_strlit("-I");
        assert(flag@ =~= "    "@ + include_flag(b));
    }
    let incs = include_dirs_vec(b, d);
    s.append(join_strs(&prefix_each(&incs, flag), "\n").as_str());
    s.append(")\n");
    assert(s@ =~= header(b, t) + compile_block(b, t, d@));
    let ghost upto_compile = s@;
    s.append("\nset(LINK_FLAGS\n    /manifest:no\n");
    if b == CrossCompiler::ClangCl {
        s.append("\n");
    }
    let libs = lib_dirs_vec(b, tt, d);
    s.append(join_strs(&libpath_lines_of(&libs), "\n").as_str());
    s.append(")\n");
    assert(s@ =~= upto_compile + link_block(b, t, d@));
    let ghost upto_link = s@;
    s.append("\nstring(REPLACE \";\" \" \" COMPILE_FLAGS \"${COMPILE_FLAGS}\")\n\nset(_CMAKE_C_FLAGS_INITIAL \"${CMAKE_C_FLAGS}\" CACHE STRING \"\")\nset(CMAKE_C_FLAGS \"${_CMAKE_C_FLAGS_INITIAL} ${COMPILE_FLAGS}\" CACHE STRING \"\" FORCE)\n\nset(_CMAKE_CXX_FLAGS_INITIAL \"${CMAKE_CXX_FLAGS}\" CACHE STRING \"\")\n");
    if b == CrossCompiler::ClangCl {
        s.append("set(CMAKE_CXX_FLAGS \"${_CMAKE_CXX_FLAGS_INITIAL} ${COMPILE_FLAGS} /EHsc\" CACHE STRING \"\" FORCE)\n");
    } else {
        s.append("set(CMAKE_CXX_FLAGS \"${_CMAKE_CXX_FLAGS_INITIAL} ${COMPILE_FLAGS}\" CACHE STRING \"\" FORCE)\n");
    }
    s.append("\nstring(REPLACE \";\" \" \" LINK_FLAGS \"${LINK_FLAGS}\")\n\nset(_CMAKE_EXE_LINKER_FLAGS_INITIAL \"${CMAKE_EXE_LINKER_FLAGS}\" CACHE STRING \"\")\nset(CMAKE_EXE_LINKER_FLAGS \"${_CMAKE_EXE_LINKER_FLAGS_INITIAL} ${LINK_FLAGS}\" CACHE STRING \"\" FORCE)\n\nset(_CMAKE_MODULE_LINKER_FLAGS_INITIAL \"${CMAKE_MODULE_LINKER_FLAGS}\" CACHE STRING \"\")\nset(CMAKE_MODULE_LINKER_FLAGS \"${_CMAKE_MODULE_LINKER_FLAGS_INITIAL} ${LINK_FLAGS}\" CACHE STRING \"\" FORCE)\n\nset(_CMAKE_SHARED_LINKER_FLAGS_INITIAL \"${CMAKE_SHARED_LINKER_FLAGS}\" CACHE STRING \"\")\nset(CMAKE_SHARED_LINKER_FLAGS \"${_CMAKE_SHARED_LINKER_FLAGS_INITIAL} ${LINK_FLAGS}\" CACHE STRING \"\" FORCE)\n\n# CMake populates these with a bunch of unnecessary libraries, which requires\n# extra case-correcting symlinks and what not. Instead, let projects explicitly\n# control which libraries they require.\nset(CMAKE_C_STANDARD_LIBRARIES \"\" CACHE STRING \"\" FORCE)\nset(CMAKE_CXX_STANDARD_LIBRARIES \"\" CACHE STRING \"\" FORCE)\n\nset(CMAKE_TRY_COMPILE_CONFIGURATION Release)\n");
    assert(s@ =~= upto_link + apply_block(b));
    let ghost upto_apply = s@;
    if static_crt {
        s.append("\nset(CMAKE_MSVC_RUNTIME_LIBRARY \"MultiThreaded$<$<CONFIG:Debug>:Debug>\")\n");
    } else {
        s.append("\nset(CMAKE_MSVC_RUNTIME_LIBRARY \"MultiThreaded$<$<CONFIG:Debug>:Debug>DLL\")\n");
    }
    if b == CrossCompiler::ClangCl {
        s.append("\n# Allow clang-cl to work with macOS paths.\nset(CMAKE_USER_MAKE_RULES_OVERRIDE \"${CMAKE_CURRENT_LIST_DIR}/override.cmake\")\n");
    }
    assert(s@ =~= upto_apply + runtime_line(static_crt) + override_line(b));
    s
}

/// `p + xs[i]` occurs in the join of `xs` each prefixed by `p`.
proof fn lemma_prefixed_join_contains(xs: Seq<Seq<char>>, p: Seq<char>, sep: Seq<char>, i: int)
    requires
        0 <= i < xs.len(),
    ensures
        contains(join(prefixed(xs, p), sep), p + xs[i]),
{
    lemma_join_contains(prefixed(xs, p), sep, i);
}

/// Each header directory occurs behind the backend's include flag in the
/// compiler flags.
proof fn lemma_compile_flags_hold_include(b: CrossCompiler, t: TripleView, d: Seq<char>, i: int)
    requires
        0 <= i < include_dirs(b, d).len(),
    ensures
        contains(compile_flags(b, t, d), include_flag(b) + include_dirs(b, d)[i]),
{
    let n = include_flag(b) + include_dirs(b, d)[i];
    let j = join(prefixed(include_dirs(b, d), include_flag(b)), " "@);
    lemma_prefixed_join_contains(include_dirs(b, d), include_flag(b), " "@, i);
    match b {
        CrossCompiler::ClangCl => {
            let a = "--target="@ + t.triple + " -Wno-unused-command-line-argument -fuse-ld=lld-link "@;
            lemma_contains_right(a, j, n);
        },
        CrossCompiler::Clang => {
            let a = "--target="@ + no_vendor_form(t.triple) + " -fuse-ld=lld-link "@;
            lemma_contains_right(a, j, n);
            lemma_contains_left(a + j, " "@, n);
            lemma_contains_left(
                a + j + " "@,
                join(prefixed(lib_dirs(b, t, d), "-L"@), " "@),
                n,
            );
        },
    }
}

/// What occurs in the compile block occurs in the descriptor.
proof fn lemma_descriptor_holds_compile_block(
    b: CrossCompiler,
    t: TripleView,
    d: Seq<char>,
    static_crt: bool,
    n: Seq<char>,
)
    requires
        contains(compile_block(b, t, d), n),
    ensures
        contains(descriptor_text(b, t, d, static_crt), n),
{
    let h = header(b, t);
    let c = compile_block(b, t, d);
    lemma_contains_right(h, c, n);
    lemma_contains_left(h + c, link_block(b, t, d), n);
    lemma_contains_left(h + c + link_block(b, t, d), apply_block(b), n);
    lemma_contains_left(h + c + link_block(b, t, d) + apply_block(b), runtime_line(static_crt), n);
    lemma_contains_left(
        h + c + link_block(b, t, d) + apply_block(b) + runtime_line(static_crt),
        override_line(b),
        n,
    );
}

/// What occurs in the link block occurs in the descriptor.
proof fn lemma_descriptor_holds_link_block(
    b: CrossCompiler,
    t: TripleView,
    d: Seq<char>,
    static_crt: bool,
    n: Seq<char>,
)
    requires
        contains(link_block(b, t, d), n),
    ensures
        contains(descriptor_text(b, t, d, static_crt), n),
{
    let hc = header(b, t) + compile_block(b, t, d);
    let l = link_block(b, t, d);
    lemma_contains_right(hc, l, n);
    lemma_contains_left(hc + l, apply_block(b), n);
    lemma_contains_left(hc + l + apply_block(b), runtime_line(static_crt), n);
    lemma_contains_left(
        hc + l + apply_block(b) + runtime_line(static_crt),
        override_line(b),
        n,
    );
}

/// The toolchain descriptor and the environment overlay of a triple embed the
/// same search directories. Each header directory occurs behind the backend's
/// include flag both in the descriptor and in the overlay's C flags for the
/// triple; each library directory occurs as a quoted `-libpath:` entry of the
/// descriptor and as a `-Lnative=` rustflag of the overlay, whose encoded
/// rustflags the overlay carries.
pub proof fn lemma_descriptor_matches_environment(
    b: CrossCompiler,
    t: TripleView,
    inp: SynthesisInput,
    static_crt: bool,
)
    ensures
        forall|i: int|
            0 <= i < include_dirs(b, inp.sdk_dir@).len() ==> {
                let flag = include_flag(b) + #[trigger] include_dirs(b, inp.sdk_dir@)[i];
                &&& contains(descriptor_text(b, t, inp.sdk_dir@, static_crt), flag)
                &&& exists|j: int|
                    0 <= j < overlay_entries(b, t, inp).len() && (#[trigger] overlay_entries(
                        b,
                        t,
                        inp,
                    )[j]).0 == "CFLAGS_"@ + t.env_name && contains(
                        overlay_entries(b, t, inp)[j].1,
                        flag,
                    )
            },
        forall|i: int|
            0 <= i < lib_dirs(b, t, inp.sdk_dir@).len() ==> {
                let dir = #[trigger] lib_dirs(b, t, inp.sdk_dir@)[i];
                &&& contains(
                    descriptor_text(b, t, inp.sdk_dir@, static_crt),
                    "-libpath:\""@ + dir + "\""@,
                )
                &&& rustflags(b, t, inp).contains("-Lnative="@ + dir)
            },
        overlay_entries(b, t, inp).contains(
            ("CARGO_ENCODED_RUSTFLAGS"@, crate::environment::encoded(rustflags(b, t, inp))),
        ),
{
    let d = inp.sdk_dir@;
    let o = overlay_entries(b, t, inp);
    let ci: int = if b == CrossCompiler::ClangCl {
        8
    } else {
        7
    };
    assert(o[ci].0 == "CFLAGS_"@ + t.env_name);
    assert(o[ci].1 == base_flags(b, t, inp) + " "@ + inp.user_c_flags@);
    assert forall|i: int| 0 <= i < include_dirs(b, d).len() implies {
        let flag = include_flag(b) + #[trigger] include_dirs(b, d)[i];
        &&& contains(descriptor_text(b, t, d, static_crt), flag)
        &&& exists|j: int|
            0 <= j < o.len() && (#[trigger] o[j]).0 == "CFLAGS_"@ + t.env_name && contains(
                o[j].1,
                flag,
            )
    } by {
        let flag = include_flag(b) + include_dirs(b, d)[i];
        let line = "    "@ + include_flag(b) + include_dirs(b, d)[i];
        assert(line =~= "    "@ + flag);
        lemma_contains_self(flag);
        lemma_contains_right("    "@, flag, flag);
        lemma_prefixed_join_contains(include_dirs(b, d), "    "@ + include_flag(b), "\n"@, i);
        lemma_contains_trans(join(include_lines(b, d), "\n"@), line, flag);
        let pre = "\nset(COMPILE_FLAGS\n    --target="@ + target_arg(b, t) + driver_lines(b);
        lemma_contains_right(pre, join(include_lines(b, d), "\n"@), flag);
        lemma_contains_left(pre + join(include_lines(b, d), "\n"@), ")\n"@, flag);
        lemma_descriptor_holds_compile_block(b, t, d, static_crt, flag);
        lemma_compile_flags_hold_include(b, t, d, i);
        let cf = compile_flags(b, t, d);
        if b == CrossCompiler::ClangCl {
            lemma_contains_left(cf, " "@, flag);
            lemma_contains_left(cf + " "@, inp.user_cl_flags@, flag);
        }
        lemma_contains_left(base_flags(b, t, inp), " "@, flag);
        lemma_contains_left(base_flags(b, t, inp) + " "@, inp.user_c_flags@, flag);
        assert(contains(o[ci].1, flag));
    }
    assert forall|i: int| 0 <= i < lib_dirs(b, t, d).len() implies {
        let dir = #[trigger] lib_dirs(b, t, d)[i];
        &&& contains(descriptor_text(b, t, d, static_crt), "-libpath:\""@ + dir + "\""@)
        &&& rustflags(b, t, inp).contains("-Lnative="@ + dir)
    } by {
        let dir = lib_dirs(b, t, d)[i];
        let entry = "-libpath:\""@ + dir + "\""@;
        let line = "    -libpath:\""@ + dir + "\""@;
        reveal_strlit("    -libpath:\"");
        reveal_strlit("-libpath:\"");
        reveal_strlit("    ");
        assert("    -libpath:\""@ =~= "    "@ + "-libpath:\""@);
        assert(line =~= "    "@ + entry);
        lemma_contains_self(entry);
        lemma_contains_right("    "@, entry, entry);
        assert(libpath_lines(lib_dirs(b, t, d))[i] == line);
        lemma_join_contains(libpath_lines(lib_dirs(b, t, d)), "\n"@, i);
        lemma_contains_trans(join(libpath_lines(lib_dirs(b, t, d)), "\n"@), line, entry);
        let pre = "\nset(LINK_FLAGS\n    /manifest:no\n"@ + (if b == CrossCompiler::ClangCl {
            "\n"@
        } else {
            seq![]
        });
        let jl = join(libpath_lines(lib_dirs(b, t, d)), "\n"@);
        lemma_contains_right(pre, jl, entry);
        lemma_contains_left(pre + jl, ")\n"@, entry);
        lemma_descriptor_holds_link_block(b, t, d, static_crt, entry);
        let rf = rustflags(b, t, inp);
        let k = inp.config_rustflags.deep_view().len() + crate::environment::linker_flags(b).len()
            + i;
        assert(rf[k] == "-Lnative="@ + dir);
    }
    let ei: int = if b == CrossCompiler::ClangCl {
        12
    } else {
        11
    };
    assert(o[ei] == ("CARGO_ENCODED_RUSTFLAGS"@, crate::environment::encoded(rustflags(b, t, inp))));
}

} // verus!
