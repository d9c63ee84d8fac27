use cargo_xwin::descriptor::descriptor;
use cargo_xwin::environment::{
    check_targets, setup_cmake_env, setup_target_compiler_and_linker_env, synthesize, SetupError, SynthesisInput,
};
use cargo_xwin::layout::{adjust_canonicalization, descriptor_path_of};
use cargo_xwin::options::CrossCompiler;
use cargo_xwin::triple::{is_msvc_target, runner_var_name, TargetTriple};

fn input() -> SynthesisInput {
    SynthesisInput {
        cache_dir: "/cache".to_string(),
        sdk_dir: "/cache/xwin".to_string(),
        search_path: "/usr/bin:/cache".to_string(),
        user_cl_flags: String::new(),
        user_c_flags: "-O2".to_string(),
        user_cxx_flags: String::new(),
        config_rustflags: vec!["-Ctarget-cpu=native".to_string()],
    }
}

fn value<'a>(o: &'a [(String, String)], key: &str) -> Option<&'a str> {
    o.iter().rev().find(|(k, _)| k == key).map(|(_, v)| v.as_str())
}

#[test]
fn clang_cl_overlay_selects_paired_linker_and_three_lib_dirs() {
    let o = synthesize(CrossCompiler::ClangCl, "x86_64-pc-windows-msvc", &input()).unwrap();
    assert_eq!(
        value(&o, "CARGO_TARGET_X86_64_PC_WINDOWS_MSVC_LINKER"),
        Some("lld-link")
    );
    assert_eq!(value(&o, "TARGET_CC"), Some("clang-cl"));
    assert_eq!(value(&o, "CC_x86_64_pc_windows_msvc"), Some("clang-cl"));
    assert_eq!(value(&o, "AR_x86_64_pc_windows_msvc"), Some("llvm-lib"));
    let flags: Vec<&str> = value(&o, "CARGO_ENCODED_RUSTFLAGS").unwrap().split('\x1f').collect();
    let natives: Vec<&str> = flags.iter().copied().filter(|f| f.starts_with("-Lnative=")).collect();
    assert_eq!(
        natives,
        vec![
            "-Lnative=/cache/xwin/crt/lib/x86_64",
            "-Lnative=/cache/xwin/sdk/lib/um/x86_64",
            "-Lnative=/cache/xwin/sdk/lib/ucrt/x86_64",
        ]
    );
    assert_eq!(
        flags,
        vec![
            "-Ctarget-cpu=native",
            "-C",
            "linker-flavor=lld-link",
            "-Lnative=/cache/xwin/crt/lib/x86_64",
            "-Lnative=/cache/xwin/sdk/lib/um/x86_64",
            "-Lnative=/cache/xwin/sdk/lib/ucrt/x86_64",
        ]
    );
}

#[test]
fn clang_cl_flags_put_user_flags_after_synthesized_ones() {
    let mut inp = input();
    inp.user_cl_flags = "/DUSER".to_string();
    inp.user_cxx_flags = "-std=c++17".to_string();
    let o = synthesize(CrossCompiler::ClangCl, "x86_64-pc-windows-msvc", &inp).unwrap();
    let cl = "--target=x86_64-pc-windows-msvc -Wno-unused-command-line-argument -fuse-ld=lld-link /imsvc/cache/xwin/crt/include /imsvc/cache/xwin/sdk/include/ucrt /imsvc/cache/xwin/sdk/include/um /imsvc/cache/xwin/sdk/include/shared /DUSER";
    assert_eq!(value(&o, "CL_FLAGS"), Some(cl));
    assert_eq!(
        value(&o, "CFLAGS_x86_64_pc_windows_msvc"),
        Some(format!("{cl} -O2").as_str())
    );
    assert_eq!(
        value(&o, "CXXFLAGS_x86_64_pc_windows_msvc"),
        Some(format!("{cl} /EHsc -std=c++17").as_str())
    );
    let headers = "-I/cache/xwin/crt/include -I/cache/xwin/sdk/include/ucrt -I/cache/xwin/sdk/include/um -I/cache/xwin/sdk/include/shared";
    assert_eq!(value(&o, "BINDGEN_EXTRA_CLANG_ARGS_x86_64_pc_windows_msvc"), Some(headers));
    assert_eq!(value(&o, "RCFLAGS"), Some(headers));
    assert_eq!(value(&o, "PATH"), Some("/usr/bin:/cache"));
    assert_eq!(value(&o, "CMAKE_GENERATOR"), Some("Ninja"));
    assert_eq!(value(&o, "CMAKE_SYSTEM_NAME"), Some("Windows"));
    assert_eq!(
        value(&o, "CMAKE_TOOLCHAIN_FILE_x86_64_pc_windows_msvc"),
        Some("/cache/cmake/clang-cl/x86_64-pc-windows-msvc-toolchain.cmake")
    );
}

#[test]
fn clang_overlay_uses_vendor_forms_of_the_triple() {
    let mut inp = input();
    inp.sdk_dir = "/cache/windows-msvc-sysroot".to_string();
    let o = synthesize(CrossCompiler::Clang, "x86_64-pc-windows-msvc", &inp).unwrap();
    let d = "/cache/windows-msvc-sysroot";
    let flags = format!("--target=x86_64-windows-msvc -fuse-ld=lld-link -I{d}/include -I{d}/include/c++/stl -I{d}/include/__msvc_vcruntime_intrinsics -L{d}/lib/x86_64-unknown-windows-msvc");
    assert_eq!(value(&o, "TARGET_CC"), Some("clang"));
    assert_eq!(value(&o, "CL_FLAGS"), None);
    assert_eq!(
        value(&o, "CFLAGS_x86_64_pc_windows_msvc"),
        Some(format!("{flags} -O2").as_str())
    );
    assert_eq!(
        value(&o, "CXXFLAGS_x86_64_pc_windows_msvc"),
        Some(format!("{flags} ").as_str())
    );
    let rf: Vec<&str> = value(&o, "CARGO_ENCODED_RUSTFLAGS").unwrap().split('\x1f').collect();
    assert_eq!(
        rf,
        vec![
            "-Ctarget-cpu=native",
            "-C",
            "linker-flavor=lld-link",
            "-C",
            "link-arg=-defaultlib:oldnames",
            "-Lnative=/cache/windows-msvc-sysroot/lib/x86_64-unknown-windows-msvc",
        ]
    );
}

#[test]
fn synthesis_is_deterministic() {
    let a = synthesize(CrossCompiler::ClangCl, "aarch64-pc-windows-msvc", &input()).unwrap();
    let b = synthesize(CrossCompiler::ClangCl, "aarch64-pc-windows-msvc", &input()).unwrap();
    assert_eq!(a, b);
    let c = synthesize(CrossCompiler::Clang, "aarch64-pc-windows-msvc", &input()).unwrap();
    let d = synthesize(CrossCompiler::Clang, "aarch64-pc-windows-msvc", &input()).unwrap();
    assert_eq!(c, d);
}

#[test]
fn malformed_triple_is_rejected() {
    let err = synthesize(CrossCompiler::ClangCl, "msvc", &input()).unwrap_err();
    assert_eq!(err, SetupError::InvalidTargetTriple { triple: "msvc".to_string() });
    assert_eq!(err.message(), "invalid target triple: msvc");
    assert_eq!(
        check_targets(&vec!["x86_64-pc-windows-msvc".to_string(), "msvc".to_string(), "bad msvc".to_string()]),
        Err(SetupError::InvalidTargetTriple { triple: "msvc".to_string() })
    );
    assert_eq!(
        check_targets(&vec!["x86_64-pc-windows-msvc".to_string(), "wasm".to_string()]),
        Ok(())
    );
}

#[test]
fn rustflag_holding_the_separator_is_rejected() {
    let mut inp = input();
    inp.config_rustflags = vec!["-Ca\x1fb".to_string()];
    assert_eq!(
        synthesize(CrossCompiler::ClangCl, "x86_64-pc-windows-msvc", &inp),
        Err(SetupError::UnencodableRustflags)
    );
}

#[test]
fn empty_leading_rustflag_is_skipped_when_encoding() {
    let mut inp = input();
    inp.config_rustflags = vec![String::new()];
    let o = synthesize(CrossCompiler::ClangCl, "x86_64-pc-windows-msvc", &inp).unwrap();
    assert!(value(&o, "CARGO_ENCODED_RUSTFLAGS").unwrap().starts_with("-C\x1flinker-flavor"));
}

#[test]
fn i686_collapses_to_x86() {
    let o = synthesize(CrossCompiler::ClangCl, "i686-pc-windows-msvc", &input()).unwrap();
    let rf = value(&o, "CARGO_ENCODED_RUSTFLAGS").unwrap();
    assert!(rf.ends_with("-Lnative=/cache/xwin/sdk/lib/ucrt/x86"));
    let tt = TargetTriple::parse("i586-pc-windows-msvc").unwrap();
    assert_eq!(tt.sdk_arch(), "x86");
    assert_eq!(tt.cmake_processor(), "X86");
}

#[test]
fn triple_names() {
    let tt = TargetTriple::parse("X86_64-PC-Windows-MSVC").unwrap();
    assert_eq!(tt.arch, "X86_64");
    assert_eq!(tt.env_name, "x86_64_pc_windows_msvc");
    assert_eq!(tt.env_name_upper, "X86_64_PC_WINDOWS_MSVC");
    let tt = TargetTriple::parse("aarch64-pc-windows-msvc").unwrap();
    assert_eq!(tt.no_vendor(), "aarch64-windows-msvc");
    assert_eq!(tt.unknown_vendor(), "aarch64-unknown-windows-msvc");
    assert_eq!(tt.cmake_processor(), "ARM64");
    assert_eq!(TargetTriple::parse("x86_64-pc-windows-msvc").unwrap().cmake_processor(), "AMD64");
    assert_eq!(TargetTriple::parse("arm64ec-pc-windows-msvc").unwrap().cmake_processor(), "ARM64EC");
    assert_eq!(TargetTriple::parse("riscv64-pc-windows-msvc").unwrap().cmake_processor(), "riscv64");
    assert!(TargetTriple::parse("nodash").is_none());
    assert_eq!(
        runner_var_name("x86_64-pc-windows-msvc"),
        "CARGO_TARGET_X86_64_PC_WINDOWS_MSVC_RUNNER"
    );
    assert!(is_msvc_target("x86_64-pc-windows-msvc"));
    assert!(!is_msvc_target("x86_64-pc-windows-gnu"));
}

#[test]
fn descriptor_embeds_the_overlay_search_paths() {
    let inp = input();
    let tt = TargetTriple::parse("x86_64-pc-windows-msvc").unwrap();
    let text = descriptor(CrossCompiler::ClangCl, &tt, "/cache/xwin", false);
    let o = synthesize(CrossCompiler::ClangCl, "x86_64-pc-windows-msvc", &inp).unwrap();
    let cflags = value(&o, "CFLAGS_x86_64_pc_windows_msvc").unwrap();
    for dir in ["crt/include", "sdk/include/ucrt", "sdk/include/um", "sdk/include/shared"] {
        let flag = format!("/imsvc/cache/xwin/{dir}");
        assert!(text.contains(&format!("    {flag}\n")) || text.contains(&format!("    {flag})")));
        assert!(cflags.contains(&flag));
    }
    let rf = value(&o, "CARGO_ENCODED_RUSTFLAGS").unwrap();
    for dir in ["crt/lib/x86_64", "sdk/lib/um/x86_64", "sdk/lib/ucrt/x86_64"] {
        assert!(text.contains(&format!("-libpath:\"/cache/xwin/{dir}\"")));
        assert!(rf.split('\x1f').any(|f| f == format!("-Lnative=/cache/xwin/{dir}")));
    }
    assert!(text.contains("set(CMAKE_SYSTEM_PROCESSOR AMD64)"));
    assert!(text.contains("set(CMAKE_C_COMPILER clang-cl CACHE FILEPATH \"\")"));
    assert!(text.contains("    --target=x86_64-pc-windows-msvc\n"));
    assert!(text.contains("MultiThreaded$<$<CONFIG:Debug>:Debug>DLL"));
    assert!(text.contains("override.cmake"));
    let text = descriptor(CrossCompiler::ClangCl, &tt, "/cache/xwin", true);
    assert!(text.contains("\"MultiThreaded$<$<CONFIG:Debug>:Debug>\")"));
}

#[test]
fn clang_descriptor() {
    let tt = TargetTriple::parse("aarch64-pc-windows-msvc").unwrap();
    let text = descriptor(CrossCompiler::Clang, &tt, "/s", false);
    assert!(text.contains("set(CMAKE_C_COMPILER clang CACHE FILEPATH \"\")"));
    assert!(text.contains("set(CMAKE_CXX_COMPILER clang++ CACHE FILEPATH \"\")"));
    assert!(text.contains("set(CMAKE_C_COMPILER_TARGET aarch64-pc-windows-msvc CACHE STRING \"\")"));
    assert!(text.contains("    --target=aarch64-windows-msvc\n    -fuse-ld=lld-link\n    -I/s/include\n    -I/s/include/c++/stl\n    -I/s/include/__msvc_vcruntime_intrinsics)\n"));
    assert!(text.contains("    /manifest:no\n    -libpath:\"/s/lib/aarch64-unknown-windows-msvc\")\n"));
    assert!(!text.contains("override.cmake"));
}

#[test]
fn descriptor_location() {
    assert_eq!(
        descriptor_path_of(CrossCompiler::Clang, "/c", "x86_64-pc-windows-msvc"),
        "/c/cmake/clang/x86_64-pc-windows-msvc-toolchain.cmake"
    );
}

#[test]
fn canonicalization_prefix() {
    assert_eq!(adjust_canonicalization(r"\\?\C:\Users\me".to_string(), true), r"C:\Users\me");
    assert_eq!(adjust_canonicalization(r"\\?\C:\Users\me".to_string(), false), r"\\?\C:\Users\me");
    assert_eq!(adjust_canonicalization("/home/me".to_string(), true), "/home/me");
    assert_eq!(adjust_canonicalization("/home/me".to_string(), false), "/home/me");
    assert_eq!(adjust_canonicalization(r"\\?".to_string(), true), r"\\?");
}

#[test]
fn compiler_and_cmake_entries() {
    let tt = TargetTriple::parse("aarch64-pc-windows-msvc").unwrap();
    let mut o = Vec::new();
    setup_target_compiler_and_linker_env(&mut o, &tt, "clang");
    setup_cmake_env(&mut o, &tt, "/t.cmake".to_string());
    let keys: Vec<&str> = o.iter().map(|(k, _)| k.as_str()).collect();
    assert_eq!(
        keys,
        vec![
            "TARGET_CC",
            "TARGET_CXX",
            "CC_aarch64_pc_windows_msvc",
            "CXX_aarch64_pc_windows_msvc",
            "TARGET_AR",
            "AR_aarch64_pc_windows_msvc",
            "CARGO_TARGET_AARCH64_PC_WINDOWS_MSVC_LINKER",
            "CMAKE_GENERATOR",
            "CMAKE_SYSTEM_NAME",
            "CMAKE_TOOLCHAIN_FILE_aarch64_pc_windows_msvc",
        ]
    );
    assert_eq!(value(&o, "CMAKE_TOOLCHAIN_FILE_aarch64_pc_windows_msvc"), Some("/t.cmake"));
    assert_eq!(
        cargo_xwin::triple::runner_var_from_upper("I686-PC-WINDOWS-MSVC"),
        "CARGO_TARGET_I686_PC_WINDOWS_MSVC_RUNNER"
    );
}
