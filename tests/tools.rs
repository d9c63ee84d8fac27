use cargo_xwin::options::{Arch, CrossCompiler, Variant, XWinOptions};
use cargo_xwin::tools::{
    choose_clang, export_line, extend_search_path, is_static_crt_enabled, llvm_tool_links,
    parse_config_target, plan_tool, resolve_targets, wine_runner_overlay, ToolAction,
};

fn strings(xs: &[&str]) -> Vec<String> {
    xs.iter().map(|s| s.to_string()).collect()
}

#[test]
fn test_is_static_crt_enabled_env_var() {
    let result = is_static_crt_enabled(Some("-C target-feature=+crt-static".to_string()), &vec![]);
    assert!(result);
    let result = is_static_crt_enabled(Some("-C opt-level=3".to_string()), &vec![]);
    assert!(!result);
}

#[test]
fn test_is_static_crt_enabled_no_flags() {
    let result = is_static_crt_enabled(None, &vec![]);
    assert!(!result);
}

#[test]
fn static_crt_from_configuration() {
    assert!(is_static_crt_enabled(None, &strings(&["-C", "target-feature=+crt-static"])));
    assert!(!is_static_crt_enabled(None, &strings(&["-C", "target-feature=-crt-static"])));
}

#[test]
fn tool_plans() {
    assert_eq!(
        llvm_tool_links(),
        vec![
            ("rust-lld".to_string(), "lld-link".to_string()),
            ("llvm-ar".to_string(), "llvm-lib".to_string()),
            ("llvm-ar".to_string(), "llvm-dlltool".to_string()),
        ]
    );
    assert!(matches!(plan_tool("lld-link", true, true, false), ToolAction::Nothing));
    assert!(matches!(plan_tool("lld-link", false, false, false), ToolAction::Nothing));
    match plan_tool("lld-link", false, true, true) {
        ToolAction::Link { file_name } => assert_eq!(file_name, "lld-link.exe"),
        ToolAction::Nothing => panic!("expected a link"),
    }
    match plan_tool("clang-cl", false, true, false) {
        ToolAction::Link { file_name } => assert_eq!(file_name, "clang-cl"),
        ToolAction::Nothing => panic!("expected a link"),
    }
}

#[test]
fn clang_choice() {
    assert_eq!(choose_clang(Some("/usr/bin/clang".into()), Some("/x/clang".into()), false).as_deref(), Some("/usr/bin/clang"));
    assert_eq!(choose_clang(Some("/usr/bin/clang".into()), Some("/x/clang".into()), true).as_deref(), Some("/x/clang"));
    assert_eq!(choose_clang(Some("/opt/clang".into()), None, true).as_deref(), Some("/opt/clang"));
    assert_eq!(choose_clang(None, None, true), None);
}

#[test]
fn search_path() {
    let p = strings(&["/usr/bin", "/bin"]);
    assert_eq!(extend_search_path(&p, None, "/cache"), strings(&["/usr/bin", "/bin", "/cache"]));
    assert_eq!(
        extend_search_path(&p, Some("/opt/llvm".into()), "/cache"),
        strings(&["/opt/llvm", "/usr/bin", "/bin", "/cache"])
    );
    assert_eq!(
        extend_search_path(&p, Some("/bin".into()), "/cache"),
        strings(&["/usr/bin", "/bin", "/cache"])
    );
}

#[test]
fn config_target_parsing() {
    assert_eq!(parse_config_target("\"x86_64-pc-windows-msvc\"\n"), "x86_64-pc-windows-msvc");
    assert_eq!(parse_config_target("  aarch64-pc-windows-msvc "), "aarch64-pc-windows-msvc");
    assert_eq!(parse_config_target("\n"), "");
}

#[test]
fn target_resolution() {
    let (t, arg) = resolve_targets(&strings(&["a-b"]), Some("c-d".into()));
    assert_eq!(t, strings(&["a-b"]));
    assert_eq!(arg, None);
    let (t, arg) = resolve_targets(&vec![], Some("c-d".into()));
    assert_eq!(t, strings(&["c-d"]));
    assert_eq!(arg.as_deref(), Some("c-d"));
    let (t, arg) = resolve_targets(&vec![], None);
    assert!(t.is_empty() && arg.is_none());
}

#[test]
fn wine_runner() {
    let o = wine_runner_overlay(&strings(&["x86_64-pc-windows-msvc", "x86_64-unknown-linux-gnu"]), &vec![]);
    assert_eq!(
        o,
        vec![
            ("WINEDEBUG".to_string(), "-all".to_string()),
            ("CARGO_TARGET_X86_64_PC_WINDOWS_MSVC_RUNNER".to_string(), "wine".to_string()),
        ]
    );
    let o = wine_runner_overlay(&strings(&["x86_64-pc-windows-msvc"]), &strings(&["WINEDEBUG"]));
    assert_eq!(o.len(), 1);
    assert_eq!(export_line("A", "b c"), "export A=\"b c\";");
}

#[test]
fn default_options() {
    let o = XWinOptions::default();
    assert_eq!(o.cross_compiler, CrossCompiler::ClangCl);
    assert_eq!(o.xwin_arch, vec![Arch::X86_64, Arch::Aarch64]);
    assert_eq!(o.xwin_variant, vec![Variant::Desktop]);
    assert_eq!(o.xwin_version, "16");
    assert_eq!(o.arch_names_vec(), strings(&["x86_64", "aarch64"]));
    assert_eq!(Arch::Aarch.as_str(), "aarch");
    assert_eq!(Variant::OneCore.as_str(), "onecore");
    assert_eq!(CrossCompiler::default(), CrossCompiler::ClangCl);
}

#[test]
fn manifest_major_version() {
    let mut o = XWinOptions::default();
    assert_eq!(o.manifest_major(), Some(16));
    o.xwin_version = "17.4".to_string();
    assert_eq!(o.manifest_major(), Some(17));
    o.xwin_version = "256".to_string();
    assert_eq!(o.manifest_major(), None);
    o.xwin_version = "1a".to_string();
    assert_eq!(o.manifest_major(), None);
    o.xwin_version = ".5".to_string();
    assert_eq!(o.manifest_major(), None);
    o.xwin_version = "255".to_string();
    assert_eq!(o.manifest_major(), Some(255));
}
