//! Target triples and the names derived from them.
use vstd::prelude::*;

use crate::text::{before_first, owned, prefix_before, replace_all, replace_str, str_eq};

verus! {

/// What `str::to_lowercase` returns for a string.
pub uninterp spec fn lower_of(s: Seq<char>) -> Seq<char>;

/// What `str::to_uppercase` returns for a string.
pub uninterp spec fn upper_of(s: Seq<char>) -> Seq<char>;

/// Relies on `str::to_lowercase`: the result depends on the characters alone.
#[verifier::external_body]
fn lowercase(s: &str) -> (r: String)
    ensures
        r@ == lower_of(s@),
{
    s.to_lowercase()
}

/// Relies on `str::to_uppercase`: the result depends on the characters alone.
#[verifier::external_body]
fn uppercase(s: &str) -> (r: String)
    ensures
        r@ == upper_of(s@),
{
    s.to_uppercase()
}

/// The architecture component of a triple: what precedes its first `-`.
pub open spec fn arch_of(t: Seq<char>) -> Option<Seq<char>> {
    before_first(t, '-')
}

/// `s` with each `-` turned into `_`, the form environment variable names use.
pub open spec fn underscored(s: Seq<char>) -> Seq<char> {
    replace_all(s, seq!['-'], seq!['_'])
}

/// The per-triple suffix of environment variable names (`x86_64_pc_windows_msvc`).
pub open spec fn env_form(t: Seq<char>) -> Seq<char> {
    underscored(lower_of(t))
}

/// The upper-case per-triple infix of cargo's variable names
/// (`CARGO_TARGET_X86_64_PC_WINDOWS_MSVC_LINKER`).
pub open spec fn env_form_upper(t: Seq<char>) -> Seq<char> {
    upper_of(env_form(t))
}

/// The triple without its `pc` vendor (`x86_64-windows-msvc`).
pub open spec fn no_vendor_form(t: Seq<char>) -> Seq<char> {
    replace_all(t, "-pc-"@, "-"@)
}

/// The triple with the `unknown` vendor (`x86_64-unknown-windows-msvc`).
pub open spec fn unknown_vendor_form(t: Seq<char>) -> Seq<char> {
    replace_all(t, "-pc-"@, "-unknown-"@)
}

/// The architecture directory name in the SDK layout: `i586` and `i686`
/// collapse to `x86`.
pub open spec fn sdk_arch(arch: Seq<char>) -> Seq<char> {
    if arch == "i586"@ || arch == "i686"@ {
        "x86"@
    } else {
        arch
    }
}

/// The processor name CMake uses for an architecture.
pub open spec fn cmake_processor(arch: Seq<char>) -> Seq<char> {
    if arch == "i586"@ || arch == "i686"@ {
        "X86"@
    } else if arch == "x86_64"@ {
        "AMD64"@
    } else if arch == "aarch64"@ {
        "ARM64"@
    } else if arch == "arm64ec"@ {
        "ARM64EC"@
    } else {
        arch
    }
}

/// A target triple with the names derived from it that the environment and
/// the toolchain descriptor use.
pub struct TargetTriple {
    /// The triple as given (`x86_64-pc-windows-msvc`).
    pub triple: String,
    /// Its architecture component (`x86_64`).
    pub arch: String,
    /// Lower case, `-` as `_` (`x86_64_pc_windows_msvc`).
    pub env_name: String,
    /// `env_name` in upper case (`X86_64_PC_WINDOWS_MSVC`).
    pub env_name_upper: String,
}

/// The names of a target triple, as sequences of characters.
pub struct TripleView {
    pub triple: Seq<char>,
    pub arch: Seq<char>,
    pub env_name: Seq<char>,
    pub env_name_upper: Seq<char>,
}

/// The names derived from the triple `t`.
pub open spec fn triple_view(t: Seq<char>) -> TripleView {
    TripleView {
        triple: t,
        arch: arch_of(t).unwrap(),
        env_name: env_form(t),
        env_name_upper: env_form_upper(t),
    }
}

impl View for TargetTriple {
    type V = TripleView;

    open spec fn view(&self) -> TripleView {
        TripleView {
            triple: self.triple@,
            arch: self.arch@,
            env_name: self.env_name@,
            env_name_upper: self.env_name_upper@,
        }
    }
}

impl TargetTriple {
    /// The triple's names are those derived from `t`.
    pub open spec fn derived_from(&self, t: Seq<char>) -> bool {
        arch_of(t) is Some && self@ == triple_view(t)
    }

    /// Parses a triple; `None` when it has no architecture component (no `-`).
    pub fn parse(t: &str) -> (r: Option<TargetTriple>)
        ensures
            r is Some <==> arch_of(t@) is Some,
            r matches Some(tt) ==> tt.derived_from(t@),
    {
        match prefix_before(t, '-') {
            None => None,
            Some(arch) => {
                let lower = lowercase(t);
                proof {
                    reveal_strlit("-");
                    reveal_strlit("_");
                    assert("-"@ =~= seq!['-']);
                    assert("_"@ =~= seq!['_']);
                }
                let env_name = replace_str(lower.as_str(), "-", "_");
                let env_name_upper = uppercase(env_name.as_str());
                Some(TargetTriple { triple: owned(t), arch, env_name, env_name_upper })
            },
        }
    }

    /// The triple without its `pc` vendor.
    pub fn no_vendor(&self) -> (r: String)
        ensures
            r@ == no_vendor_form(self.triple@),
    {
        proof {
            reveal_strlit("-pc-");
        }
        replace_str(self.triple.as_str(), "-pc-", "-")
    }

    /// The triple with the `unknown` vendor.
    pub fn unknown_vendor(&self) -> (r: String)
        ensures
            r@ == unknown_vendor_form(self.triple@),
    {
        proof {
            reveal_strlit("-pc-");
        }
        replace_str(self.triple.as_str(), "-pc-", "-unknown-")
    }

    /// The architecture directory name in the SDK layout.
    pub fn sdk_arch(&self) -> (r: String)
        ensures
            r@ == sdk_arch(self.arch@),
    {
        let a = self.arch.as_str();
        if str_eq(a, "i586") || str_eq(a, "i686") {
            owned("x86")
        } else {
            owned(a)
        }
    }

    /// The processor name CMake uses for the triple's architecture.
    pub fn cmake_processor(&self) -> (r: String)
        ensures
            r@ == cmake_processor(self.arch@),
    {
        let a = self.arch.as_str();
        if str_eq(a, "i586") || str_eq(a, "i686") {
            owned("X86")
        } else if str_eq(a, "x86_64") {
            owned("AMD64")
        } else if str_eq(a, "aarch64") {
            owned("ARM64")
        } else if str_eq(a, "arm64ec") {
            owned("ARM64EC")
        } else {
            owned(a)
        }
    }
}

/// The name of cargo's runner variable for a triple
/// (`CARGO_TARGET_X86_64_PC_WINDOWS_MSVC_RUNNER`).
pub open spec fn runner_var(t: Seq<char>) -> Seq<char> {
    runner_var_of_upper(upper_of(t))
}

/// The name of cargo's runner variable, given the triple in upper case.
pub open spec fn runner_var_of_upper(upper: Seq<char>) -> Seq<char> {
    "CARGO_TARGET_"@ + underscored(upper) + "_RUNNER"@
}

/// The name of cargo's runner variable, given the triple in upper case.
pub fn runner_var_from_upper(upper: &str) -> (r: String)
    ensures
        r@ == runner_var_of_upper(upper@),
{
    proof {
        reveal_strlit("-");
        reveal_strlit("_");
        assert("-"@ =~= seq!['-']);
        assert("_"@ =~= seq!['_']);
    }
    let mut r = owned("CARGO_TARGET_");
    r.append(replace_str(upper, "-", "_").as_str());
    r.append("_RUNNER");
    r
}

/// The name of cargo's runner variable for `t`.
pub fn runner_var_name(t: &str) -> (r: String)
    ensures
        r@ == runner_var(t@),
{
    let upper = uppercase(t);
    runner_var_from_upper(upper.as_str())
}

/// Whether the triple names an MSVC environment, the targets this crate
/// prepares.
pub fn is_msvc_target(t: &str) -> (r: bool)
    ensures
        r == crate::text::contains(t@, "msvc"@),
{
    crate::text::contains_str(t, "msvc")
}

} // verus!
