//! The configuration a build is prepared from.
use vstd::prelude::*;

use crate::text::{before_first, is_white_space, no_white_space, owned, prefix_before};

verus! {

/// The cross compiler strategy: `clang-cl`, which mimics the MSVC driver over
/// the CRT/SDK cache, or `clang`, the vendor-neutral driver over a prebuilt
/// MSVC sysroot.
#[derive(Clone, Copy, Debug, PartialEq, Eq, Structural)]
pub enum CrossCompiler {
    /// clang-cl backend
    ClangCl,
    /// clang backend
    Clang,
}

impl Default for CrossCompiler {
    fn default() -> (r: CrossCompiler)
        ensures
            r == CrossCompiler::ClangCl,
    {
        CrossCompiler::ClangCl
    }
}

/// An architecture of the CRT/SDK payloads.
#[derive(Clone, Copy, Debug, PartialEq, Eq, Structural)]
pub enum Arch {
    X86,
    X86_64,
    Aarch,
    Aarch64,
}

impl Arch {
    /// The name of the architecture in the cache's download marker.
    pub open spec fn name(self) -> Seq<char> {
        match self {
            Arch::X86 => "x86"@,
            Arch::X86_64 => "x86_64"@,
            Arch::Aarch => "aarch"@,
            Arch::Aarch64 => "aarch64"@,
        }
    }

    /// The name of the architecture.
    pub fn as_str(&self) -> (r: &'static str)
        ensures
            r@ == self.name(),
    {
        match self {
            Arch::X86 => "x86",
            Arch::X86_64 => "x86_64",
            Arch::Aarch => "aarch",
            Arch::Aarch64 => "aarch64",
        }
    }

    /// Every name is a single non-empty word.
    pub proof fn lemma_name_is_word(self)
        ensures
            self.name().len() > 0,
            no_white_space(self.name()),
    {
        reveal_strlit("x86");
        reveal_strlit("x86_64");
        reveal_strlit("aarch");
        reveal_strlit("aarch64");
        assert forall|i: int| 0 <= i < self.name().len() implies !is_white_space(
            #[trigger] self.name()[i],
        ) by {}
    }
}

/// A variant of the CRT/SDK payloads.
#[derive(Clone, Copy, Debug, PartialEq, Eq, Structural)]
pub enum Variant {
    Desktop,
    OneCore,
    Spectre,
}

impl Variant {
    /// The name of the variant.
    pub open spec fn name(self) -> Seq<char> {
        match self {
            Variant::Desktop => "desktop"@,
            Variant::OneCore => "onecore"@,
            Variant::Spectre => "spectre"@,
        }
    }

    /// The name of the variant.
    pub fn as_str(&self) -> (r: &'static str)
        ensures
            r@ == self.name(),
    {
        match self {
            Variant::Desktop => "desktop",
            Variant::OneCore => "onecore",
            Variant::Spectre => "spectre",
        }
    }
}

/// The selection of artifacts and the strategy to prepare a build with.
///
/// The cache records architectures only: a different `xwin_version`,
/// `xwin_sdk_version` or `xwin_crt_version` reuses what an earlier selection
/// downloaded, and takes effect once the cache directory is cleared.
pub struct XWinOptions {
    /// The cross compiler to use.
    pub cross_compiler: CrossCompiler,
    /// The cache directory; `None` for the platform's default.
    pub xwin_cache_dir: Option<String>,
    /// The architectures to include in the CRT/SDK.
    pub xwin_arch: Vec<Arch>,
    /// The variants to include.
    pub xwin_variant: Vec<Variant>,
    /// The manifest version: a major version (15, 16, 17) or `<major>.<minor>`.
    pub xwin_version: String,
    /// The SDK version to use instead of the newest in the manifest.
    pub xwin_sdk_version: Option<String>,
    /// The CRT version to use instead of the newest in the manifest.
    pub xwin_crt_version: Option<String>,
    /// Whether to include the Active Template Library.
    pub xwin_include_atl: bool,
    /// Whether to include debug libraries.
    pub xwin_include_debug_libs: bool,
    /// Whether to include debug symbols (PDBs).
    pub xwin_include_debug_symbols: bool,
}

impl XWinOptions {
    /// The names of the selected architectures, in order.
    pub open spec fn arch_names(&self) -> Seq<Seq<char>> {
        self.xwin_arch@.map_values(|a: Arch| a.name())
    }

    /// The selected architecture names are non-empty words without white
    /// space, as the cache's marker file needs them.
    pub proof fn lemma_arch_names_are_words(&self)
        ensures
            crate::cache::all_words(self.arch_names()),
    {
        assert forall|i: int| 0 <= i < self.arch_names().len() implies #[trigger] self.arch_names()[
            i
        ].len() > 0 && no_white_space(self.arch_names()[i]) by {
            self.xwin_arch@[i].lemma_name_is_word();
        }
    }

    /// The names of the selected architectures, in order.
    pub fn arch_names_vec(&self) -> (r: Vec<String>)
        ensures
            r.deep_view() == self.arch_names(),
    {
        let mut r: Vec<String> = Vec::new();
        let mut i: usize = 0;
        while i < self.xwin_arch.len()
            invariant
                i <= self.xwin_arch.len(),
                r.deep_view() =~= self.arch_names().take(i as int),
            decreases self.xwin_arch.len() - i,
        {
            let ghost prev = r.deep_view();
            let name = owned(self.xwin_arch[i].as_str());
            r.push(name);
            assert(r.deep_view() =~= prev.push(name@));
            assert(self.arch_names().take(i + 1) =~= self.arch_names().take(i as int).push(
                self.xwin_arch@[i as int].name(),
            ));
            i = i + 1;
        }
        assert(self.arch_names().take(self.xwin_arch.len() as int) =~= self.arch_names());
        r
    }
}

/// `c` is an ASCII decimal digit.
pub open spec fn is_digit(c: char) -> bool {
    '0' <= c && c <= '9'
}

/// The value of a string of decimal digits.
pub open spec fn decimal_value(s: Seq<char>) -> int
    decreases s.len(),
{
    if s.len() == 0 {
        0
    } else {
        decimal_value(s.drop_last()) * 10 + (s.last() as int - '0' as int)
    }
}

/// The major component of a version: what precedes its first `.`, or all of it.
pub open spec fn major_component(v: Seq<char>) -> Seq<char> {
    match before_first(v, '.') {
        Some(m) => m,
        None => v,
    }
}

/// The major version a version string names, when its major component is a
/// non-empty string of decimal digits whose value fits in a `u8`.
pub open spec fn manifest_major(v: Seq<char>) -> Option<u8> {
    let m = major_component(v);
    if m.len() > 0 && (forall|i: int| 0 <= i < m.len() ==> is_digit(#[trigger] m[i]))
        && decimal_value(m) <= 255 {
        Some(decimal_value(m) as u8)
    } else {
        None
    }
}

impl XWinOptions {
    /// The major version of the manifest to retrieve: `16` for `16` and for
    /// `16.11`; `None` when the version does not start with one.
    pub fn manifest_major(&self) -> (r: Option<u8>)
        ensures
            r == manifest_major(self.xwin_version@),
    {
        let v = self.xwin_version.as_str();
        let major = match prefix_before(v, '.') {
            Some(m) => m,
            None => owned(v),
        };
        let m = major.as_str();
        let n = m.unicode_len();
        if n == 0 {
            return None;
        }
        let mut value: u32 = 0;
        let mut i: usize = 0;
        while i < n
            invariant
                n == m@.len(),
                m@ == major_component(self.xwin_version@),
                i <= n,
                forall|j: int| 0 <= j < i ==> is_digit(#[trigger] m@[j]),
                value == decimal_value(m@.take(i as int)),
                value <= 255,
            decreases n - i,
        {
            let c = m.get_char(i);
            assert(m@.take(i + 1).drop_last() =~= m@.take(i as int));
            if !('0' <= c && c <= '9') {
                return None;
            }
            let d = (c as u32) - ('0' as u32);
            let next = value * 10 + d;
            if next > 255 {
                proof {
                    if forall|j: int| 0 <= j < m@.len() ==> is_digit(#[trigger] m@[j]) {
                        lemma_decimal_value_grows(m@, i as int + 1);
                    }
                }
                return None;
            }
            value = next;
            i = i + 1;
        }
        assert(m@.take(n as int) =~= m@);
        Some(value as u8)
    }
}

/// The value of a digit string is at least that of each of its prefixes.
proof fn lemma_decimal_value_grows(s: Seq<char>, k: int)
    requires
        0 <= k <= s.len(),
        forall|i: int| 0 <= i < s.len() ==> is_digit(#[trigger] s[i]),
    ensures
        decimal_value(s) >= decimal_value(s.take(k)),
    decreases s.len() - k,
{
    if k < s.len() {
        lemma_decimal_value_grows(s, k + 1);
        assert(s.take(k + 1).drop_last() =~= s.take(k));
        assert(decimal_value(s.take(k)) >= 0) by {
            lemma_decimal_value_nonneg(s.take(k));
        }
    } else {
        assert(s.take(k) =~= s);
    }
}

proof fn lemma_decimal_value_nonneg(s: Seq<char>)
    requires
        forall|i: int| 0 <= i < s.len() ==> is_digit(#[trigger] s[i]),
    ensures
        decimal_value(s) >= 0,
    decreases s.len(),
{
    if s.len() > 0 {
        assert forall|i: int| 0 <= i < s.drop_last().len() implies is_digit(
            #[trigger] s.drop_last()[i],
        ) by {
            assert(s.drop_last()[i] == s[i]);
        }
        lemma_decimal_value_nonneg(s.drop_last());
        assert(is_digit(s[s.len() - 1]));
    }
}

impl Default for XWinOptions {
    fn default() -> (r: XWinOptions)
        ensures
            r.cross_compiler == CrossCompiler::ClangCl,
            r.xwin_cache_dir is None,
            r.xwin_arch@ == seq![Arch::X86_64, Arch::Aarch64],
            r.xwin_variant@ == seq![Variant::Desktop],
            r.xwin_version@ == "16"@,
            r.xwin_sdk_version is None,
            r.xwin_crt_version is None,
            !r.xwin_include_atl,
            !r.xwin_include_debug_libs,
            !r.xwin_include_debug_symbols,
    {
        XWinOptions {
            cross_compiler: CrossCompiler::ClangCl,
            xwin_cache_dir: None,
            xwin_arch: vec![Arch::X86_64, Arch::Aarch64],
            xwin_variant: vec![Variant::Desktop],
            xwin_version: owned("16"),
            xwin_sdk_version: None,
            xwin_crt_version: None,
            xwin_include_atl: false,
            xwin_include_debug_libs: false,
            xwin_include_debug_symbols: false,
        }
    }
}

/// The selection for pre-caching the MSVC sysroot of the `clang` backend.
pub struct CacheWindowsMsvcSysroot {
    /// The cache directory; `None` for the platform's default.
    pub cache_dir: Option<String>,
}

} // verus!
