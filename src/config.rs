//! Settings of the token-usage analyzer that decorates the editor, and the
//! rule that decides whether a directory is worth scanning.
use vstd::prelude::*;

use crate::text::{has_prefix, starts_with};

verus! {

/// Settings of the token-usage analyzer.
#[derive(Debug, Clone)]
pub struct AnalyzerSettings {
    /// Whether analysis runs automatically.
    pub enabled: bool,
    /// Longest analysis in milliseconds (0: no limit).
    pub timeout_ms: u64,
    /// Most files scanned (0: no limit).
    pub max_files: usize,
    /// Fewest path components a directory needs to be analyzed.
    pub min_path_depth: usize,
    /// Directory names skipped, besides the analyzer's own.
    pub ignore_dirs: Vec<String>,
    /// Paths never analyzed automatically, matched at either end.
    pub skip_paths: Vec<String>,
    /// File extensions to include (empty: the analyzer's defaults).
    pub extensions: Vec<String>,
    /// Whether hidden files are scanned.
    pub include_hidden: bool,
}

/// The whole configuration.
#[derive(Debug, Clone)]
pub struct Config {
    pub analyzer: AnalyzerSettings,
}

/// The directory names skipped by default.
pub open spec fn default_ignore_dirs() -> Seq<Seq<char>> {
    seq![
        "node_modules"@,
        ".npm"@,
        ".pnpm-store"@,
        "bower_components"@,
        ".venv"@,
        "venv"@,
        "__pycache__"@,
        ".pytest_cache"@,
        ".mypy_cache"@,
        ".tox"@,
        "site-packages"@,
        "target"@,
        "vendor"@,
        ".gradle"@,
        ".m2"@,
        ".idea"@,
        ".vscode"@,
        ".vs"@,
        "build"@,
        "dist"@,
        "out"@,
        "_build"@,
        ".cache"@,
        ".parcel-cache"@,
        ".next"@,
        ".nuxt"@,
        ".git"@,
        ".svn"@,
        ".hg"@,
        "deps"@,
        "_deps"@,
        "coverage"@,
        ".coverage"@,
        "htmlcov"@,
        ".eggs"@,
        "*.egg-info"@,
    ]
}

/// The views of a list of strings.
pub open spec fn string_texts(v: Seq<String>) -> Seq<Seq<char>> {
    v.map_values(|s: String| s@)
}

/// `t` ends with `p`.
pub open spec fn has_suffix(t: Seq<char>, p: Seq<char>) -> bool {
    p.len() <= t.len() && t.skip(t.len() - p.len()) == p
}

/// The number of components of a path, as `Path::components` counts them.
pub uninterp spec fn component_count(p: Seq<char>) -> nat;

/// Whether two paths have the same components, as `Path`'s `==` decides.
pub uninterp spec fn same_path(a: Seq<char>, b: Seq<char>) -> bool;

/// Relies on `Path::components`: the count depends on the text alone.
#[verifier::external_body]
fn path_depth(p: &str) -> (r: usize)
    ensures
        r == component_count(p@),
{
    std::path::Path::new(p).components().count()
}

/// Relies on `Path`'s `==`: component-wise comparison.
#[verifier::external_body]
fn paths_equal(a: &str, b: &str) -> (r: bool)
    ensures
        r == same_path(a@, b@),
{
    std::path::Path::new(a) == std::path::Path::new(b)
}

/// Tells whether `t` ends with `p`.
pub fn ends_with(t: &str, p: &str) -> (r: bool)
    ensures
        r == has_suffix(t@, p@),
{
    let x = crate::text::chars_of(t);
    let y = crate::text::chars_of(p);
    if y.len() > x.len() {
        return false;
    }
    let n: usize = x.len();
    let off = n - y.len();
    let mut i: usize = 0;
    while i < y.len()
        invariant
            n == x@.len(),
            x@ == t@,
            y@ == p@,
            off + y@.len() == x@.len(),
            i <= y@.len(),
            forall|j: int| 0 <= j < i ==> x@[off + j] == y@[j],
        decreases y@.len() - i,
    {
        if x[off + i] != y[i] {
            proof {
                assert(x@.skip(off as int)[i as int] != y@[i as int]);
            }
            return false;
        }
        i = i + 1;
    }
    proof {
        assert(x@.skip(off as int) =~= y@);
    }
    true
}

/// A directory is analyzed when analysis is on, the path is deep enough,
/// no skip path starts or ends it, and it is not the home directory.
pub open spec fn analyze_allowed(s: AnalyzerSettings, path: Seq<char>, home: Option<Seq<char>>) -> bool {
    &&& s.enabled
    &&& component_count(path) >= s.min_path_depth
    &&& forall|i: int|
        0 <= i < s.skip_paths@.len() ==> !has_prefix(path, (#[trigger] s.skip_paths@[i])@)
            && !has_suffix(path, s.skip_paths@[i]@)
    &&& !(home matches Some(h) && same_path(path, h))
}

impl AnalyzerSettings {
    /// The default settings.
    pub fn default() -> (r: Self)
        ensures
            r.enabled,
            r.timeout_ms == 500,
            r.max_files == 1000,
            r.min_path_depth == 4,
            string_texts(r.ignore_dirs@) == default_ignore_dirs(),
            r.skip_paths@.len() == 0,
            r.extensions@.len() == 0,
            !r.include_hidden,
    {
        let mut v: Vec<String> = Vec::new();
        v.push(String::from_str("node_modules"));
        v.push(String::from_str(".npm"));
        v.push(String::from_str(".pnpm-store"));
        v.push(String::from_str("bower_components"));
        v.push(String::from_str(".venv"));
        v.push(String::from_str("venv"));
        v.push(String::from_str("__pycache__"));
        v.push(String::from_str(".pytest_cache"));
        v.push(String::from_str(".mypy_cache"));
        v.push(String::from_str(".tox"));
        v.push(String::from_str("site-packages"));
        v.push(String::from_str("target"));
        v.push(String::from_str("vendor"));
        v.push(String::from_str(".gradle"));
        v.push(String::from_str(".m2"));
        v.push(String::from_str(".idea"));
        v.push(String::from_str(".vscode"));
        v.push(String::from_str(".vs"));
        v.push(String::from_str("build"));
        v.push(String::from_str("dist"));
        v.push(String::from_str("out"));
        v.push(String::from_str("_build"));
        v.push(String::from_str(".cache"));
        v.push(String::from_str(".parcel-cache"));
        v.push(String::from_str(".next"));
        v.push(String::from_str(".nuxt"));
        v.push(String::from_str(".git"));
        v.push(String::from_str(".svn"));
        v.push(String::from_str(".hg"));
        v.push(String::from_str("deps"));
        v.push(String::from_str("_deps"));
        v.push(String::from_str("coverage"));
        v.push(String::from_str(".coverage"));
        v.push(String::from_str("htmlcov"));
        v.push(String::from_str(".eggs"));
        v.push(String::from_str("*.egg-info"));
        proof {
            assert(string_texts(v@) =~= default_ignore_dirs());
        }
        AnalyzerSettings {
            enabled: true,
            timeout_ms: 500,
            max_files: 1000,
            min_path_depth: 4,
            ignore_dirs: v,
            skip_paths: Vec::new(),
            extensions: Vec::new(),
            include_hidden: false,
        }
    }

    /// Whether the directory `path` should be analyzed; `home` is the
    /// user's home directory, if known.
    pub fn should_analyze(&self, path: &str, home: Option<&str>) -> (r: bool)
        ensures
            r == analyze_allowed(*self, path@, match home {
                Some(h) => Some(h@),
                None => None,
            }),
    {
        if !self.enabled {
            return false;
        }
        if path_depth(path) < self.min_path_depth {
            return false;
        }
        let mut i: usize = 0;
        while i < self.skip_paths.len()
            invariant
                i <= self.skip_paths@.len(),
                forall|j: int|
                    0 <= j < i ==> !has_prefix(path@, (#[trigger] self.skip_paths@[j])@) && !has_suffix(
                        path@,
                        self.skip_paths@[j]@,
                    ),
            decreases self.skip_paths@.len() - i,
        {
            let skip = self.skip_paths[i].as_str();
            if starts_with(path, skip) || ends_with(path, skip) {
                return false;
            }
            i = i + 1;
        }
        match home {
            Some(h) => !paths_equal(path, h),
            None => true,
        }
    }
}

impl Config {
    /// The default configuration.
    pub fn default() -> (r: Self)
        ensures
            r.analyzer.enabled,
            r.analyzer.timeout_ms == 500,
            r.analyzer.max_files == 1000,
            r.analyzer.min_path_depth == 4,
            string_texts(r.analyzer.ignore_dirs@) == default_ignore_dirs(),
            r.analyzer.skip_paths@.len() == 0,
            r.analyzer.extensions@.len() == 0,
            !r.analyzer.include_hidden,
    {
        Config { analyzer: AnalyzerSettings::default() }
    }
}

} // verus!
