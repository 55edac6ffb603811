//! Fixed tables and decisions behind the side-effect cleanups: the
//! well-known cache subdirectories, the editor swap directory, and the
//! modules directory.

use vstd::prelude::*;
use crate::targets::RunMode;

verus! {

/// What the cache-cleanup side effect does for a run.
#[derive(Clone, Copy, Debug, PartialEq, Eq, Structural)]
pub enum CachePlan {
    Skip,
    Fatal,
    CleanAll,
}

/// The cache-cleanup decision: nothing unless the run cleans; a missing
/// cache directory is then fatal; otherwise every table entry is removed.
pub open spec fn spec_cache_plan(mode: RunMode, cache_dir_exists: bool) -> CachePlan {
    if mode != RunMode::Clean {
        CachePlan::Skip
    } else if !cache_dir_exists {
        CachePlan::Fatal
    } else {
        CachePlan::CleanAll
    }
}

/// Decide the cache-cleanup action from the run mode and whether the
/// resolved cache directory exists.
pub fn cache_plan(mode: RunMode, cache_dir_exists: bool) -> (p: CachePlan)
    ensures
        p == spec_cache_plan(mode, cache_dir_exists),
{
    if mode != RunMode::Clean {
        CachePlan::Skip
    } else if !cache_dir_exists {
        CachePlan::Fatal
    } else {
        CachePlan::CleanAll
    }
}

/// One well-known cache: the subdirectory name under the cache directory
/// and the label printed when it is removed.
pub struct CacheEntry {
    pub dir: String,
    pub label: String,
}

/// The views of a sequence of cache entries, as pairs of character
/// sequences.
pub open spec fn cache_views(entries: Seq<CacheEntry>) -> Seq<(Seq<char>, Seq<char>)> {
    Seq::new(entries.len(), |i: int| (entries[i].dir@, entries[i].label@))
}

/// The fixed table of well-known per-application cache subdirectories.
pub open spec fn spec_cache_table() -> Seq<(Seq<char>, Seq<char>)> {
    seq![
        ("go-build"@, "go build"@),
        ("pylint"@, "pylint"@),
        ("typescript"@, "typescript"@),
        ("yarn"@, "yarn"@),
        ("chromium"@, "chromium"@),
        ("pip"@, "pip"@),
        ("mozilla"@, "firefox"@),
        ("expo"@, "RN expo"@),
        ("JetBrains"@, "JetBrains"@),
        ("rollup-plugin-rust"@, "rollup rust"@),
        ("nim"@, "nim"@),
        ("eas-cli"@, "eas"@),
        ("deno"@, "deno"@),
        ("esbuild"@, "esbuild"@),
    ]
}

/// Build the fixed cache table.
pub fn cache_table() -> (t: Vec<CacheEntry>)
    ensures
        cache_views(t@) == spec_cache_table(),
{
    let mut t: Vec<CacheEntry> = Vec::new();
    t.push(CacheEntry { dir: "go-build".to_owned(), label: "go build".to_owned() });
    t.push(CacheEntry { dir: "pylint".to_owned(), label: "pylint".to_owned() });
    t.push(CacheEntry { dir: "typescript".to_owned(), label: "typescript".to_owned() });
    t.push(CacheEntry { dir: "yarn".to_owned(), label: "yarn".to_owned() });
    t.push(CacheEntry { dir: "chromium".to_owned(), label: "chromium".to_owned() });
    t.push(CacheEntry { dir: "pip".to_owned(), label: "pip".to_owned() });
    t.push(CacheEntry { dir: "mozilla".to_owned(), label: "firefox".to_owned() });
    t.push(CacheEntry { dir: "expo".to_owned(), label: "RN expo".to_owned() });
    t.push(CacheEntry { dir: "JetBrains".to_owned(), label: "JetBrains".to_owned() });
    t.push(CacheEntry { dir: "rollup-plugin-rust".to_owned(), label: "rollup rust".to_owned() });
    t.push(CacheEntry { dir: "nim".to_owned(), label: "nim".to_owned() });
    t.push(CacheEntry { dir: "eas-cli".to_owned(), label: "eas".to_owned() });
    t.push(CacheEntry { dir: "deno".to_owned(), label: "deno".to_owned() });
    t.push(CacheEntry { dir: "esbuild".to_owned(), label: "esbuild".to_owned() });
    proof {
        assert(cache_views(t@) =~~= spec_cache_table());
    }
    t
}

/// What the editor-swap side effect does for a run.
#[derive(Clone, Copy, Debug, PartialEq, Eq, Structural)]
pub enum SwapPlan {
    Nothing,
    ReportFirst,
    DeleteAll,
}

/// The swap-directory decision: with no files there is nothing to do; a
/// reporting run names only the first file; a cleaning run deletes each.
pub open spec fn spec_swap_plan(mode: RunMode, file_count: nat) -> SwapPlan {
    if file_count == 0 {
        SwapPlan::Nothing
    } else if mode != RunMode::Clean {
        SwapPlan::ReportFirst
    } else {
        SwapPlan::DeleteAll
    }
}

/// Decide the editor-swap action from the run mode and how many files
/// the swap directory holds.
pub fn swap_plan(mode: RunMode, file_count: usize) -> (p: SwapPlan)
    ensures
        p == spec_swap_plan(mode, file_count as nat),
{
    if file_count == 0 {
        SwapPlan::Nothing
    } else if mode != RunMode::Clean {
        SwapPlan::ReportFirst
    } else {
        SwapPlan::DeleteAll
    }
}

/// What the modules-directory side effect does for a run.
#[derive(Clone, Copy, Debug, PartialEq, Eq, Structural)]
pub enum ModulesPlan {
    ReportPresence,
    Erase,
}

/// The modules-directory decision: announce it in a reporting run, erase
/// it in a cleaning run.
pub open spec fn spec_modules_plan(mode: RunMode) -> ModulesPlan {
    if mode == RunMode::Clean {
        ModulesPlan::Erase
    } else {
        ModulesPlan::ReportPresence
    }
}

/// Decide the modules-directory action from the run mode.
pub fn modules_plan(mode: RunMode) -> (p: ModulesPlan)
    ensures
        p == spec_modules_plan(mode),
{
    if mode == RunMode::Clean {
        ModulesPlan::Erase
    } else {
        ModulesPlan::ReportPresence
    }
}

} // verus!
