use dirsweep::actions::{
    cache_plan, cache_table, modules_plan, swap_plan, CachePlan, ModulesPlan, SwapPlan,
};
use dirsweep::targets::RunMode;

#[test]
fn cache_table_is_the_fixed_list() {
    let t = cache_table();
    let expected = [
        ("go-build", "go build"),
        ("pylint", "pylint"),
        ("typescript", "typescript"),
        ("yarn", "yarn"),
        ("chromium", "chromium"),
        ("pip", "pip"),
        ("mozilla", "firefox"),
        ("expo", "RN expo"),
        ("JetBrains", "JetBrains"),
        ("rollup-plugin-rust", "rollup rust"),
        ("nim", "nim"),
        ("eas-cli", "eas"),
        ("deno", "deno"),
        ("esbuild", "esbuild"),
    ];
    assert_eq!(t.len(), expected.len());
    for (entry, (dir, label)) in t.iter().zip(expected.iter()) {
        assert_eq!(entry.dir, *dir);
        assert_eq!(entry.label, *label);
    }
}

#[test]
fn cache_plan_skips_reporting_runs() {
    assert_eq!(cache_plan(RunMode::Report, true), CachePlan::Skip);
    assert_eq!(cache_plan(RunMode::Report, false), CachePlan::Skip);
}

#[test]
fn cache_plan_is_fatal_without_a_cache_directory() {
    assert_eq!(cache_plan(RunMode::Clean, false), CachePlan::Fatal);
}

#[test]
fn cache_plan_cleans_everything_otherwise() {
    assert_eq!(cache_plan(RunMode::Clean, true), CachePlan::CleanAll);
}

#[test]
fn swap_plan_cases() {
    assert_eq!(swap_plan(RunMode::Report, 0), SwapPlan::Nothing);
    assert_eq!(swap_plan(RunMode::Clean, 0), SwapPlan::Nothing);
    assert_eq!(swap_plan(RunMode::Report, 3), SwapPlan::ReportFirst);
    assert_eq!(swap_plan(RunMode::Clean, 2), SwapPlan::DeleteAll);
}

#[test]
fn modules_plan_cases() {
    assert_eq!(modules_plan(RunMode::Report), ModulesPlan::ReportPresence);
    assert_eq!(modules_plan(RunMode::Clean), ModulesPlan::Erase);
}
