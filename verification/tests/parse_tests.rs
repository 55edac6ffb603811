use dirsweep::targets::{parse_tokens, RunMode, SideEffect};

fn strings(words: &[&str]) -> Vec<String> {
    words.iter().map(|w| w.to_string()).collect()
}

#[test]
fn targets_for_each_token() {
    let p = parse_tokens(&strings(&["rust", "js"]));
    assert_eq!(p.targets.names, strings(&["target", "node_modules"]));
    assert_eq!(p.mode, RunMode::Report);
    assert!(p.side_effects.is_empty());
}

#[test]
fn zig_selects_two_names() {
    let p = parse_tokens(&strings(&["zig"]));
    assert_eq!(p.targets.names, strings(&["zig-out", "zig-cache"]));
}

#[test]
fn duplicate_tokens_add_no_duplicate_names() {
    let p = parse_tokens(&strings(&["rust", "rust", "js", "rust"]));
    assert_eq!(p.targets.names, strings(&["target", "node_modules"]));
    let p = parse_tokens(&strings(&["zig", "zig"]));
    assert_eq!(p.targets.names, strings(&["zig-out", "zig-cache"]));
}

#[test]
fn unrecognized_tokens_are_ignored() {
    let p = parse_tokens(&strings(&["python", "rust", "frobnicate"]));
    assert_eq!(p.targets.names, strings(&["target"]));
    assert!(p.side_effects.is_empty());
}

#[test]
fn clean_token_switches_mode_and_adds_no_target() {
    let p = parse_tokens(&strings(&["rust", "clean"]));
    assert_eq!(p.mode, RunMode::Clean);
    assert_eq!(p.targets.names, strings(&["target"]));
}

#[test]
fn empty_token_list_yields_empty_target_set() {
    let p = parse_tokens(&Vec::new());
    assert!(p.targets.names.is_empty());
    assert!(p.side_effects.is_empty());
    assert_eq!(p.mode, RunMode::Report);
}

#[test]
fn side_effects_come_in_scan_order() {
    let p = parse_tokens(&strings(&["cache", "v", "nvim"]));
    assert_eq!(
        p.side_effects,
        vec![SideEffect::CacheCleanup, SideEffect::VModules, SideEffect::NvimSwap]
    );
    assert!(p.targets.names.is_empty());
}

#[test]
fn repeated_side_effect_token_repeats_the_action() {
    let p = parse_tokens(&strings(&["v", "v"]));
    assert_eq!(p.side_effects, vec![SideEffect::VModules, SideEffect::VModules]);
}
