//! The target registry: mode tokens, the fixed token-to-name table, the
//! run mode, and the side-effect tokens recognized during the same scan.

use vstd::prelude::*;
use crate::text::{contains_str, str_eq, views_of};

verus! {

/// Whether matches are only reported or actually deleted.
#[derive(Clone, Copy, Debug, PartialEq, Eq, Structural)]
pub enum RunMode {
    Report,
    Clean,
}

/// A self-contained cleanup action requested by its own token.
#[derive(Clone, Copy, Debug, PartialEq, Eq, Structural)]
pub enum SideEffect {
    VModules,
    NvimSwap,
    CacheCleanup,
}

/// The ordered set of target directory names a walk searches for.
pub struct TargetSet {
    pub names: Vec<String>,
}

impl View for TargetSet {
    type V = Seq<Seq<char>>;

    open spec fn view(&self) -> Seq<Seq<char>> {
        views_of(self.names@)
    }
}

impl TargetSet {
    /// No target name occurs twice.
    pub open spec fn wf(&self) -> bool {
        no_dup(self@)
    }

    /// Membership of a base name in the target set.
    pub fn contains_name(&self, name: &str) -> (r: bool)
        ensures
            r == self@.contains(name@),
    {
        contains_str(&self.names, name)
    }

    /// Whether the set holds no names at all.
    pub fn is_empty(&self) -> (r: bool)
        ensures
            r == (self@.len() == 0),
    {
        self.names.len() == 0
    }
}

/// A sequence of names with no repetition.
pub open spec fn no_dup(names: Seq<Seq<char>>) -> bool {
    forall|i: int, j: int| 0 <= i < j < names.len() ==> names[i] != names[j]
}

/// The fixed table mapping one mode token to the target names it selects;
/// an unrecognized token selects none.
pub open spec fn expand_token(token: Seq<char>) -> Seq<Seq<char>> {
    if token == "rust"@ {
        seq!["target"@]
    } else if token == "js"@ {
        seq!["node_modules"@]
    } else if token == "zig"@ {
        seq!["zig-out"@, "zig-cache"@]
    } else {
        Seq::empty()
    }
}

/// The side-effect cleanup a token requests, if any.
pub open spec fn side_effect_of(token: Seq<char>) -> Option<SideEffect> {
    if token == "v"@ {
        Some(SideEffect::VModules)
    } else if token == "nvim"@ {
        Some(SideEffect::NvimSwap)
    } else if token == "cache"@ {
        Some(SideEffect::CacheCleanup)
    } else {
        None
    }
}

/// Append to `acc` each name of `names` that `acc` does not already hold.
pub open spec fn add_new(acc: Seq<Seq<char>>, names: Seq<Seq<char>>) -> Seq<Seq<char>>
    decreases names.len(),
{
    if names.len() == 0 {
        acc
    } else {
        let acc1 = if acc.contains(names[0]) {
            acc
        } else {
            acc.push(names[0])
        };
        add_new(acc1, names.subrange(1, names.len() as int))
    }
}

/// The target names selected by a token list, in order of first selection,
/// without duplicates.
pub open spec fn spec_targets_of(args: Seq<Seq<char>>) -> Seq<Seq<char>>
    decreases args.len(),
{
    if args.len() == 0 {
        Seq::empty()
    } else {
        add_new(spec_targets_of(args.drop_last()), expand_token(args.last()))
    }
}

/// The side-effect cleanups a token list requests, in scan order, once per
/// occurrence of each requesting token.
pub open spec fn spec_side_effects_of(args: Seq<Seq<char>>) -> Seq<SideEffect>
    decreases args.len(),
{
    if args.len() == 0 {
        Seq::empty()
    } else {
        spec_side_effects_of(args.drop_last()) + match side_effect_of(args.last()) {
            Some(e) => seq![e],
            None => Seq::<SideEffect>::empty(),
        }
    }
}

/// The run mode: `Clean` exactly when some token is `clean`.
pub open spec fn spec_mode_of(args: Seq<Seq<char>>) -> RunMode {
    if args.contains("clean"@) {
        RunMode::Clean
    } else {
        RunMode::Report
    }
}

/// What one scan of the token list yields: the target set, the requested
/// side-effect cleanups in scan order, and the run mode.
pub struct ParsedArgs {
    pub targets: TargetSet,
    pub side_effects: Vec<SideEffect>,
    pub mode: RunMode,
}

/// Membership in `add_new(acc, names)` is membership in `acc` or in `names`.
pub proof fn lemma_add_new_contains(acc: Seq<Seq<char>>, names: Seq<Seq<char>>)
    ensures
        forall|x: Seq<char>|
            #[trigger] add_new(acc, names).contains(x) <==> acc.contains(x) || names.contains(x),
    decreases names.len(),
{
    if names.len() == 0 {
        assert(forall|x: Seq<char>| !names.contains(x));
    } else {
        let acc1 = if acc.contains(names[0]) {
            acc
        } else {
            acc.push(names[0])
        };
        let rest = names.subrange(1, names.len() as int);
        lemma_add_new_contains(acc1, rest);
        assert forall|x: Seq<char>|
            #[trigger] add_new(acc, names).contains(x) <==> acc.contains(x) || names.contains(
                x,
            ) by {
            assert(add_new(acc, names) == add_new(acc1, rest));
            assert(add_new(acc1, rest).contains(x) <==> acc1.contains(x) || rest.contains(x));
            assert(acc1.contains(x) <==> acc.contains(x) || x == names[0]) by {
                if acc1.contains(x) && !acc.contains(names[0]) {
                    let i = choose|i: int| 0 <= i < acc1.len() && acc1[i] == x;
                    if i < acc.len() {
                        assert(acc[i] == x);
                    }
                }
                if acc.contains(x) {
                    let i = choose|i: int| 0 <= i < acc.len() && acc[i] == x;
                    assert(acc1[i] == x);
                }
                if x == names[0] && !acc.contains(x) {
                    assert(acc1[acc.len() as int] == x);
                }
            }
            assert(names.contains(x) <==> x == names[0] || rest.contains(x)) by {
                if names.contains(x) {
                    let i = choose|i: int| 0 <= i < names.len() && names[i] == x;
                    if i > 0 {
                        assert(rest[i - 1] == x);
                    }
                }
                if rest.contains(x) {
                    let i = choose|i: int| 0 <= i < rest.len() && rest[i] == x;
                    assert(names[i + 1] == x);
                }
                if x == names[0] {
                    assert(names[0] == x);
                }
            }
        }
    }
}

/// `add_new` keeps the accumulator free of duplicates.
pub proof fn lemma_add_new_no_dup(acc: Seq<Seq<char>>, names: Seq<Seq<char>>)
    requires
        no_dup(acc),
    ensures
        no_dup(add_new(acc, names)),
    decreases names.len(),
{
    if names.len() != 0 {
        let acc1 = if acc.contains(names[0]) {
            acc
        } else {
            acc.push(names[0])
        };
        assert forall|i: int, j: int| 0 <= i < j < acc1.len() implies acc1[i] != acc1[j] by {
            if j == acc.len() {
                if acc1[i] == acc1[j] {
                    assert(acc.contains(names[0]));
                }
            }
        }
        lemma_add_new_no_dup(acc1, names.subrange(1, names.len() as int));
    }
}

/// The target set of a token list holds exactly the names some token
/// selects, each once: no token set causes a duplicate entry, so no name
/// is ever acted on twice.
pub proof fn lemma_target_set_exact(args: Seq<Seq<char>>)
    ensures
        forall|name: Seq<char>|
            #[trigger] spec_targets_of(args).contains(name) <==> exists|i: int|
                0 <= i < args.len() && #[trigger] expand_token(args[i]).contains(name),
        no_dup(spec_targets_of(args)),
    decreases args.len(),
{
    if args.len() == 0 {
        assert(forall|name: Seq<char>| !spec_targets_of(args).contains(name));
    } else {
        let pre = args.drop_last();
        let last = args.last();
        lemma_target_set_exact(pre);
        lemma_add_new_contains(spec_targets_of(pre), expand_token(last));
        lemma_add_new_no_dup(spec_targets_of(pre), expand_token(last));
        assert forall|name: Seq<char>| #[trigger] spec_targets_of(args).contains(
            name,
        ) implies exists|i: int| 0 <= i < args.len() && #[trigger] expand_token(args[i]).contains(
            name,
        ) by {
            if spec_targets_of(pre).contains(name) {
                let i = choose|i: int|
                    0 <= i < pre.len() && #[trigger] expand_token(pre[i]).contains(name);
                assert(pre[i] == args[i]);
                assert(expand_token(args[i]).contains(name));
            } else {
                assert(expand_token(args[args.len() - 1]).contains(name));
            }
        }
        assert forall|name: Seq<char>|
            (exists|i: int|
                0 <= i < args.len() && #[trigger] expand_token(args[i]).contains(
                    name,
                )) implies #[trigger] spec_targets_of(args).contains(name) by {
            let i = choose|i: int|
                0 <= i < args.len() && #[trigger] expand_token(args[i]).contains(name);
            if i < args.len() - 1 {
                assert(pre[i] == args[i]);
                assert(spec_targets_of(pre).contains(name));
            } else {
                assert(expand_token(last).contains(name));
            }
        }
    }
}

/// Scan the token list once: build the target set from the fixed table,
/// collect the requested side-effect cleanups in order, and derive the
/// run mode from the presence of the `clean` token.
pub fn parse_tokens(args: &Vec<String>) -> (p: ParsedArgs)
    ensures
        p.targets@ == spec_targets_of(views_of(args@)),
        p.side_effects@ == spec_side_effects_of(views_of(args@)),
        p.mode == spec_mode_of(views_of(args@)),
        p.targets.wf(),
{
    let mode = if contains_str(args, "clean") {
        RunMode::Clean
    } else {
        RunMode::Report
    };
    let mut names: Vec<String> = Vec::new();
    let mut side_effects: Vec<SideEffect> = Vec::new();
    let ghost av = views_of(args@);
    proof {
        assert(av.subrange(0, 0) =~= Seq::<Seq<char>>::empty());
    }
    let mut i: usize = 0;
    while i < args.len()
        invariant
            av == views_of(args@),
            i <= args@.len(),
            views_of(names@) == spec_targets_of(av.subrange(0, i as int)),
            side_effects@ == spec_side_effects_of(av.subrange(0, i as int)),
        decreases args@.len() - i,
    {
        let tok = &args[i];
        let is_rust = str_eq(tok.as_str(), "rust");
        let is_js = str_eq(tok.as_str(), "js");
        let is_zig = str_eq(tok.as_str(), "zig");
        let is_v = str_eq(tok.as_str(), "v");
        let is_nvim = str_eq(tok.as_str(), "nvim");
        let is_cache = str_eq(tok.as_str(), "cache");
        let ghost t = args@[i as int]@;
        let ghost acc = views_of(names@);
        proof {
            assert(av.subrange(0, i + 1).drop_last() =~= av.subrange(0, i as int));
            assert(av.subrange(0, i + 1).last() == t);
        }
        if is_rust || is_js {
            let name: &str = if is_rust {
                "target"
            } else {
                "node_modules"
            };
            proof {
                assert(expand_token(t) =~~= seq![name@]);
            }
            if !contains_str(&names, name) {
                let ghost old_names = names@;
                names.push(name.to_owned());
                proof {
                    assert(views_of(names@) =~~= views_of(old_names).push(name@));
                }
            }
            proof {
                let ghost acc1 = if acc.contains(name@) {
                    acc
                } else {
                    acc.push(name@)
                };
                assert(views_of(names@) =~~= acc1);
                assert(seq![name@].subrange(1, 1) =~= Seq::<Seq<char>>::empty());
                assert(add_new(acc1, seq![name@].subrange(1, 1)) == acc1);
                assert(add_new(acc, seq![name@]) == acc1);
                assert(views_of(names@) == add_new(acc, expand_token(t)));
            }
        } else if is_zig {
            proof {
                assert(expand_token(t) =~~= seq!["zig-out"@, "zig-cache"@]);
            }
            if !contains_str(&names, "zig-out") {
                let ghost old_names = names@;
                names.push("zig-out".to_owned());
                proof {
                    assert(views_of(names@) =~~= views_of(old_names).push("zig-out"@));
                }
            }
            let ghost mid = views_of(names@);
            if !contains_str(&names, "zig-cache") {
                let ghost old_names = names@;
                names.push("zig-cache".to_owned());
                proof {
                    assert(views_of(names@) =~~= views_of(old_names).push("zig-cache"@));
                }
            }
            proof {
                let exp = seq!["zig-out"@, "zig-cache"@];
                let acc1 = if acc.contains("zig-out"@) {
                    acc
                } else {
                    acc.push("zig-out"@)
                };
                assert(mid =~~= acc1);
                let acc2 = if acc1.contains("zig-cache"@) {
                    acc1
                } else {
                    acc1.push("zig-cache"@)
                };
                assert(views_of(names@) =~~= acc2);
                assert(exp.subrange(1, 2) =~= seq!["zig-cache"@]);
                assert(seq!["zig-cache"@].subrange(1, 1) =~= Seq::<Seq<char>>::empty());
                assert(add_new(acc2, seq!["zig-cache"@].subrange(1, 1)) == acc2);
                assert(add_new(acc1, seq!["zig-cache"@]) == acc2);
                assert(add_new(acc, exp) == add_new(acc1, exp.subrange(1, 2)));
                assert(views_of(names@) == add_new(acc, expand_token(t)));
            }
        } else {
            proof {
                assert(expand_token(t) =~~= Seq::<Seq<char>>::empty());
                assert(add_new(acc, expand_token(t)) == acc);
                assert(views_of(names@) == add_new(acc, expand_token(t)));
            }
        }
        let ghost se_old = side_effects@;
        if is_v {
            side_effects.push(SideEffect::VModules);
        } else if is_nvim {
            side_effects.push(SideEffect::NvimSwap);
        } else if is_cache {
            side_effects.push(SideEffect::CacheCleanup);
        }
        proof {
            match side_effect_of(t) {
                Some(e) => {
                    assert(side_effects@ =~= se_old + seq![e]);
                },
                None => {
                    assert(side_effects@ =~= se_old + Seq::<SideEffect>::empty());
                },
            }
            assert(spec_targets_of(av.subrange(0, i + 1)) == add_new(
                spec_targets_of(av.subrange(0, i as int)),
                expand_token(t),
            ));
            assert(views_of(names@) == spec_targets_of(av.subrange(0, i + 1)));
            assert(side_effects@ == spec_side_effects_of(av.subrange(0, i + 1)));
        }
        i += 1;
    }
    proof {
        assert(av.subrange(0, args@.len() as int) =~= av);
        lemma_target_set_exact(av);
    }
    ParsedArgs { targets: TargetSet { names }, side_effects, mode }
}

} // verus!
