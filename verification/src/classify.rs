//! The path classifier: filters discovered entries to target-named
//! directories and suppresses matches nested inside other matches.

use vstd::prelude::*;
use crate::targets::{RunMode, TargetSet};
use crate::text::{split_path, split_slash, views_of};

verus! {

/// The file-type classification of a discovered entry.
#[derive(Clone, Copy, Debug, PartialEq, Eq, Structural)]
pub enum EntryKind {
    File,
    Directory,
    Symlink,
    Unknown,
}

/// What the classifier decides for one entry.
#[derive(Clone, Copy, Debug, PartialEq, Eq, Structural)]
pub enum Decision {
    SkipFile,
    SkipMissing,
    SkipNonTarget,
    SkipNested,
    Report,
    Remove,
}

/// How many of `segs` are members of `targets`.
pub open spec fn count_matches(segs: Seq<Seq<char>>, targets: Seq<Seq<char>>) -> nat
    decreases segs.len(),
{
    if segs.len() == 0 {
        0
    } else {
        count_matches(segs.drop_last(), targets) + (if targets.contains(segs.last()) {
            1nat
        } else {
            0nat
        })
    }
}

/// Count the segments that are target names.
pub fn count_matching(segs: &Vec<String>, targets: &TargetSet) -> (n: usize)
    ensures
        n == count_matches(views_of(segs@), targets@),
{
    let mut n: usize = 0;
    let mut i: usize = 0;
    proof {
        assert(views_of(segs@).subrange(0, 0) =~= Seq::<Seq<char>>::empty());
    }
    while i < segs.len()
        invariant
            i <= segs@.len(),
            n <= i,
            n == count_matches(views_of(segs@).subrange(0, i as int), targets@),
        decreases segs@.len() - i,
    {
        proof {
            assert(views_of(segs@).subrange(0, i + 1).drop_last() =~= views_of(segs@).subrange(
                0,
                i as int,
            ));
            assert(views_of(segs@).subrange(0, i + 1).last() == segs@[i as int]@);
        }
        if targets.contains_name(segs[i].as_str()) {
            n += 1;
        }
        i += 1;
    }
    proof {
        assert(views_of(segs@).subrange(0, segs@.len() as int) =~= views_of(segs@));
    }
    n
}

/// What the classifier decides for an entry: files are never touched, a
/// vanished entry is skipped, a name outside the target set is discarded,
/// a path with more than one target-named segment is suppressed as a
/// nested match, and a surviving candidate is removed in Clean mode and
/// reported in Report mode.
pub open spec fn spec_classify(
    path: Seq<char>,
    name: Seq<char>,
    kind: EntryKind,
    exists: bool,
    targets: Seq<Seq<char>>,
    mode: RunMode,
) -> Decision {
    if kind == EntryKind::File {
        Decision::SkipFile
    } else if !exists {
        Decision::SkipMissing
    } else if !targets.contains(name) {
        Decision::SkipNonTarget
    } else if count_matches(split_slash(path), targets) > 1 {
        Decision::SkipNested
    } else if mode == RunMode::Clean {
        Decision::Remove
    } else {
        Decision::Report
    }
}

/// Classify one discovered entry against the target set and run mode.
pub fn classify_entry(
    path: &str,
    name: &str,
    kind: EntryKind,
    exists: bool,
    targets: &TargetSet,
    mode: RunMode,
) -> (d: Decision)
    ensures
        d == spec_classify(path@, name@, kind, exists, targets@, mode),
{
    if kind == EntryKind::File {
        Decision::SkipFile
    } else if !exists {
        Decision::SkipMissing
    } else if !targets.contains_name(name) {
        Decision::SkipNonTarget
    } else {
        let segs = split_path(path);
        let n = count_matching(&segs, targets);
        if n > 1 {
            Decision::SkipNested
        } else if mode == RunMode::Clean {
            Decision::Remove
        } else {
            Decision::Report
        }
    }
}

/// A target-named segment contributes at least one to the match count.
proof fn lemma_count_at_least_one(segs: Seq<Seq<char>>, targets: Seq<Seq<char>>, i: int)
    requires
        0 <= i < segs.len(),
        targets.contains(segs[i]),
    ensures
        count_matches(segs, targets) >= 1,
    decreases segs.len(),
{
    if i < segs.len() - 1 {
        assert(segs.drop_last()[i] == segs[i]);
        lemma_count_at_least_one(segs.drop_last(), targets, i);
    }
}

/// Two target-named segments at distinct positions give a count of at
/// least two.
proof fn lemma_count_at_least_two(segs: Seq<Seq<char>>, targets: Seq<Seq<char>>, i: int, j: int)
    requires
        0 <= i < j < segs.len(),
        targets.contains(segs[i]),
        targets.contains(segs[j]),
    ensures
        count_matches(segs, targets) >= 2,
    decreases segs.len(),
{
    if j == segs.len() - 1 {
        assert(segs.last() == segs[j]);
        assert(segs.drop_last()[i] == segs[i]);
        lemma_count_at_least_one(segs.drop_last(), targets, i);
    } else {
        assert(segs.drop_last()[i] == segs[i]);
        assert(segs.drop_last()[j] == segs[j]);
        lemma_count_at_least_two(segs.drop_last(), targets, i, j);
    }
}

/// Nested-match suppression: an entry whose path holds a target-named
/// segment before its last, while its last segment is itself a target
/// name, is never reported and never removed — the enclosing target
/// directory, not this nested one, is the unit of action.
pub proof fn lemma_nested_match_suppressed(
    path: Seq<char>,
    name: Seq<char>,
    kind: EntryKind,
    exists: bool,
    targets: Seq<Seq<char>>,
    mode: RunMode,
    i: int,
)
    requires
        0 <= i < split_slash(path).len() - 1,
        targets.contains(split_slash(path)[i]),
        targets.contains(split_slash(path).last()),
    ensures
        spec_classify(path, name, kind, exists, targets, mode) != Decision::Report,
        spec_classify(path, name, kind, exists, targets, mode) != Decision::Remove,
{
    let segs = split_slash(path);
    lemma_count_at_least_two(segs, targets, i, segs.len() - 1);
}

/// A reporting run never decides to delete anything.
pub proof fn lemma_report_never_removes(
    path: Seq<char>,
    name: Seq<char>,
    kind: EntryKind,
    exists: bool,
    targets: Seq<Seq<char>>,
)
    ensures
        spec_classify(path, name, kind, exists, targets, RunMode::Report) != Decision::Remove,
{
}

/// A cleaning run removes exactly the existing non-file entries whose
/// base name is a target name and whose path holds no second
/// target-named segment; every other entry is left untouched.
pub proof fn lemma_clean_removes_top_level(
    path: Seq<char>,
    name: Seq<char>,
    kind: EntryKind,
    exists: bool,
    targets: Seq<Seq<char>>,
)
    ensures
        spec_classify(path, name, kind, exists, targets, RunMode::Clean) == Decision::Remove <==> (
        kind != EntryKind::File && exists && targets.contains(name) && count_matches(
            split_slash(path),
            targets,
        ) <= 1),
{
}

/// Cleaning twice removes nothing the second time: an entry of the
/// second walk either no longer exists — the first run removed it, or it
/// sat inside a removed match — and is skipped, or it still exists, so
/// the first run decided not to remove it, and the classification, a
/// function of the entry alone, decides the same again.
pub proof fn lemma_second_run_removes_nothing(
    path: Seq<char>,
    name: Seq<char>,
    kind: EntryKind,
    exists: bool,
    targets: Seq<Seq<char>>,
)
    requires
        exists ==> spec_classify(path, name, kind, true, targets, RunMode::Clean)
            != Decision::Remove,
    ensures
        spec_classify(path, name, kind, exists, targets, RunMode::Clean) != Decision::Remove,
{
}

/// An entry that no longer exists on disk is skipped outright: a second
/// cleaning run, whose matches are already gone, decides no removal and
/// no report for them.
pub proof fn lemma_missing_entry_untouched(
    path: Seq<char>,
    name: Seq<char>,
    kind: EntryKind,
    targets: Seq<Seq<char>>,
    mode: RunMode,
)
    ensures
        spec_classify(path, name, kind, false, targets, mode) != Decision::Remove,
        spec_classify(path, name, kind, false, targets, mode) != Decision::Report,
{
}

} // verus!
