//! Properties of the sweeps, proved once and for all trees.

use vstd::prelude::*;

use crate::fs_model::FsModel;
use crate::fs_model::entry_deletable;
use crate::fs_model::entry_name;
use crate::sweeper::SweeperKind;
use crate::sweeper::Sweeper;
use crate::sweeper::chain_sweep;
use crate::sweeper::drop_target_dirs;
use crate::sweeper::enabled_sweepers;
use crate::sweeper::has_pom_file;
use crate::sweeper::has_undeletable_target;
use crate::sweeper::idea_sweep;
use crate::sweeper::idea_visit;
use crate::sweeper::idea_walk;
use crate::sweeper::iml_suffix;
use crate::sweeper::is_pom_file;
use crate::sweeper::is_pruned_name;
use crate::sweeper::is_target_dir;
use crate::sweeper::maven_sweep;
use crate::sweeper::maven_visit;
use crate::sweeper::maven_walk;
use crate::sweeper::spec_is_maven_module;

verus! {

/// No entry of the sequence is a directory named `target`.
pub open spec fn no_target_dirs(s: Seq<FsModel>) -> bool {
    forall|i: int| 0 <= i < s.len() ==> !is_target_dir(s[i])
}

// ---------------------------------------------------------------------
// Facts about dropping `target` directories from one directory.
// ---------------------------------------------------------------------

proof fn lemma_pom_cons(x: FsModel, s: Seq<FsModel>)
    ensures
        has_pom_file(seq![x] + s) == (is_pom_file(x) || has_pom_file(s)),
{
    let whole = seq![x] + s;
    if is_pom_file(x) {
        assert(whole[0] == x);
        assert(has_pom_file(whole));
    }
    if has_pom_file(s) {
        let i = choose|i: int| 0 <= i < s.len() && is_pom_file(s[i]);
        assert(whole[i + 1] == s[i]);
        assert(has_pom_file(whole));
    }
    if has_pom_file(whole) {
        let i = choose|i: int| 0 <= i < whole.len() && is_pom_file(whole[i]);
        if i == 0 {
            assert(whole[0] == x);
        } else {
            assert(whole[i] == s[i - 1]);
        }
    }
}

proof fn lemma_drop_targets_no_target(s: Seq<FsModel>)
    ensures
        no_target_dirs(drop_target_dirs(s)),
    decreases s.len(),
{
    if s.len() > 0 {
        let rest = s.subrange(1, s.len() as int);
        lemma_drop_targets_no_target(rest);
        if !is_target_dir(s[0]) {
            let r = drop_target_dirs(rest);
            assert forall|i: int| 0 <= i < (seq![s[0]] + r).len() implies !is_target_dir(
                (seq![s[0]] + r)[i],
            ) by {
                if i > 0 {
                    assert((seq![s[0]] + r)[i] == r[i - 1]);
                }
            }
        }
    }
}

proof fn lemma_drop_targets_pom(s: Seq<FsModel>)
    ensures
        has_pom_file(drop_target_dirs(s)) == has_pom_file(s),
    decreases s.len(),
{
    if s.len() > 0 {
        let rest = s.subrange(1, s.len() as int);
        lemma_drop_targets_pom(rest);
        assert(s =~= seq![s[0]] + rest);
        lemma_pom_cons(s[0], rest);
        if !is_target_dir(s[0]) {
            lemma_pom_cons(s[0], drop_target_dirs(rest));
        }
    }
}

proof fn lemma_drop_targets_identity(s: Seq<FsModel>)
    requires
        no_target_dirs(s),
    ensures
        drop_target_dirs(s) == s,
    decreases s.len(),
{
    if s.len() > 0 {
        let rest = s.subrange(1, s.len() as int);
        lemma_drop_targets_identity(rest);
        assert(seq![s[0]] + rest =~= s);
    }
}

proof fn lemma_drop_targets_keeps(s: Seq<FsModel>)
    ensures
        forall|i: int|
            0 <= i < s.len() && !is_target_dir(s[i]) ==> drop_target_dirs(s).contains(s[i]),
    decreases s.len(),
{
    if s.len() > 0 {
        let rest = s.subrange(1, s.len() as int);
        lemma_drop_targets_keeps(rest);
        assert forall|i: int| 0 <= i < s.len() && !is_target_dir(s[i]) implies drop_target_dirs(
            s,
        ).contains(s[i]) by {
            if i == 0 {
                assert((seq![s[0]] + drop_target_dirs(rest))[0] == s[0]);
            } else {
                assert(rest[i - 1] == s[i]);
                assert(drop_target_dirs(rest).contains(s[i]));
                let j = choose|j: int|
                    0 <= j < drop_target_dirs(rest).len() && drop_target_dirs(rest)[j] == s[i];
                if !is_target_dir(s[0]) {
                    assert((seq![s[0]] + drop_target_dirs(rest))[j + 1] == s[i]);
                }
            }
        }
    }
}

// ---------------------------------------------------------------------
// Shape of a visited directory: the walk only rewrites its entries.
// ---------------------------------------------------------------------

proof fn lemma_maven_visit_shape(d: FsModel, prune: bool)
    ensures
        maven_visit(d, prune).0 is Dir == d is Dir,
        entry_name(maven_visit(d, prune).0) == entry_name(d),
        entry_deletable(maven_visit(d, prune).0) == entry_deletable(d),
        d is Dir ==> maven_visit(d, prune).0->Dir_readable == d->Dir_readable,
        !(d is Dir) ==> maven_visit(d, prune).0 == d,
{
}

proof fn lemma_idea_visit_shape(d: FsModel)
    ensures
        idea_visit(d).0 is Dir == d is Dir,
        entry_name(idea_visit(d).0) == entry_name(d),
        idea_visit(d).0 is File ==> idea_visit(d).0 == d,
        d is Dir ==> idea_visit(d).0->Dir_readable == d->Dir_readable,
{
}

// ---------------------------------------------------------------------
// The Maven walk preserves the module classification and, on success,
// leaves no `target` directory behind in a cleaned module.
// ---------------------------------------------------------------------

proof fn lemma_maven_walk_pom(s: Seq<FsModel>, in_module: bool)
    ensures
        has_pom_file(maven_walk(s, in_module).0) == has_pom_file(s),
    decreases s.len(),
{
    if s.len() > 0 {
        let rest = s.subrange(1, s.len() as int);
        assert(s =~= seq![s[0]] + rest);
        lemma_pom_cons(s[0], rest);
        if in_module && is_target_dir(s[0]) {
            lemma_maven_walk_pom(rest, in_module);
        } else if !(s[0] is Dir) {
            lemma_maven_walk_pom(rest, in_module);
            lemma_pom_cons(s[0], maven_walk(rest, in_module).0);
        } else {
            let child = maven_visit(s[0], true);
            lemma_maven_visit_shape(s[0], true);
            if child.1 is Some {
                let tail = if in_module {
                    drop_target_dirs(rest)
                } else {
                    rest
                };
                if in_module {
                    lemma_drop_targets_pom(rest);
                }
                lemma_pom_cons(child.0, tail);
            } else {
                lemma_maven_walk_pom(rest, in_module);
                lemma_pom_cons(child.0, maven_walk(rest, in_module).0);
            }
        }
    }
}

proof fn lemma_maven_walk_no_target(s: Seq<FsModel>)
    requires
        maven_walk(s, true).1 is None,
    ensures
        no_target_dirs(maven_walk(s, true).0),
    decreases s.len(),
{
    if s.len() > 0 {
        let rest = s.subrange(1, s.len() as int);
        if is_target_dir(s[0]) {
            lemma_maven_walk_no_target(rest);
        } else if !(s[0] is Dir) {
            lemma_maven_walk_no_target(rest);
            let r = maven_walk(rest, true).0;
            assert forall|i: int| 0 <= i < (seq![s[0]] + r).len() implies !is_target_dir(
                (seq![s[0]] + r)[i],
            ) by {
                if i > 0 {
                    assert((seq![s[0]] + r)[i] == r[i - 1]);
                }
            }
        } else {
            let child = maven_visit(s[0], true);
            lemma_maven_visit_shape(s[0], true);
            lemma_maven_walk_no_target(rest);
            let r = maven_walk(rest, true).0;
            assert forall|i: int| 0 <= i < (seq![child.0] + r).len() implies !is_target_dir(
                (seq![child.0] + r)[i],
            ) by {
                if i > 0 {
                    assert((seq![child.0] + r)[i] == r[i - 1]);
                }
            }
        }
    }
}

// ---------------------------------------------------------------------
// Idempotence of the Maven sweep.
// ---------------------------------------------------------------------

proof fn lemma_maven_walk_idem(s: Seq<FsModel>, in_module: bool)
    requires
        maven_walk(s, in_module).1 is None,
    ensures
        maven_walk(maven_walk(s, in_module).0, in_module) == (
            maven_walk(s, in_module).0,
            None::<Seq<char>>,
        ),
    decreases s, 0int,
{
    if s.len() > 0 {
        let rest = s.subrange(1, s.len() as int);
        if in_module && is_target_dir(s[0]) {
            lemma_maven_walk_idem(rest, in_module);
        } else if !(s[0] is Dir) {
            lemma_maven_walk_idem(rest, in_module);
            let r = maven_walk(rest, in_module).0;
            let s2 = seq![s[0]] + r;
            assert(s2[0] == s[0]);
            assert(s2.subrange(1, s2.len() as int) =~= r);
        } else {
            let child = maven_visit(s[0], true);
            lemma_maven_visit_shape(s[0], true);
            lemma_maven_visit_idem(s[0], true);
            lemma_maven_walk_idem(rest, in_module);
            let r = maven_walk(rest, in_module).0;
            let s2 = seq![child.0] + r;
            assert(s2[0] == child.0);
            assert(s2.subrange(1, s2.len() as int) =~= r);
        }
    }
}

proof fn lemma_maven_visit_idem(d: FsModel, prune: bool)
    requires
        maven_visit(d, prune).1 is None,
    ensures
        maven_visit(maven_visit(d, prune).0, prune) == (
            maven_visit(d, prune).0,
            None::<Seq<char>>,
        ),
    decreases d, 1int,
{
    if d is Dir {
        let es = d->Dir_entries;
        let is_module = has_pom_file(es);
        if d->Dir_readable && !(prune && is_pruned_name(d->Dir_name)) {
            let walked = maven_walk(es, is_module);
            lemma_maven_walk_pom(es, is_module);
            lemma_maven_walk_idem(es, is_module);
            if is_module {
                lemma_maven_walk_no_target(es);
                if has_undeletable_target(walked.0) {
                    let i = choose|i: int|
                        0 <= i < walked.0.len() && is_target_dir(walked.0[i]) && !entry_deletable(
                            walked.0[i],
                        );
                    assert(false);
                }
            }
        } else {
            let kept = if is_module {
                drop_target_dirs(es)
            } else {
                es
            };
            if is_module {
                lemma_drop_targets_pom(es);
                lemma_drop_targets_no_target(es);
                lemma_drop_targets_identity(kept);
                if has_undeletable_target(kept) {
                    let i = choose|i: int|
                        0 <= i < kept.len() && is_target_dir(kept[i]) && !entry_deletable(kept[i]);
                    assert(false);
                }
            }
        }
    }
}

/// Running the Maven sweeper twice in succession is a no-op the second
/// time: a successful sweep leaves a tree on which the same sweep
/// deletes nothing and succeeds again.
pub proof fn lemma_maven_sweep_idempotent(t: FsModel)
    requires
        maven_sweep(t).1 is None,
    ensures
        maven_sweep(maven_sweep(t).0) == (maven_sweep(t).0, None::<Seq<char>>),
{
    lemma_maven_visit_idem(t, false);
}

// ---------------------------------------------------------------------
// Idempotence of the Idea sweep.
// ---------------------------------------------------------------------

proof fn lemma_idea_walk_idem(s: Seq<FsModel>)
    requires
        idea_walk(s).1 is None,
    ensures
        idea_walk(idea_walk(s).0) == (idea_walk(s).0, None::<Seq<char>>),
    decreases s, 0int,
{
    if s.len() > 0 {
        let rest = s.subrange(1, s.len() as int);
        if s[0] is File {
            if iml_suffix(entry_name(s[0])) {
                lemma_idea_walk_idem(rest);
            } else {
                lemma_idea_walk_idem(rest);
                let r = idea_walk(rest).0;
                let s2 = seq![s[0]] + r;
                assert(s2[0] == s[0]);
                assert(s2.subrange(1, s2.len() as int) =~= r);
            }
        } else {
            let child = idea_visit(s[0]);
            lemma_idea_visit_shape(s[0]);
            lemma_idea_visit_idem(s[0]);
            lemma_idea_walk_idem(rest);
            let r = idea_walk(rest).0;
            let s2 = seq![child.0] + r;
            assert(s2[0] == child.0);
            assert(s2.subrange(1, s2.len() as int) =~= r);
        }
    }
}

proof fn lemma_idea_visit_idem(d: FsModel)
    requires
        idea_visit(d).1 is None,
    ensures
        idea_visit(idea_visit(d).0) == (idea_visit(d).0, None::<Seq<char>>),
    decreases d, 1int,
{
    if d is Dir && d->Dir_readable {
        lemma_idea_walk_idem(d->Dir_entries);
    }
}

/// Running the Idea sweeper twice in succession is a no-op the second
/// time: a successful sweep leaves a tree on which the same sweep
/// deletes nothing and succeeds again.
pub proof fn lemma_idea_sweep_idempotent(t: FsModel)
    requires
        idea_sweep(t).1 is None,
    ensures
        idea_sweep(idea_sweep(t).0) == (idea_sweep(t).0, None::<Seq<char>>),
{
    lemma_idea_visit_idem(t);
}

// ---------------------------------------------------------------------
// Pruning and the chain.
// ---------------------------------------------------------------------

/// The Maven walk never descends into a child directory named `src`,
/// `.idea` or `.git`. Such a directory is still cleaned as a module
/// itself, so apart from a top-level `target` directory of its own,
/// every entry under it is left exactly as it was: nothing below it is
/// ever inspected.
pub proof fn lemma_pruned_dir_not_descended(d: FsModel)
    requires
        d is Dir,
        is_pruned_name(entry_name(d)),
        maven_visit(d, true).1 is None,
    ensures
        maven_visit(d, true).0->Dir_entries == (if spec_is_maven_module(d) {
            drop_target_dirs(d->Dir_entries)
        } else {
            d->Dir_entries
        }),
        forall|i: int|
            0 <= i < d->Dir_entries.len() && !is_target_dir(d->Dir_entries[i]) ==> maven_visit(
                d,
                true,
            ).0->Dir_entries.contains(d->Dir_entries[i]),
{
    let es = d->Dir_entries;
    lemma_drop_targets_keeps(es);
    assert forall|i: int| 0 <= i < es.len() && !is_target_dir(es[i]) implies maven_visit(
        d,
        true,
    ).0->Dir_entries.contains(es[i]) by {
        if !spec_is_maven_module(d) {
            assert(maven_visit(d, true).0->Dir_entries[i] == es[i]);
        }
    }
}

/// A chain stops at the first sweeper that fails: the tree and error it
/// reports are that sweeper's, and the sweepers after it never run.
pub proof fn lemma_chain_stops_at_first_failure(ks: Seq<SweeperKind>, t: FsModel)
    requires
        ks.len() > 0,
        ks[0].sweep_spec(t).1 is Some,
    ensures
        chain_sweep(ks, t) == ks[0].sweep_spec(t),
{
}

/// With neither sweeper enabled, the run touches nothing and succeeds.
pub proof fn lemma_no_flags_no_op(t: FsModel)
    ensures
        chain_sweep(enabled_sweepers(false, false), t) == (t, None::<Seq<char>>),
{
    assert(enabled_sweepers(false, false) =~= Seq::<SweeperKind>::empty());
}

} // verus!
