//! The sweepers and the chain that runs them.
//!
//! Each sweeper walks a directory tree and deletes what its rule names:
//! the Maven sweeper removes the `target` directory of every Maven
//! module it reaches, the Idea sweeper removes every file whose name
//! ends in `.iml`. A failing deletion aborts the rest of that sweeper's
//! walk; a directory that cannot be enumerated is skipped silently.
//!
//! The walk is depth-first here. Which directory is visited before
//! which sibling does not matter to the outcome of a successful run,
//! and deletions are decided entry by entry, so a breadth-first frontier
//! would remove exactly the same entries.

use vstd::prelude::*;
use vstd::string::StrSliceExecFns;

use crate::argument::Argument;
use crate::fs_model::FsModel;
use crate::fs_model::FsNode;
use crate::fs_model::entry_deletable;
use crate::fs_model::entry_name;
use crate::fs_model::lemma_models_of_index;
use crate::fs_model::lemma_models_of_len;
use crate::fs_model::model_of;
use crate::fs_model::models_of;

verus! {

/// A deletion that failed; `name` is the entry that could not be removed.
#[derive(Debug, PartialEq)]
pub struct SweepError {
    pub name: String,
}

impl View for SweepError {
    type V = Seq<char>;

    open spec fn view(&self) -> Seq<char> {
        self.name@
    }
}

/// The view of an optional error: the name it carries, if any.
pub open spec fn error_model(e: Option<SweepError>) -> Option<Seq<char>> {
    match e {
        Option::None => None,
        Option::Some(err) => Some(err@),
    }
}

/// The view of a sweeper's result: the error's name, if it failed.
pub open spec fn result_model(r: Result<(), SweepError>) -> Option<Seq<char>> {
    match r {
        Result::Ok(u) => None,
        Result::Err(err) => Some(err@),
    }
}

// ---------------------------------------------------------------------
// The cleaning rules, on the model.
// ---------------------------------------------------------------------

/// A Maven module is a directory that directly contains a file named
/// `pom.xml`.
pub open spec fn is_pom_file(m: FsModel) -> bool {
    m is File && entry_name(m) == "pom.xml"@
}

pub open spec fn has_pom_file(s: Seq<FsModel>) -> bool {
    exists|i: int| 0 <= i < s.len() && is_pom_file(s[i])
}

pub open spec fn spec_is_maven_module(m: FsModel) -> bool {
    m is Dir && has_pom_file(m->Dir_entries)
}

/// What the Maven sweeper deletes: a directory named `target`.
pub open spec fn is_target_dir(m: FsModel) -> bool {
    m is Dir && entry_name(m) == "target"@
}

/// A `target` directory whose deletion would fail.
pub open spec fn has_undeletable_target(s: Seq<FsModel>) -> bool {
    exists|i: int| 0 <= i < s.len() && is_target_dir(s[i]) && !entry_deletable(s[i])
}

/// The entries with every directory named `target` removed.
pub open spec fn drop_target_dirs(s: Seq<FsModel>) -> Seq<FsModel>
    decreases s.len(),
{
    if s.len() == 0 {
        s
    } else if is_target_dir(s[0]) {
        drop_target_dirs(s.subrange(1, s.len() as int))
    } else {
        seq![s[0]] + drop_target_dirs(s.subrange(1, s.len() as int))
    }
}

/// Subtrees the Maven walk never descends into: build output and
/// VCS/IDE metadata cannot contain further modules worth cleaning.
pub open spec fn is_pruned_name(s: Seq<char>) -> bool {
    s == "src"@ || s == ".idea"@ || s == ".git"@
}

/// Whether a name ends in the literal suffix `.iml`.
pub open spec fn iml_suffix(s: Seq<char>) -> bool {
    s.len() >= 4 && s[s.len() - 4] == '.' && s[s.len() - 3] == 'i' && s[s.len() - 2] == 'm'
        && s[s.len() - 1] == 'l'
}

// ---------------------------------------------------------------------
// The Maven sweep, on the model.
// ---------------------------------------------------------------------

/// One directory of the Maven walk. If it is a module, its `target`
/// directory is removed first (an undeletable one fails the sweep).
/// Then its children are walked, unless the directory cannot be
/// enumerated, or `prune` is set and its name is `src`, `.idea` or
/// `.git`. The root is visited with `prune` false: it is walked
/// whatever its name is.
pub open spec fn maven_visit(d: FsModel, prune: bool) -> (FsModel, Option<Seq<char>>)
    decreases d, 1int,
{
    if !(d is Dir) {
        (d, None)
    } else {
        let is_module = has_pom_file(d->Dir_entries);
        if is_module && has_undeletable_target(d->Dir_entries) {
            (d, Some("target"@))
        } else if d->Dir_readable && !(prune && is_pruned_name(d->Dir_name)) {
            let walked = maven_walk(d->Dir_entries, is_module);
            (
                FsModel::Dir {
                    name: d->Dir_name,
                    entries: walked.0,
                    readable: d->Dir_readable,
                    deletable: d->Dir_deletable,
                },
                walked.1,
            )
        } else {
            (
                FsModel::Dir {
                    name: d->Dir_name,
                    entries: if is_module {
                        drop_target_dirs(d->Dir_entries)
                    } else {
                        d->Dir_entries
                    },
                    readable: d->Dir_readable,
                    deletable: d->Dir_deletable,
                },
                None,
            )
        }
    }
}

/// The children of one directory, in order. `in_module` says that the
/// directory is a Maven module, whose `target` directories were already
/// deleted: they are dropped here and not descended into. A failure
/// inside a child leaves the children after it untouched.
pub open spec fn maven_walk(s: Seq<FsModel>, in_module: bool) -> (Seq<FsModel>, Option<Seq<char>>)
    decreases s, 0int,
{
    if s.len() == 0 {
        (s, None)
    } else {
        let rest = s.subrange(1, s.len() as int);
        if in_module && is_target_dir(s[0]) {
            maven_walk(rest, in_module)
        } else if !(s[0] is Dir) {
            let tail = maven_walk(rest, in_module);
            (seq![s[0]] + tail.0, tail.1)
        } else {
            let child = maven_visit(s[0], true);
            if child.1 is Some {
                (
                    seq![child.0] + (if in_module {
                        drop_target_dirs(rest)
                    } else {
                        rest
                    }),
                    child.1,
                )
            } else {
                let tail = maven_walk(rest, in_module);
                (seq![child.0] + tail.0, tail.1)
            }
        }
    }
}

/// The whole Maven sweep of a tree rooted at `t`.
pub open spec fn maven_sweep(t: FsModel) -> (FsModel, Option<Seq<char>>) {
    maven_visit(t, false)
}

// ---------------------------------------------------------------------
// The Idea sweep, on the model.
// ---------------------------------------------------------------------

/// One directory of the Idea walk: nothing is pruned, every child
/// directory is descended into, and every file ending in `.iml` is
/// deleted. A file that cannot be deleted fails the sweep at once.
pub open spec fn idea_visit(d: FsModel) -> (FsModel, Option<Seq<char>>)
    decreases d, 1int,
{
    if !(d is Dir) || !d->Dir_readable {
        (d, None)
    } else {
        let walked = idea_walk(d->Dir_entries);
        (
            FsModel::Dir {
                name: d->Dir_name,
                entries: walked.0,
                readable: d->Dir_readable,
                deletable: d->Dir_deletable,
            },
            walked.1,
        )
    }
}

pub open spec fn idea_walk(s: Seq<FsModel>) -> (Seq<FsModel>, Option<Seq<char>>)
    decreases s, 0int,
{
    if s.len() == 0 {
        (s, None)
    } else {
        let rest = s.subrange(1, s.len() as int);
        if s[0] is File {
            if iml_suffix(entry_name(s[0])) {
                if entry_deletable(s[0]) {
                    idea_walk(rest)
                } else {
                    (s, Some(entry_name(s[0])))
                }
            } else {
                let tail = idea_walk(rest);
                (seq![s[0]] + tail.0, tail.1)
            }
        } else {
            let child = idea_visit(s[0]);
            if child.1 is Some {
                (seq![child.0] + rest, child.1)
            } else {
                let tail = idea_walk(rest);
                (seq![child.0] + tail.0, tail.1)
            }
        }
    }
}

/// The whole Idea sweep of a tree rooted at `t`. On a plain file it
/// does nothing and succeeds.
pub open spec fn idea_sweep(t: FsModel) -> (FsModel, Option<Seq<char>>) {
    idea_visit(t)
}

// ---------------------------------------------------------------------
// Executable helpers.
// ---------------------------------------------------------------------

/// Compares a name against a literal.
fn string_eq_literal(name: &String, lit: &str) -> (r: bool)
    ensures
        r == (name@ == lit@),
{
    let owned: String = lit.to_owned();
    *name == owned
}

fn node_is_dir(n: &FsNode) -> (r: bool)
    ensures
        r == (n@ is Dir),
{
    match n {
        FsNode::Dir { .. } => true,
        FsNode::File { .. } => false,
    }
}

fn node_is_pom_file(n: &FsNode) -> (r: bool)
    ensures
        r == is_pom_file(n@),
{
    match n {
        FsNode::File { name, .. } => string_eq_literal(name, "pom.xml"),
        FsNode::Dir { .. } => false,
    }
}

fn node_is_target_dir(n: &FsNode) -> (r: bool)
    ensures
        r == is_target_dir(n@),
{
    match n {
        FsNode::Dir { name, .. } => string_eq_literal(name, "target"),
        FsNode::File { .. } => false,
    }
}

fn node_is_undeletable_target(n: &FsNode) -> (r: bool)
    ensures
        r == (is_target_dir(n@) && !entry_deletable(n@)),
{
    match n {
        FsNode::Dir { name, deletable, .. } => !*deletable && string_eq_literal(name, "target"),
        FsNode::File { .. } => false,
    }
}

fn name_is_pruned(name: &String) -> (r: bool)
    ensures
        r == is_pruned_name(name@),
{
    string_eq_literal(name, "src") || string_eq_literal(name, ".idea") || string_eq_literal(
        name,
        ".git",
    )
}

fn name_ends_in_iml(name: &String) -> (r: bool)
    ensures
        r == iml_suffix(name@),
{
    let s: &str = name.as_str();
    let n: usize = s.unicode_len();
    if n < 4 {
        false
    } else {
        s.get_char(n - 4) == '.' && s.get_char(n - 3) == 'i' && s.get_char(n - 2) == 'm'
            && s.get_char(n - 1) == 'l'
    }
}

fn entries_have_pom(entries: &Vec<FsNode>) -> (r: bool)
    ensures
        r == has_pom_file(models_of(entries@)),
{
    let ghost m = models_of(entries@);
    proof {
        lemma_models_of_len(entries@);
    }
    let mut i: usize = 0;
    while i < entries.len()
        invariant
            0 <= i <= entries@.len(),
            m == models_of(entries@),
            m.len() == entries@.len(),
            forall|j: int| 0 <= j < i ==> !is_pom_file(m[j]),
        decreases entries@.len() - i,
    {
        proof {
            lemma_models_of_index(entries@, i as int);
        }
        if node_is_pom_file(&entries[i]) {
            return true;
        }
        i += 1;
    }
    false
}

fn entries_have_undeletable_target(entries: &Vec<FsNode>) -> (r: bool)
    ensures
        r == has_undeletable_target(models_of(entries@)),
{
    let ghost m = models_of(entries@);
    proof {
        lemma_models_of_len(entries@);
    }
    let mut i: usize = 0;
    while i < entries.len()
        invariant
            0 <= i <= entries@.len(),
            m == models_of(entries@),
            m.len() == entries@.len(),
            forall|j: int| 0 <= j < i ==> !(is_target_dir(m[j]) && !entry_deletable(m[j])),
        decreases entries@.len() - i,
    {
        proof {
            lemma_models_of_index(entries@, i as int);
        }
        if node_is_undeletable_target(&entries[i]) {
            return true;
        }
        i += 1;
    }
    false
}

// ---------------------------------------------------------------------
// Glue between node sequences and their models.
// ---------------------------------------------------------------------

proof fn lemma_models_of_subrange(s: Seq<FsNode>, a: int, b: int)
    requires
        0 <= a <= b <= s.len(),
    ensures
        models_of(s.subrange(a, b)) == models_of(s).subrange(a, b),
{
    lemma_models_of_len(s);
    lemma_models_of_len(s.subrange(a, b));
    assert(models_of(s.subrange(a, b)) =~= models_of(s).subrange(a, b)) by {
        assert forall|i: int| 0 <= i < b - a implies models_of(s.subrange(a, b))[i] == models_of(
            s,
        ).subrange(a, b)[i] by {
            lemma_models_of_index(s.subrange(a, b), i);
            lemma_models_of_index(s, a + i);
        }
    }
}

proof fn lemma_models_of_cons(x: FsNode, s: Seq<FsNode>)
    ensures
        models_of(seq![x] + s) == seq![model_of(x)] + models_of(s),
{
    let whole = seq![x] + s;
    assert(whole.len() == s.len() + 1);
    assert(whole[0] == x);
    assert(whole.subrange(1, whole.len() as int) =~= s);
    assert(models_of(whole) == seq![model_of(whole[0])] + models_of(
        whole.subrange(1, whole.len() as int),
    ));
}

// ---------------------------------------------------------------------
// The executable Maven sweep.
// ---------------------------------------------------------------------

fn remove_target_dirs(v: Vec<FsNode>) -> (r: Vec<FsNode>)
    ensures
        models_of(r@) == drop_target_dirs(models_of(v@)),
    decreases v@.len(),
{
    proof {
        lemma_models_of_len(v@);
    }
    if v.len() == 0 {
        v
    } else {
        let mut vv = v;
        let first = vv.remove(0);
        proof {
            lemma_models_of_index(v@, 0);
            assert(vv@ =~= v@.subrange(1, v@.len() as int));
            lemma_models_of_subrange(v@, 1, v@.len() as int);
        }
        if node_is_target_dir(&first) {
            remove_target_dirs(vv)
        } else {
            let mut tail = remove_target_dirs(vv);
            let ghost t0 = tail@;
            proof {
                lemma_models_of_cons(first, t0);
            }
            tail.insert(0, first);
            proof {
                assert(tail@ =~= seq![first] + t0);
            }
            tail
        }
    }
}

fn maven_walk_entries(v: Vec<FsNode>, in_module: bool) -> (r: (Vec<FsNode>, Option<SweepError>))
    ensures
        models_of(r.0@) == maven_walk(models_of(v@), in_module).0,
        error_model(r.1) == maven_walk(models_of(v@), in_module).1,
    decreases v@, 0int,
{
    proof {
        lemma_models_of_len(v@);
    }
    if v.len() == 0 {
        (v, None)
    } else {
        let mut vv = v;
        let first = vv.remove(0);
        proof {
            lemma_models_of_index(v@, 0);
            assert(vv@ =~= v@.subrange(1, v@.len() as int));
            lemma_models_of_subrange(v@, 1, v@.len() as int);
            assert(decreases_to!(v@ => v@.subrange(1, v@.len() as int)));
            assert(decreases_to!(v@ => v@[0]));
        }
        if in_module && node_is_target_dir(&first) {
            maven_walk_entries(vv, in_module)
        } else if !node_is_dir(&first) {
            let (mut tail, err) = maven_walk_entries(vv, in_module);
            let ghost t0 = tail@;
            proof {
                lemma_models_of_cons(first, t0);
            }
            tail.insert(0, first);
            proof {
                assert(tail@ =~= seq![first] + t0);
            }
            (tail, err)
        } else {
            let (child, cerr) = maven_visit_node(first, true);
            match cerr {
                Some(e) => {
                    let mut tail = if in_module {
                        remove_target_dirs(vv)
                    } else {
                        vv
                    };
                    let ghost t0 = tail@;
                    proof {
                        lemma_models_of_cons(child, t0);
                    }
                    tail.insert(0, child);
                    proof {
                        assert(tail@ =~= seq![child] + t0);
                    }
                    (tail, Some(e))
                },
                None => {
                    let (mut tail, terr) = maven_walk_entries(vv, in_module);
                    let ghost t0 = tail@;
                    proof {
                        lemma_models_of_cons(child, t0);
                    }
                    tail.insert(0, child);
                    proof {
                        assert(tail@ =~= seq![child] + t0);
                    }
                    (tail, terr)
                },
            }
        }
    }
}

fn maven_visit_node(d: FsNode, prune: bool) -> (r: (FsNode, Option<SweepError>))
    ensures
        r.0@ == maven_visit(d@, prune).0,
        error_model(r.1) == maven_visit(d@, prune).1,
    decreases d, 1int,
{
    let ghost d0 = d;
    match d {
        FsNode::File { name, deletable } => (FsNode::File { name, deletable }, None),
        FsNode::Dir { name, entries, readable, deletable } => {
            proof {
                assert(d0@->Dir_entries == models_of(entries@));
            }
            let is_module = entries_have_pom(&entries);
            if is_module && entries_have_undeletable_target(&entries) {
                (
                    FsNode::Dir { name, entries, readable, deletable },
                    Some(SweepError { name: "target".to_owned() }),
                )
            } else if readable && !(prune && name_is_pruned(&name)) {
                proof {
                    assert(decreases_to!(d0 => d0->Dir_entries));
                    assert(decreases_to!(d0->Dir_entries => d0->Dir_entries@));
                    assert(decreases_to!(d0 => d0->Dir_entries@));
                }
                let (walked, err) = maven_walk_entries(entries, is_module);
                (FsNode::Dir { name, entries: walked, readable, deletable }, err)
            } else {
                let cleaned = if is_module {
                    remove_target_dirs(entries)
                } else {
                    entries
                };
                (FsNode::Dir { name, entries: cleaned, readable, deletable }, None)
            }
        },
    }
}

// ---------------------------------------------------------------------
// The executable Idea sweep.
// ---------------------------------------------------------------------

fn idea_walk_entries(v: Vec<FsNode>) -> (r: (Vec<FsNode>, Option<SweepError>))
    ensures
        models_of(r.0@) == idea_walk(models_of(v@)).0,
        error_model(r.1) == idea_walk(models_of(v@)).1,
    decreases v@, 0int,
{
    proof {
        lemma_models_of_len(v@);
    }
    if v.len() == 0 {
        (v, None)
    } else {
        let mut vv = v;
        let first = vv.remove(0);
        proof {
            lemma_models_of_index(v@, 0);
            assert(vv@ =~= v@.subrange(1, v@.len() as int));
            lemma_models_of_subrange(v@, 1, v@.len() as int);
            assert(decreases_to!(v@ => v@.subrange(1, v@.len() as int)));
            assert(decreases_to!(v@ => v@[0]));
        }
        let ghost f0 = first;
        match first {
            FsNode::File { name, deletable } => {
                let is_iml = name_ends_in_iml(&name);
                if is_iml && deletable {
                    idea_walk_entries(vv)
                } else if is_iml {
                    let mut tail = vv;
                    let ghost t0 = tail@;
                    let back = FsNode::File { name: name.clone(), deletable };
                    proof {
                        assert(back@ == model_of(f0));
                        lemma_models_of_cons(back, t0);
                    }
                    tail.insert(0, back);
                    proof {
                        assert(tail@ =~= seq![back] + t0);
                        assert(models_of(tail@) =~= models_of(v@));
                    }
                    (tail, Some(SweepError { name }))
                } else {
                    let node = FsNode::File { name, deletable };
                    let (mut tail, err) = idea_walk_entries(vv);
                    let ghost t0 = tail@;
                    proof {
                        lemma_models_of_cons(node, t0);
                    }
                    tail.insert(0, node);
                    proof {
                        assert(tail@ =~= seq![node] + t0);
                    }
                    (tail, err)
                }
            },
            FsNode::Dir { name, entries, readable, deletable } => {
                let dir = FsNode::Dir { name, entries, readable, deletable };
                let (child, cerr) = idea_visit_node(dir);
                    match cerr {
                    Some(e) => {
                        let mut tail = vv;
                        let ghost t0 = tail@;
                        proof {
                            lemma_models_of_cons(child, t0);
                        }
                        tail.insert(0, child);
                        proof {
                            assert(tail@ =~= seq![child] + t0);
                        }
                        (tail, Some(e))
                    },
                    None => {
                        let (mut tail, terr) = idea_walk_entries(vv);
                        let ghost t0 = tail@;
                        proof {
                            lemma_models_of_cons(child, t0);
                        }
                        tail.insert(0, child);
                        proof {
                            assert(tail@ =~= seq![child] + t0);
                        }
                        (tail, terr)
                    },
                }
            },
        }
    }
}

fn idea_visit_node(d: FsNode) -> (r: (FsNode, Option<SweepError>))
    ensures
        r.0@ == idea_visit(d@).0,
        error_model(r.1) == idea_visit(d@).1,
    decreases d, 1int,
{
    let ghost d0 = d;
    match d {
        FsNode::File { name, deletable } => (FsNode::File { name, deletable }, None),
        FsNode::Dir { name, entries, readable, deletable } => {
            proof {
                assert(d0@->Dir_entries == models_of(entries@));
            }
            if !readable {
                (FsNode::Dir { name, entries, readable, deletable }, None)
            } else {
                proof {
                    assert(decreases_to!(d0 => d0->Dir_entries));
                    assert(decreases_to!(d0->Dir_entries => d0->Dir_entries@));
                    assert(decreases_to!(d0 => d0->Dir_entries@));
                }
                let (walked, err) = idea_walk_entries(entries);
                (FsNode::Dir { name, entries: walked, readable, deletable }, err)
            }
        },
    }
}

// ---------------------------------------------------------------------
// The sweepers and the chain.
// ---------------------------------------------------------------------

/// A unit of cleaning work: one rule applied to a whole tree.
pub trait Sweeper {
    /// What the sweeper does to a tree: the tree left behind, and the
    /// name of the entry whose deletion failed, if one did.
    spec fn sweep_spec(&self, t: FsModel) -> (FsModel, Option<Seq<char>>);

    /// Runs the sweeper over the tree under `root`.
    fn clean(&self, root: &mut FsNode) -> (r: Result<(), SweepError>)
        ensures
            final(root)@ == self.sweep_spec(old(root)@).0,
            result_model(r) == self.sweep_spec(old(root)@).1,
    ;
}

/// Removes the `target` directory of every Maven module reached by the
/// walk, skipping descent into `src`, `.idea` and `.git` subtrees.
#[derive(Clone, Copy, Debug, Default)]
pub struct MavenSweeper {}

impl MavenSweeper {
    /// Whether the entry is a directory that directly contains a file
    /// named `pom.xml`.
    pub fn is_maven_module(node: &FsNode) -> (r: bool)
        ensures
            r == spec_is_maven_module(node@),
    {
        match node {
            FsNode::Dir { entries, .. } => entries_have_pom(entries),
            FsNode::File { .. } => false,
        }
    }
}

impl Sweeper for MavenSweeper {
    open spec fn sweep_spec(&self, t: FsModel) -> (FsModel, Option<Seq<char>>) {
        maven_sweep(t)
    }

    fn clean(&self, root: &mut FsNode) -> (r: Result<(), SweepError>) {
        let mut work = FsNode::File { name: String::new(), deletable: true };
        core::mem::swap(root, &mut work);
        let (swept, err) = maven_visit_node(work, false);
        *root = swept;
        match err {
            None => Ok(()),
            Some(e) => Err(e),
        }
    }
}

/// Deletes every file whose name ends in `.iml`, anywhere in the tree.
#[derive(Clone, Copy, Debug, Default)]
pub struct IdeaSweeper {}

impl Sweeper for IdeaSweeper {
    open spec fn sweep_spec(&self, t: FsModel) -> (FsModel, Option<Seq<char>>) {
        idea_sweep(t)
    }

    fn clean(&self, root: &mut FsNode) -> (r: Result<(), SweepError>) {
        let mut work = FsNode::File { name: String::new(), deletable: true };
        core::mem::swap(root, &mut work);
        let (swept, err) = idea_visit_node(work);
        *root = swept;
        match err {
            None => Ok(()),
            Some(e) => Err(e),
        }
    }
}

/// The closed set of sweepers, dispatched by tag.
#[derive(Clone, Copy, Debug)]
pub enum SweeperKind {
    Maven(MavenSweeper),
    Idea(IdeaSweeper),
}

impl Sweeper for SweeperKind {
    open spec fn sweep_spec(&self, t: FsModel) -> (FsModel, Option<Seq<char>>) {
        match self {
            SweeperKind::Maven(s) => s.sweep_spec(t),
            SweeperKind::Idea(s) => s.sweep_spec(t),
        }
    }

    fn clean(&self, root: &mut FsNode) -> (r: Result<(), SweepError>) {
        match self {
            SweeperKind::Maven(s) => s.clean(root),
            SweeperKind::Idea(s) => s.clean(root),
        }
    }
}

/// What a chain does: each sweeper in order over the same tree,
/// stopping at the first failure, whose error is the one reported.
pub open spec fn chain_sweep(ks: Seq<SweeperKind>, t: FsModel) -> (FsModel, Option<Seq<char>>)
    decreases ks.len(),
{
    if ks.len() == 0 {
        (t, None)
    } else {
        let first = ks[0].sweep_spec(t);
        if first.1 is Some {
            first
        } else {
            chain_sweep(ks.subrange(1, ks.len() as int), first.0)
        }
    }
}

/// The sweepers a run enables: the Maven sweeper if `maven` is set,
/// then the Idea sweeper if `idea` is set. Neither flag gives the empty
/// chain, which touches nothing and succeeds.
pub open spec fn enabled_sweepers(maven: bool, idea: bool) -> Seq<SweeperKind> {
    (if maven {
        seq![SweeperKind::Maven(MavenSweeper {  })]
    } else {
        Seq::empty()
    }) + (if idea {
        seq![SweeperKind::Idea(IdeaSweeper {  })]
    } else {
        Seq::empty()
    })
}

/// An ordered sequence of sweepers run against the same root.
pub struct SweeperChain {
    sweepers: Vec<SweeperKind>,
}

impl View for SweeperChain {
    type V = Seq<SweeperKind>;

    closed spec fn view(&self) -> Seq<SweeperKind> {
        self.sweepers@
    }
}

impl SweeperChain {
    pub fn new() -> (c: SweeperChain)
        ensures
            c@ == Seq::<SweeperKind>::empty(),
    {
        SweeperChain { sweepers: Vec::new() }
    }

    /// The chain that a run's flags ask for.
    pub fn from_argument(arg: &Argument) -> (c: SweeperChain)
        ensures
            c@ == enabled_sweepers(arg.maven, arg.idea),
    {
        let mut chain = SweeperChain::new();
        if arg.maven {
            chain.add_sweeper(SweeperKind::Maven(MavenSweeper {  }));
        }
        if arg.idea {
            chain.add_sweeper(SweeperKind::Idea(IdeaSweeper {  }));
        }
        proof {
            assert(chain@ =~= enabled_sweepers(arg.maven, arg.idea));
        }
        chain
    }

    /// Appends a sweeper; insertion order is execution order.
    pub fn add_sweeper(&mut self, sweeper: SweeperKind)
        ensures
            final(self)@ == old(self)@.push(sweeper),
    {
        self.sweepers.push(sweeper);
    }

    /// Runs every sweeper over the tree under `root`, in order,
    /// stopping at the first failure.
    pub fn clean(&self, root: &mut FsNode) -> (r: Result<(), SweepError>)
        ensures
            final(root)@ == chain_sweep(self@, old(root)@).0,
            result_model(r) == chain_sweep(self@, old(root)@).1,
    {
        let mut work = FsNode::File { name: String::new(), deletable: true };
        core::mem::swap(root, &mut work);
        let ghost t0 = work@;
        proof {
            assert(self.sweepers@.subrange(0, self.sweepers@.len() as int) =~= self.sweepers@);
        }
        let mut i: usize = 0;
        let mut outcome: Result<(), SweepError> = Ok(());
        while i < self.sweepers.len()
            invariant
                0 <= i <= self.sweepers@.len(),
                outcome is Ok ==> chain_sweep(self.sweepers@, t0) == chain_sweep(
                    self.sweepers@.subrange(i as int, self.sweepers@.len() as int),
                    work@,
                ),
                outcome matches Err(e) ==> chain_sweep(self.sweepers@, t0) == (work@, Some(e@)),
            decreases self.sweepers@.len() - i,
        {
            if outcome.is_ok() {
                let ghost pre = work@;
                let ghost suffix = self.sweepers@.subrange(i as int, self.sweepers@.len() as int);
                let sweeper = self.sweepers[i];
                let r = sweeper.clean(&mut work);
                proof {
                    assert(suffix[0] == self.sweepers@[i as int]);
                    assert(suffix.subrange(1, suffix.len() as int) =~= self.sweepers@.subrange(
                        i as int + 1,
                        self.sweepers@.len() as int,
                    ));
                }
                match r {
                    Err(e) => {
                        proof {
                            assert(chain_sweep(suffix, pre) == (work@, Some(e@)));
                        }
                        outcome = Err(e);
                    },
                    Ok(_) => {
                        proof {
                            assert(chain_sweep(suffix, pre) == chain_sweep(
                                suffix.subrange(1, suffix.len() as int),
                                work@,
                            ));
                        }
                    },
                }
            }
            i += 1;
        }
        *root = work;
        outcome
    }
}

} // verus!
