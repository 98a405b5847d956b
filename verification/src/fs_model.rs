//! The filesystem model that the sweepers work on.
//!
//! A run of the tool cleans one subtree of the filesystem. The library
//! represents that subtree as a value of [`FsNode`]: a plain file or a
//! directory with its immediate children. Two fault flags stand for the
//! I/O failures a real walk can meet: `readable` on a directory models
//! whether enumerating its children succeeds, and `deletable` on any
//! entry models whether deleting it succeeds (a permission error, or the
//! entry vanishing mid-walk).
//!
//! Contracts speak of [`FsModel`], the mathematical view of a node, in
//! which names are sequences of characters and children are a `Seq`.

use vstd::prelude::*;

verus! {

/// An entry of the filesystem tree, as the executable code holds it.
#[derive(Debug, PartialEq)]
pub enum FsNode {
    /// A plain file. `deletable` tells whether deleting it succeeds.
    File { name: String, deletable: bool },
    /// A directory with its immediate children. `readable` tells whether
    /// enumerating the children succeeds; `deletable` tells whether
    /// deleting the whole directory succeeds.
    Dir { name: String, entries: Vec<FsNode>, readable: bool, deletable: bool },
}

/// The mathematical view of an [`FsNode`].
pub enum FsModel {
    File { name: Seq<char>, deletable: bool },
    Dir { name: Seq<char>, entries: Seq<FsModel>, readable: bool, deletable: bool },
}

/// The view of a node: the same tree with names as character sequences.
pub open spec fn model_of(n: FsNode) -> FsModel
    decreases n,
{
    match n {
        FsNode::File { name, deletable } => FsModel::File { name: name@, deletable },
        FsNode::Dir { name, entries, readable, deletable } => FsModel::Dir {
            name: name@,
            entries: models_of(entries@),
            readable,
            deletable,
        },
    }
}

/// The views of a sequence of nodes, element by element.
pub open spec fn models_of(s: Seq<FsNode>) -> Seq<FsModel>
    decreases s,
{
    if s.len() == 0 {
        Seq::empty()
    } else {
        seq![model_of(s[0])] + models_of(s.subrange(1, s.len() as int))
    }
}

pub broadcast proof fn lemma_models_of_len(s: Seq<FsNode>)
    ensures
        #[trigger] models_of(s).len() == s.len(),
    decreases s,
{
    if s.len() > 0 {
        lemma_models_of_len(s.subrange(1, s.len() as int));
    }
}

pub broadcast proof fn lemma_models_of_index(s: Seq<FsNode>, i: int)
    requires
        0 <= i < s.len(),
    ensures
        #[trigger] models_of(s)[i] == model_of(s[i]),
    decreases s,
{
    lemma_models_of_len(s);
    if i > 0 {
        lemma_models_of_index(s.subrange(1, s.len() as int), i - 1);
    }
}

impl View for FsNode {
    type V = FsModel;

    open spec fn view(&self) -> FsModel {
        model_of(*self)
    }
}

/// The name of an entry, whichever variant it is.
pub open spec fn entry_name(m: FsModel) -> Seq<char> {
    match m {
        FsModel::File { name, .. } => name,
        FsModel::Dir { name, .. } => name,
    }
}

/// Whether deleting the entry succeeds.
pub open spec fn entry_deletable(m: FsModel) -> bool {
    match m {
        FsModel::File { deletable, .. } => deletable,
        FsModel::Dir { deletable, .. } => deletable,
    }
}

} // verus!
