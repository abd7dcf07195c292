use vstd::prelude::*;

verus! {

/// One filesystem entry in a captured snapshot: its final name segment,
/// whether it denotes a directory, and — for directories — its direct
/// children, in the order the directory listing yielded them. Whoever
/// captures the snapshot may leave `children` empty for a directory it
/// could not or did not read: the renderer then emits no child lines.
pub struct Entry {
    pub name: String,
    pub is_dir: bool,
    pub children: Vec<Entry>,
}

/// The mathematical shape of an [`Entry`]: the name as a character
/// sequence, the directory flag, and the children's shapes in listing
/// order. Contracts and laws are stated over this type.
pub struct EntryModel {
    pub name: Seq<char>,
    pub is_dir: bool,
    pub children: Seq<EntryModel>,
}

/// The model of `e`: names become character sequences, child vectors
/// become sequences of child models.
pub open spec fn entry_model(e: Entry) -> EntryModel
    decreases e, 1int, 0int,
{
    EntryModel { name: e.name@, is_dir: e.is_dir, children: models_from(e.children@, 0) }
}

/// The models of the entries `cs[i..]`, in order.
pub open spec fn models_from(cs: Seq<Entry>, i: int) -> Seq<EntryModel>
    decreases cs, 0int, cs.len() - i,
{
    if 0 <= i < cs.len() {
        seq![entry_model(cs[i])] + models_from(cs, i + 1)
    } else {
        Seq::empty()
    }
}

impl View for Entry {
    type V = EntryModel;

    open spec fn view(&self) -> EntryModel {
        entry_model(*self)
    }
}

/// `models_from(cs, i)` has one model per entry of `cs[i..]`, in order.
pub proof fn lemma_models_from(cs: Seq<Entry>, i: int)
    requires
        0 <= i <= cs.len(),
    ensures
        models_from(cs, i).len() == cs.len() - i,
        forall|j: int| i <= j < cs.len() ==> models_from(cs, i)[j - i] == entry_model(cs[j]),
    decreases cs.len() - i,
{
    if i < cs.len() {
        lemma_models_from(cs, i + 1);
    }
}

/// The model's children line up one for one with the entry's children.
pub proof fn lemma_model_children(e: Entry)
    ensures
        entry_model(e).children.len() == e.children@.len(),
        forall|j: int|
            0 <= j < e.children@.len() ==> entry_model(e).children[j] == entry_model(
                e.children@[j],
            ),
{
    lemma_models_from(e.children@, 0);
}

/// The views of a sequence of strings, element by element.
pub open spec fn views_of(v: Seq<String>) -> Seq<Seq<char>> {
    v.map_values(|s: String| s@)
}

/// Number of entries in the subtree rooted at `e`, the root included.
/// Only directories have reachable children; in a filesystem snapshot a
/// file has none, and the renderer never looks at them.
pub open spec fn node_count(e: EntryModel) -> nat
    decreases e, 1int, 0int,
{
    if e.is_dir {
        1 + count_from(e.children, 0)
    } else {
        1
    }
}

/// Total number of entries in the subtrees rooted at `cs[i..]`.
pub open spec fn count_from(cs: Seq<EntryModel>, i: int) -> nat
    decreases cs, 0int, cs.len() - i,
{
    if 0 <= i < cs.len() {
        node_count(cs[i]) + count_from(cs, i + 1)
    } else {
        0
    }
}

} // verus!
