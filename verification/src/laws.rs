use vstd::prelude::*;
use crate::tree::EntryModel;
use crate::tree::Entry;
use crate::tree::count_from;
use crate::tree::node_count;
use crate::render::hidden_name;
use crate::render::spec_connector;
use crate::render::spec_excluded;
use crate::render::spec_line;
use crate::render::spec_marker;
use crate::render::spec_render;
use crate::render::spec_render_siblings;

verus! {

/// The names of the subtree rooted at `e` in pre-order: the entry itself
/// first, then each child's subtree in listing order. Only directories
/// have reachable children.
pub open spec fn preorder_names(e: EntryModel) -> Seq<Seq<char>>
    decreases e, 1int, 0int,
{
    if e.is_dir {
        seq![e.name] + preorder_names_from(e.children, 0)
    } else {
        seq![e.name]
    }
}

/// The pre-order names of the subtrees rooted at `cs[i..]`.
pub open spec fn preorder_names_from(cs: Seq<EntryModel>, i: int) -> Seq<Seq<char>>
    decreases cs, 0int, cs.len() - i,
{
    if 0 <= i < cs.len() {
        preorder_names(cs[i]) + preorder_names_from(cs, i + 1)
    } else {
        Seq::empty()
    }
}

/// No entry of the subtree rooted at `e` is excluded: `e` itself is
/// visible, and so is every descendant.
pub open spec fn none_excluded(e: EntryModel, excl: Set<Seq<char>>) -> bool
    decreases e, 1int, 0int,
{
    &&& !spec_excluded(e, excl)
    &&& (e.is_dir ==> none_excluded_from(e.children, 0, excl))
}

/// No entry of the subtrees rooted at `cs[i..]` is excluded.
pub open spec fn none_excluded_from(cs: Seq<EntryModel>, i: int, excl: Set<Seq<char>>) -> bool
    decreases cs, 0int, cs.len() - i,
{
    0 <= i < cs.len() ==> (none_excluded(cs[i], excl) && none_excluded_from(cs, i + 1, excl))
}

/// There is one pre-order name per entry of the subtree.
pub proof fn lemma_preorder_names_count(e: EntryModel)
    ensures
        preorder_names(e).len() == node_count(e),
    decreases e, 1int, 0int,
{
    if e.is_dir {
        lemma_preorder_names_count_from(e.children, 0);
    }
}

/// There is one pre-order name per entry of the subtrees `cs[i..]`.
pub proof fn lemma_preorder_names_count_from(cs: Seq<EntryModel>, i: int)
    ensures
        preorder_names_from(cs, i).len() == count_from(cs, i),
    decreases cs, 0int, cs.len() - i,
{
    if 0 <= i < cs.len() {
        lemma_preorder_names_count(cs[i]);
        lemma_preorder_names_count_from(cs, i + 1);
    }
}

/// When no entry of the subtree is excluded, the output has exactly one
/// line per entry — `node_count(e)` lines in all — and the lines pair up
/// with the entries in pre-order: line `k` is for the entry whose name is
/// `preorder_names(e)[k]`, and ends with that name. Every entry therefore
/// appears exactly once, after its ancestors.
pub proof fn lemma_render_preorder(e: EntryModel, p: Seq<char>, il: bool, excl: Set<Seq<char>>)
    requires
        none_excluded(e, excl),
    ensures
        spec_render(e, p, il, excl).len() == node_count(e),
        spec_render(e, p, il, excl).len() == preorder_names(e).len(),
        forall|k: int|
            0 <= k < preorder_names(e).len() ==> (#[trigger] preorder_names(e)[k]).is_suffix_of(
                spec_render(e, p, il, excl)[k],
            ),
    decreases e, 1int, 0int,
{
    lemma_preorder_names_count(e);
    let lines = spec_render(e, p, il, excl);
    let names = preorder_names(e);
    let own = spec_line(p, il, e.name);
    assert(e.name.is_suffix_of(own)) by {
        assert(own.subrange(own.len() - e.name.len(), own.len() as int) =~= e.name);
    }
    if e.is_dir {
        let cp = p + spec_marker(il);
        lemma_render_preorder_from(e.children, 0, cp, excl);
        let sl = spec_render_siblings(e.children, 0, cp, excl);
        let sn = preorder_names_from(e.children, 0);
        assert(lines =~= seq![own] + sl);
        assert(names =~= seq![e.name] + sn);
        assert forall|k: int| 0 <= k < names.len() implies (#[trigger] names[k]).is_suffix_of(
            lines[k],
        ) by {
            if k > 0 {
                assert(names[k] == sn[k - 1]);
                assert(lines[k] == sl[k - 1]);
            }
        }
    }
}

/// The sibling part of the pre-order pairing, for the subtrees `cs[i..]`.
pub proof fn lemma_render_preorder_from(
    cs: Seq<EntryModel>,
    i: int,
    p: Seq<char>,
    excl: Set<Seq<char>>,
)
    requires
        none_excluded_from(cs, i, excl),
    ensures
        spec_render_siblings(cs, i, p, excl).len() == count_from(cs, i),
        spec_render_siblings(cs, i, p, excl).len() == preorder_names_from(cs, i).len(),
        forall|k: int|
            0 <= k < preorder_names_from(cs, i).len() ==> (#[trigger] preorder_names_from(
                cs,
                i,
            )[k]).is_suffix_of(spec_render_siblings(cs, i, p, excl)[k]),
    decreases cs, 0int, cs.len() - i,
{
    lemma_preorder_names_count_from(cs, i);
    if 0 <= i < cs.len() {
        lemma_render_preorder(cs[i], p, i == cs.len() - 1, excl);
        lemma_render_preorder_from(cs, i + 1, p, excl);
        let hl = spec_render(cs[i], p, i == cs.len() - 1, excl);
        let hn = preorder_names(cs[i]);
        let tl = spec_render_siblings(cs, i + 1, p, excl);
        let tn = preorder_names_from(cs, i + 1);
        assert(spec_render_siblings(cs, i, p, excl) == hl + tl);
        assert(preorder_names_from(cs, i) == hn + tn);
        assert forall|k: int| 0 <= k < (hn + tn).len() implies (#[trigger] (hn + tn)[k]).is_suffix_of(
            (hl + tl)[k],
        ) by {
            if k < hn.len() {
                assert((hn + tn)[k] == hn[k]);
                assert((hl + tl)[k] == hl[k]);
            } else {
                assert((hn + tn)[k] == tn[k - hn.len()]);
                assert((hl + tl)[k] == tl[k - hl.len()]);
            }
        }
    }
}

/// A directory whose name is in the exclusion set contributes nothing:
/// neither its own line nor any descendant's line reaches the output.
pub proof fn lemma_excluded_dir_renders_nothing(
    e: EntryModel,
    p: Seq<char>,
    il: bool,
    excl: Set<Seq<char>>,
)
    requires
        e.is_dir,
        excl.contains(e.name),
    ensures
        spec_render(e, p, il, excl) == Seq::<Seq<char>>::empty(),
{
}

/// A directory whose name starts with `.` contributes nothing, whatever
/// the exclusion set holds.
pub proof fn lemma_hidden_dir_renders_nothing(
    e: EntryModel,
    p: Seq<char>,
    il: bool,
    excl: Set<Seq<char>>,
)
    requires
        e.is_dir,
        hidden_name(e.name),
    ensures
        spec_render(e, p, il, excl) == Seq::<Seq<char>>::empty(),
{
}

/// A file is always rendered, as exactly its own line, even when its name
/// is in the exclusion set or starts with `.`.
pub proof fn lemma_file_always_rendered(
    e: EntryModel,
    p: Seq<char>,
    il: bool,
    excl: Set<Seq<char>>,
)
    requires
        !e.is_dir,
    ensures
        spec_render(e, p, il, excl) == seq![spec_line(p, il, e.name)],
{
}

/// A visible entry's own line comes first, opening with the prefix, then
/// the connector its last-sibling flag selects, then its name.
pub proof fn lemma_first_line_connector(
    e: EntryModel,
    p: Seq<char>,
    il: bool,
    excl: Set<Seq<char>>,
)
    requires
        !spec_excluded(e, excl),
    ensures
        spec_render(e, p, il, excl).len() >= 1,
        spec_render(e, p, il, excl)[0] == p + spec_connector(il) + e.name,
{
}

/// How a visible directory's output decomposes: its own line, then each
/// child's lines in listing order. Child `i` is rendered under the
/// extended prefix with its last-sibling flag set exactly when `i` is the
/// final raw index — an excluded entry still occupies its position, so no
/// later sibling inherits the flag.
pub proof fn lemma_render_unfold(e: EntryModel, p: Seq<char>, il: bool, excl: Set<Seq<char>>)
    requires
        e.is_dir,
        !spec_excluded(e, excl),
    ensures
        spec_render(e, p, il, excl) == seq![spec_line(p, il, e.name)] + spec_render_siblings(
            e.children,
            0,
            p + spec_marker(il),
            excl,
        ),
        forall|i: int|
            0 <= i < e.children.len() ==> #[trigger] spec_render_siblings(
                e.children,
                i,
                p + spec_marker(il),
                excl,
            ) == spec_render(e.children[i], p + spec_marker(il), i == e.children.len() - 1, excl)
                + spec_render_siblings(e.children, i + 1, p + spec_marker(il), excl),
{
}

/// Among a directory's children, the child at the final raw index — and
/// only that child — is rendered with the closing `└── ` connector; every
/// earlier visible sibling opens with `├── `. Recursively, this holds at
/// every depth, since `spec_render` passes each child's raw position on.
pub proof fn lemma_sibling_connectors(
    cs: Seq<EntryModel>,
    i: int,
    p: Seq<char>,
    excl: Set<Seq<char>>,
)
    requires
        0 <= i < cs.len(),
        !spec_excluded(cs[i], excl),
    ensures
        spec_render_siblings(cs, i, p, excl).len() >= 1,
        spec_render_siblings(cs, i, p, excl)[0] == p + spec_connector(i == cs.len() - 1)
            + cs[i].name,
{
    lemma_first_line_connector(cs[i], p, i == cs.len() - 1, excl);
}

/// The rendering depends only on the mathematical shape of the tree and
/// the set of excluded names: two snapshots with the same shape render to
/// the same lines, so re-running on an unchanged tree repeats the output.
pub proof fn lemma_render_repeatable(
    e1: Entry,
    e2: Entry,
    p: Seq<char>,
    il: bool,
    excl: Set<Seq<char>>,
)
    requires
        e1@ == e2@,
    ensures
        spec_render(e1@, p, il, excl) == spec_render(e2@, p, il, excl),
{
}

} // verus!
