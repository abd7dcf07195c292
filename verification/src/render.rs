use vstd::prelude::*;
use vstd::string::StrSliceExecFns;
use vstd::string::StringExecFns;
use crate::exclude::contains_name;
use crate::exclude::name_set;
use crate::tree::Entry;
use crate::tree::EntryModel;
use crate::tree::lemma_model_children;
use crate::tree::views_of;

verus! {

/// The connector token put before an entry's name: the closing corner for
/// the last sibling, the tee for every earlier sibling.
pub open spec fn spec_connector(is_last: bool) -> Seq<char> {
    if is_last {
        "└── "@
    } else {
        "├── "@
    }
}

/// The continuation marker appended to the prefix for an entry's
/// children: blank spaces past the last sibling, a vertical bar while
/// siblings remain below.
pub open spec fn spec_marker(is_last: bool) -> Seq<char> {
    if is_last {
        "    "@
    } else {
        "│   "@
    }
}

/// A name is hidden when it starts with the `.` marker.
pub open spec fn hidden_name(name: Seq<char>) -> bool {
    name.len() > 0 && name[0] == '.'
}

/// An entry is skipped entirely when it is a directory whose name is in
/// the exclusion set or is hidden. Files are never skipped, whatever
/// their name.
pub open spec fn spec_excluded(e: EntryModel, excl: Set<Seq<char>>) -> bool {
    e.is_dir && (excl.contains(e.name) || hidden_name(e.name))
}

/// The one output line of an entry: prefix, then connector, then name.
pub open spec fn spec_line(prefix: Seq<char>, is_last: bool, name: Seq<char>) -> Seq<char> {
    prefix + spec_connector(is_last) + name
}

/// The lines of the subtree rooted at `e`, in output order: nothing for
/// an excluded directory; otherwise the entry's own line first, then the
/// lines of its children in listing order (pre-order, parent before
/// descendants). Only directories contribute child lines.
pub open spec fn spec_render(
    e: EntryModel,
    prefix: Seq<char>,
    is_last: bool,
    excl: Set<Seq<char>>,
) -> Seq<Seq<char>>
    decreases e, 1int, 0int,
{
    if spec_excluded(e, excl) {
        Seq::empty()
    } else if e.is_dir {
        seq![spec_line(prefix, is_last, e.name)] + spec_render_siblings(
            e.children,
            0,
            prefix + spec_marker(is_last),
            excl,
        )
    } else {
        seq![spec_line(prefix, is_last, e.name)]
    }
}

/// The lines of the children `cs[i..]`, each rendered under `prefix`.
/// `is_last` is decided by raw position in the full listing: exactly the
/// entry at index `cs.len() - 1` is last, even when an excluded entry
/// occupies that position and produces no lines.
pub open spec fn spec_render_siblings(
    cs: Seq<EntryModel>,
    i: int,
    prefix: Seq<char>,
    excl: Set<Seq<char>>,
) -> Seq<Seq<char>>
    decreases cs, 0int, cs.len() - i,
{
    if 0 <= i < cs.len() {
        spec_render(cs[i], prefix, i == cs.len() - 1, excl) + spec_render_siblings(
            cs,
            i + 1,
            prefix,
            excl,
        )
    } else {
        Seq::empty()
    }
}

/// The connector for an entry: `└── ` for the last sibling, `├── ` else.
pub fn connector(is_last: bool) -> (r: &'static str)
    ensures
        r@ == spec_connector(is_last),
{
    if is_last {
        "└── "
    } else {
        "├── "
    }
}

/// The continuation marker carried into a subtree.
pub fn marker(is_last: bool) -> (r: &'static str)
    ensures
        r@ == spec_marker(is_last),
{
    if is_last {
        "    "
    } else {
        "│   "
    }
}

/// Whether `name` starts with the hidden marker `.`.
pub fn starts_with_dot(name: &String) -> (r: bool)
    ensures
        r == hidden_name(name@),
{
    let s = name.as_str();
    if s.unicode_len() == 0 {
        false
    } else {
        s.get_char(0) == '.'
    }
}

/// Whether the renderer skips this entry: a directory whose name is in
/// the exclusion list or starts with `.`.
pub fn is_excluded_dir(name: &String, is_dir: bool, excluded: &Vec<String>) -> (r: bool)
    ensures
        r == (is_dir && (name_set(excluded@).contains(name@) || hidden_name(name@))),
{
    is_dir && (contains_name(excluded, name) || starts_with_dot(name))
}

/// Builds an entry's output line from its parts.
fn make_line(prefix: &str, is_last: bool, name: &String) -> (r: String)
    ensures
        r@ == spec_line(prefix@, is_last, name@),
{
    let mut r: String = prefix.to_owned();
    r.append(connector(is_last));
    r.append(name.as_str());
    r
}

/// Appends the lines of the subtree rooted at `e` to `out`.
fn render_into(e: &Entry, prefix: &str, is_last: bool, excluded: &Vec<String>, out: &mut Vec<String>)
    ensures
        views_of(final(out)@) == views_of(old(out)@) + spec_render(
            e@,
            prefix@,
            is_last,
            name_set(excluded@),
        ),
    decreases *e,
{
    let ghost x = name_set(excluded@);
    let ghost lines0 = views_of(out@);
    if is_excluded_dir(&e.name, e.is_dir, excluded) {
        assert(spec_excluded(e@, x));
        assert(views_of(out@) =~= lines0 + spec_render(e@, prefix@, is_last, x));
        return ;
    }
    let line = make_line(prefix, is_last, &e.name);
    out.push(line);
    assert(views_of(out@) =~= lines0.push(spec_line(prefix@, is_last, e.name@)));
    if e.is_dir {
        let mut child_prefix: String = prefix.to_owned();
        child_prefix.append(marker(is_last));
        let n = e.children.len();
        proof {
            lemma_model_children(*e);
            assert(views_of(out@) + spec_render_siblings(e@.children, 0, child_prefix@, x)
                =~= lines0 + spec_render(e@, prefix@, is_last, x));
        }
        let mut i: usize = 0;
        while i < n
            invariant
                n == e.children@.len(),
                i <= n,
                e@.children.len() == n,
                forall|j: int| 0 <= j < n ==> e@.children[j] == e.children@[j]@,
                e@.is_dir,
                !spec_excluded(e@, x),
                x == name_set(excluded@),
                views_of(out@) + spec_render_siblings(e@.children, i as int, child_prefix@, x)
                    == lines0 + spec_render(e@, prefix@, is_last, x),
            decreases n - i,
        {
            render_into(&e.children[i], child_prefix.as_str(), i == n - 1, excluded, out);
            proof {
                assert(spec_render_siblings(e@.children, i as int, child_prefix@, x)
                    == spec_render(e@.children[i as int], child_prefix@, i == n - 1, x)
                    + spec_render_siblings(e@.children, i as int + 1, child_prefix@, x));
                assert(views_of(out@) + spec_render_siblings(
                    e@.children,
                    i as int + 1,
                    child_prefix@,
                    x,
                ) =~= lines0 + spec_render(e@, prefix@, is_last, x));
            }
            i += 1;
        }
        assert(spec_render_siblings(e@.children, n as int, child_prefix@, x)
            =~= Seq::<Seq<char>>::empty());
        assert(views_of(out@) =~= views_of(out@) + spec_render_siblings(
            e@.children,
            n as int,
            child_prefix@,
            x,
        ));
    } else {
        assert(views_of(out@) =~= lines0 + spec_render(e@, prefix@, is_last, x));
    }
}

/// The lines of the subtree rooted at `e`, rendered under `prefix` with
/// the given last-sibling flag and exclusion list.
pub fn render(e: &Entry, prefix: &str, is_last: bool, excluded: &Vec<String>) -> (lines: Vec<
    String,
>)
    ensures
        views_of(lines@) == spec_render(e@, prefix@, is_last, name_set(excluded@)),
{
    let mut lines: Vec<String> = Vec::new();
    assert(views_of(lines@) =~= Seq::<Seq<char>>::empty());
    render_into(e, prefix, is_last, excluded, &mut lines);
    assert(views_of(lines@) =~= spec_render(e@, prefix@, is_last, name_set(excluded@)));
    lines
}

/// The full tree rendering that the tool prints under its header: the
/// root is rendered with an empty prefix and counts as a last sibling.
pub fn render_tree(root: &Entry, excluded: &Vec<String>) -> (lines: Vec<String>)
    ensures
        views_of(lines@) == spec_render(root@, Seq::empty(), true, name_set(excluded@)),
{
    proof {
        reveal_strlit("");
        assert(""@ =~= Seq::<char>::empty());
    }
    render(root, "", true, excluded)
}

} // verus!
