use vstd::prelude::*;
use vstd::string::StrSliceExecFns;
use crate::tree::views_of;

verus! {

/// Whether `c` counts as whitespace when entries are trimmed.
pub uninterp spec fn spec_is_whitespace(c: char) -> bool;

/// Relies on char::is_whitespace: whether `c` has the Unicode whitespace
/// property, which depends on the character alone.
#[verifier::external_body]
fn is_whitespace_char(c: char) -> (r: bool)
    ensures
        r == spec_is_whitespace(c),
{
    c.is_whitespace()
}

/// `s` with every leading and trailing whitespace character removed.
pub open spec fn spec_trim(s: Seq<char>) -> Seq<char>
    decreases s.len(),
{
    if s.len() == 0 {
        s
    } else if spec_is_whitespace(s[0]) {
        spec_trim(s.skip(1))
    } else if spec_is_whitespace(s[s.len() - 1]) {
        spec_trim(s.take(s.len() - 1))
    } else {
        s
    }
}

/// Trimming keeps exactly the span from the first non-whitespace
/// character to the last one.
proof fn lemma_trim_bounds(s: Seq<char>, a: int, b: int)
    requires
        0 <= a <= b <= s.len(),
        forall|i: int| 0 <= i < a ==> spec_is_whitespace(s[i]),
        forall|i: int| b <= i < s.len() ==> spec_is_whitespace(s[i]),
        a == s.len() || !spec_is_whitespace(s[a]),
        b == a || !spec_is_whitespace(s[b - 1]),
    ensures
        spec_trim(s) == s.subrange(a, b),
    decreases s.len(),
{
    if s.len() == 0 {
        assert(spec_trim(s) =~= s.subrange(a, b));
    } else if spec_is_whitespace(s[0]) {
        assert(a >= 1);
        let t = s.skip(1);
        lemma_trim_bounds(t, a - 1, b - 1);
        assert(t.subrange(a - 1, b - 1) =~= s.subrange(a, b));
    } else if spec_is_whitespace(s[s.len() - 1]) {
        assert(a == 0);
        assert(b < s.len());
        let t = s.take(s.len() - 1);
        lemma_trim_bounds(t, a, b);
        assert(t.subrange(a, b) =~= s.subrange(a, b));
    } else {
        assert(a == 0);
        assert(b == s.len());
        assert(spec_trim(s) =~= s.subrange(a, b));
    }
}

/// `s` with leading and trailing whitespace removed.
pub fn trim_str(s: &str) -> (r: String)
    ensures
        r@ == spec_trim(s@),
{
    let n = s.unicode_len();
    let mut a: usize = 0;
    while a < n && is_whitespace_char(s.get_char(a))
        invariant
            a <= n,
            n == s@.len(),
            forall|i: int| 0 <= i < a ==> spec_is_whitespace(s@[i]),
        decreases n - a,
    {
        a += 1;
    }
    let mut b: usize = n;
    while b > a && is_whitespace_char(s.get_char(b - 1))
        invariant
            a <= b <= n,
            n == s@.len(),
            forall|i: int| b <= i < n ==> spec_is_whitespace(s@[i]),
        decreases b,
    {
        b -= 1;
    }
    proof {
        lemma_trim_bounds(s@, a as int, b as int);
    }
    s.substring_char(a, b).to_owned()
}

/// The pieces of `s` split on commas, read from position `i` on, with
/// `cur` the piece under construction: a comma ends the current piece and
/// starts an empty one, the end of the string ends the final piece. A
/// string of `k` commas yields `k + 1` pieces.
pub open spec fn split_from(s: Seq<char>, i: int, cur: Seq<char>) -> Seq<Seq<char>>
    decreases s.len() - i,
{
    if i < 0 || i >= s.len() {
        seq![cur]
    } else if s[i] == ',' {
        seq![cur] + split_from(s, i + 1, Seq::empty())
    } else {
        split_from(s, i + 1, cur.push(s[i]))
    }
}

/// The comma-separated pieces of `s`, untrimmed.
pub open spec fn split_commas(s: Seq<char>) -> Seq<Seq<char>> {
    split_from(s, 0, Seq::empty())
}

/// The folder names that a configuration string stands for: its
/// comma-separated pieces, each trimmed of surrounding whitespace.
pub open spec fn spec_excluded_entries(s: Seq<char>) -> Seq<Seq<char>> {
    split_commas(s).map_values(|t: Seq<char>| spec_trim(t))
}

/// The exclusion list used when no configuration value is present.
pub open spec fn spec_default_config() -> Seq<char> {
    "node_modules,build,bin,user-management-service,franchise-service,gradle,logs,customer-service,node_modules"@
}

/// Splits a configuration string on commas and trims each entry.
pub fn parse_excluded(s: &str) -> (r: Vec<String>)
    ensures
        views_of(r@) == spec_excluded_entries(s@),
{
    let ghost trim_fn = |t: Seq<char>| spec_trim(t);
    let n = s.unicode_len();
    let mut r: Vec<String> = Vec::new();
    let mut start: usize = 0;
    let mut i: usize = 0;
    proof {
        assert(s@.subrange(0, 0) =~= Seq::<char>::empty());
        assert(views_of(r@) =~= Seq::<Seq<char>>::empty());
        assert(views_of(r@) + split_from(s@, 0, s@.subrange(0, 0)).map_values(trim_fn)
            =~= spec_excluded_entries(s@));
    }
    while i < n
        invariant
            start <= i <= n,
            n == s@.len(),
            views_of(r@) + split_from(s@, i as int, s@.subrange(start as int, i as int)).map_values(
                trim_fn,
            ) == spec_excluded_entries(s@),
            trim_fn == (|t: Seq<char>| spec_trim(t)),
        decreases n - i,
    {
        let ghost cur = s@.subrange(start as int, i as int);
        if s.get_char(i) == ',' {
            let piece = trim_str(s.substring_char(start, i));
            r.push(piece);
            proof {
                assert(split_from(s@, i as int, cur) == seq![cur] + split_from(
                    s@,
                    i as int + 1,
                    Seq::empty(),
                ));
                assert((seq![cur] + split_from(s@, i as int + 1, Seq::empty())).map_values(trim_fn)
                    =~= seq![spec_trim(cur)] + split_from(s@, i as int + 1, Seq::empty()).map_values(
                    trim_fn,
                ));
                assert(views_of(r@) =~= views_of(r@.drop_last()) + seq![spec_trim(cur)]);
                assert(s@.subrange(i as int + 1, i as int + 1) =~= Seq::<char>::empty());
                assert(views_of(r@) + split_from(
                    s@,
                    i as int + 1,
                    s@.subrange(i as int + 1, i as int + 1),
                ).map_values(trim_fn) =~= spec_excluded_entries(s@));
            }
            start = i + 1;
        } else {
            proof {
                assert(s@.subrange(start as int, i as int + 1) =~= cur.push(s@[i as int]));
            }
        }
        i += 1;
    }
    let piece = trim_str(s.substring_char(start, n));
    r.push(piece);
    proof {
        let cur = s@.subrange(start as int, n as int);
        assert(split_from(s@, n as int, cur) == seq![cur]);
        assert(seq![cur].map_values(trim_fn) =~= seq![spec_trim(cur)]);
        assert(views_of(r@) =~= views_of(r@.drop_last()) + seq![spec_trim(cur)]);
        assert(views_of(r@) =~= spec_excluded_entries(s@));
    }
    r
}

/// The exclusion list the tool runs with: the entries of the
/// configuration value when one is present, the built-in default list
/// otherwise. Absence of configuration is not an error.
pub fn get_excluded_folders(config: Option<&str>) -> (r: Vec<String>)
    ensures
        config matches Some(s) ==> views_of(r@) == spec_excluded_entries(s@),
        config is None ==> views_of(r@) == spec_excluded_entries(spec_default_config()),
{
    match config {
        Some(s) => parse_excluded(s),
        None => parse_excluded(
            "node_modules,build,bin,user-management-service,franchise-service,gradle,logs,customer-service,node_modules",
        ),
    }
}

/// The set of folder names that a list of strings stands for: membership
/// is all that the renderer ever asks of the exclusion list, so duplicates
/// and order in the list are immaterial.
pub open spec fn name_set(excluded: Seq<String>) -> Set<Seq<char>> {
    Set::new(|n: Seq<char>| exists|i: int| 0 <= i < excluded.len() && excluded[i]@ == n)
}

/// Whether `name` is one of the excluded folder names.
pub fn contains_name(excluded: &Vec<String>, name: &String) -> (r: bool)
    ensures
        r == name_set(excluded@).contains(name@),
{
    let mut i: usize = 0;
    while i < excluded.len()
        invariant
            i <= excluded@.len(),
            forall|j: int| 0 <= j < i ==> excluded@[j]@ != name@,
        decreases excluded@.len() - i,
    {
        if excluded[i] == *name {
            assert(excluded@[i as int]@ == name@);
            return true;
        }
        i += 1;
    }
    false
}

} // verus!
