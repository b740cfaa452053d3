use vstd::prelude::*;
use vstd::string::StrSliceExecFns;

verus! {

/// A label is cut once it would reach this many characters.
pub const LABEL_LIMIT: usize = 25;

/// `/c[start]/c[start + 1]/.../c[n - 1]`.
pub open spec fn tail_label(cs: Seq<Seq<char>>, start: int) -> Seq<char>
    decreases cs.len() - start,
{
    if start < 0 || start >= cs.len() {
        Seq::empty()
    } else {
        seq!['/'] + cs[start] + tail_label(cs, start + 1)
    }
}

/// The first component kept when the label starts at `start` and parents
/// are prepended while the label stays under the limit.
pub open spec fn first_kept(cs: Seq<Seq<char>>, start: int) -> int
    decreases start,
{
    if start <= 0 {
        0
    } else if tail_label(cs, start - 1).len() < LABEL_LIMIT {
        first_kept(cs, start - 1)
    } else {
        start
    }
}

/// The label of a path given by its components (the root left out): the
/// innermost components that fit, with `…` in front when some were left out,
/// and `~` in front of a whole path that lies in the home directory.
pub open spec fn pretty(cs: Seq<Seq<char>>, in_home: bool) -> Seq<char> {
    let first = first_kept(cs, cs.len() - 1);
    let label = tail_label(cs, first);
    if first > 0 {
        seq!['…'] + label
    } else if in_home {
        seq!['~'] + label
    } else {
        label
    }
}

/// The components of `path` below `home`, if `home` is a prefix of it.
pub open spec fn below(path: Seq<Seq<char>>, home: Seq<Seq<char>>) -> Option<Seq<Seq<char>>> {
    if home.len() <= path.len() && path.subrange(0, home.len() as int) == home {
        Some(path.subrange(home.len() as int, path.len() as int))
    } else {
        None
    }
}

/// The label of a canonical path, given with the home directory as
/// component lists (root left out).
pub open spec fn pretty_path(path: Seq<Seq<char>>, home: Seq<Seq<char>>) -> Option<Seq<char>> {
    match below(path, home) {
        Some(rest) => if rest.len() > 0 {
            Some(pretty(rest, true))
        } else {
            None
        },
        None => if path.len() > 0 {
            Some(pretty(path, false))
        } else {
            None
        },
    }
}

/// The view of each component.
pub open spec fn component_views(v: Seq<String>) -> Seq<Seq<char>> {
    v.map_values(|c: String| c@)
}

/// Whether `home` is a prefix of `path`, component by component.
fn starts_with_components(path: &Vec<String>, home: &Vec<String>) -> (r: bool)
    ensures
        r == (home@.len() <= path@.len() && component_views(path@).subrange(0, home@.len() as int)
            == component_views(home@)),
{
    if home.len() > path.len() {
        return false;
    }
    let mut i: usize = 0;
    while i < home.len()
        invariant
            i <= home@.len() <= path@.len(),
            forall|j: int| 0 <= j < i ==> path@[j]@ == home@[j]@,
        decreases home@.len() - i,
    {
        if path[i] != home[i] {
            assert(component_views(path@).subrange(0, home@.len() as int)[i as int]
                != component_views(home@)[i as int]);
            return false;
        }
        i += 1;
    }
    assert(component_views(path@).subrange(0, home@.len() as int) =~= component_views(home@));
    true
}

/// The label of the components `cs`, built from the innermost outwards.
fn label_of(cs: &Vec<String>, in_home: bool) -> (r: String)
    requires
        cs@.len() > 0,
    ensures
        r@ == pretty(component_views(cs@), in_home),
{
    let ghost v = component_views(cs@);
    let n = cs.len();
    let mut label = String::new();
    proof {
        reveal_strlit("/");
    }
    label.append("/");
    label.append(cs[n - 1].as_str());
    assert(tail_label(v, n as int) == Seq::<char>::empty());
    assert(label@ =~= tail_label(v, n - 1));
    let mut start: usize = n - 1;
    while start > 0
        invariant
            start < n == cs@.len(),
            v == component_views(cs@),
            label@ == tail_label(v, start as int),
            first_kept(v, n - 1) == first_kept(v, start as int),
        decreases start,
    {
        let mut next = String::new();
        proof {
            reveal_strlit("/");
        }
        next.append("/");
        next.append(cs[start - 1].as_str());
        next.append(label.as_str());
        assert(v[start - 1] == cs@[start - 1]@);
        assert(tail_label(v, start - 1) == seq!['/'] + v[start - 1] + tail_label(v, start as int));
        assert(next@ =~= tail_label(v, start - 1));
        if next.as_str().unicode_len() < LABEL_LIMIT {
            assert(first_kept(v, start as int) == first_kept(v, start - 1));
            label = next;
            start -= 1;
        } else {
            let mut cut = String::new();
            proof {
                reveal_strlit("…");
            }
            cut.append("…");
            cut.append(label.as_str());
            return cut;
        }
    }
    if in_home {
        let mut r = String::new();
        proof {
            reveal_strlit("~");
        }
        r.append("~");
        r.append(label.as_str());
        r
    } else {
        label
    }
}

/// The label of a canonical path (`path`) given as its components, the root
/// left out, beside those of the home directory (`home`). `None` when no
/// component is left to show (the root, or the home directory itself).
pub fn make_pretty(path: &Vec<String>, home: &Vec<String>) -> (r: Option<String>)
    ensures
        r matches Some(l) ==> pretty_path(component_views(path@), component_views(home@)) == Some(
            l@,
        ),
        r is None ==> pretty_path(component_views(path@), component_views(home@)) is None,
{
    if starts_with_components(path, home) {
        let mut rest: Vec<String> = Vec::new();
        let mut i: usize = home.len();
        while i < path.len()
            invariant
                home@.len() <= i <= path@.len(),
                component_views(rest@) == component_views(path@).subrange(
                    home@.len() as int,
                    i as int,
                ),
            decreases path@.len() - i,
        {
            let c = path[i].clone();
            let ghost old_rest = rest@;
            rest.push(c);
            assert(component_views(rest@) =~= component_views(old_rest).push(path@[i as int]@));
            assert(component_views(rest@) =~= component_views(path@).subrange(
                home@.len() as int,
                i + 1,
            ));
            i += 1;
        }
        if rest.len() == 0 {
            None
        } else {
            Some(label_of(&rest, true))
        }
    } else if path.len() == 0 {
        None
    } else {
        Some(label_of(path, false))
    }
}

/// The label of a path in the home directory that is shown whole starts
/// with `~/`; one that had to be cut starts with `…/`.
pub proof fn lemma_home_label(cs: Seq<Seq<char>>)
    requires
        cs.len() > 0,
    ensures
        first_kept(cs, cs.len() - 1) == 0 ==> pretty(cs, true).take(2) == seq!['~', '/'],
        first_kept(cs, cs.len() - 1) > 0 ==> pretty(cs, true).take(2) == seq!['…', '/'],
{
    lemma_first_kept_bounds(cs, cs.len() - 1);
    let first = first_kept(cs, cs.len() - 1);
    assert(tail_label(cs, first)[0] == '/');
    assert(pretty(cs, true).take(2) =~= seq![pretty(cs, true)[0], '/']);
}

proof fn lemma_first_kept_bounds(cs: Seq<Seq<char>>, start: int)
    requires
        0 <= start < cs.len(),
    ensures
        0 <= first_kept(cs, start) <= start,
    decreases start,
{
    if start > 0 {
        lemma_first_kept_bounds(cs, start - 1);
    }
}

} // verus!
