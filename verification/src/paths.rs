//! Path values and the join operation.
//!
//! A path is a string; `/` is the separator. Joining a segment onto a path
//! appends it after a separator, except that an absolute segment (one that
//! starts with `/`) replaces the accumulated path entirely, and joining onto
//! an empty path yields the segment alone.

use vstd::prelude::*;

verus! {

/// A path is absolute when it starts with the separator.
pub open spec fn is_absolute_spec(p: Seq<char>) -> bool {
    p.len() > 0 && p[0] == '/'
}

/// One join step: what appending segment `b` onto path `a` yields.
pub open spec fn join_one(a: Seq<char>, b: Seq<char>) -> Seq<char> {
    if is_absolute_spec(b) {
        b
    } else if a.len() == 0 {
        b
    } else if a.last() == '/' {
        a + b
    } else {
        a + seq!['/'] + b
    }
}

/// The path value of a segment list: the iterative join of the segments,
/// starting from the empty path.
pub open spec fn join_all(segs: Seq<Seq<char>>) -> Seq<char>
    decreases segs,
{
    if segs.len() == 0 {
        Seq::empty()
    } else {
        join_one(join_all(segs.drop_last()), segs.last())
    }
}

/// The character sequences of a list of strings, element by element.
pub open spec fn str_views(ss: Seq<String>) -> Seq<Seq<char>>
    decreases ss,
{
    if ss.len() == 0 {
        Seq::empty()
    } else {
        str_views(ss.drop_last()).push(ss.last()@)
    }
}

/// `str_views` maps the view over the list, index by index.
pub broadcast proof fn lemma_str_views_index(ss: Seq<String>)
    ensures
        (#[trigger] str_views(ss)).len() == ss.len(),
        forall|i: int| 0 <= i < ss.len() ==> str_views(ss)[i] == ss[i]@,
    decreases ss,
{
    if ss.len() > 0 {
        lemma_str_views_index(ss.drop_last());
        assert(str_views(ss) == str_views(ss.drop_last()).push(ss.last()@));
        assert forall|i: int| 0 <= i < ss.len() implies str_views(ss)[i] == ss[i]@ by {
            if i < ss.len() - 1 {
                assert(str_views(ss.drop_last()).push(ss.last()@)[i] == str_views(
                    ss.drop_last(),
                )[i]);
                assert(ss.drop_last()[i] == ss[i]);
            } else {
                assert(str_views(ss.drop_last()).push(ss.last()@)[i] == ss.last()@);
            }
        }
    }
}

/// Appending one string to a list appends its characters to the views.
pub proof fn lemma_str_views_snoc(ss: Seq<String>, x: String)
    ensures
        str_views(ss.push(x)) == str_views(ss).push(x@),
{
    assert(ss.push(x).drop_last() =~= ss);
    assert(ss.push(x).last() == x);
}

/// An absolute segment resets the accumulated path: joining it onto any
/// path yields the segment itself.
pub proof fn lemma_absolute_segment_resets(a: Seq<char>, b: Seq<char>)
    requires
        is_absolute_spec(b),
    ensures
        join_one(a, b) == b,
{
}

/// The path value of a non-empty segment list is the join of its last
/// segment onto the value of the rest: `join_all` is the iterative,
/// segment-by-segment join.
pub proof fn lemma_join_all_step(segs: Seq<Seq<char>>)
    requires
        segs.len() > 0,
    ensures
        join_all(segs) == join_one(join_all(segs.drop_last()), segs.last()),
{
}

/// Whether the path is absolute.
pub fn is_absolute(p: &str) -> (r: bool)
    ensures
        r == is_absolute_spec(p@),
{
    if p.unicode_len() == 0 {
        false
    } else {
        p.get_char(0) == '/'
    }
}

/// Joins one segment onto an accumulated path, in place.
pub fn join_push(acc: &mut String, seg: &str)
    ensures
        final(acc)@ == join_one(old(acc)@, seg@),
{
    if is_absolute(seg) {
        *acc = seg.to_owned();
    } else {
        let n = acc.as_str().unicode_len();
        if n == 0 {
            *acc = seg.to_owned();
        } else {
            let last = acc.as_str().get_char(n - 1);
            if last != '/' {
                acc.append("/");
                proof {
                    reveal_strlit("/");
                    assert(old(acc)@ + "/"@ =~= old(acc)@ + seq!['/']);
                }
            }
            acc.append(seg);
            proof {
                if last != '/' {
                    assert(acc@ =~= old(acc)@ + seq!['/'] + seg@);
                }
            }
        }
    }
}

/// The path value of a segment list: every segment joined in order onto an
/// initially empty path.
pub fn join_segments(segs: &Vec<String>) -> (r: String)
    ensures
        r@ == join_all(str_views(segs@)),
{
    broadcast use lemma_str_views_index;

    let mut acc = String::new();
    let mut i: usize = 0;
    while i < segs.len()
        invariant
            i <= segs@.len(),
            acc@ == join_all(str_views(segs@).subrange(0, i as int)),
        decreases segs@.len() - i,
    {
        join_push(&mut acc, segs[i].as_str());
        proof {
            lemma_str_views_index(segs@);
            let full = str_views(segs@);
            let pre = full.subrange(0, i as int);
            let cur = full.subrange(0, i as int + 1);
            assert(cur.drop_last() =~= pre);
            assert(cur.last() == segs@[i as int]@);
            assert(join_all(cur) == join_one(join_all(pre), segs@[i as int]@));
        }
        i = i + 1;
    }
    proof {
        assert(str_views(segs@).subrange(0, segs@.len() as int) =~= str_views(segs@));
    }
    acc
}

/// The resolved path: an absolute input is kept as it is; a relative input
/// is joined onto the root.
pub open spec fn resolved_spec(root: Seq<char>, p: Seq<char>) -> Seq<char> {
    if is_absolute_spec(p) {
        p
    } else {
        join_one(root, p)
    }
}

/// Resolves a path against the root directory.
pub fn resolve_against(root: &str, p: &str) -> (r: String)
    ensures
        r@ == resolved_spec(root@, p@),
{
    if is_absolute(p) {
        p.to_owned()
    } else {
        let mut acc = root.to_owned();
        join_push(&mut acc, p);
        acc
    }
}

} // verus!
