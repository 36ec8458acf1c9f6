//! Decomposition of a path into its syntactic components.
//!
//! A path splits on `/` into pieces. A leading separator contributes a root
//! component; empty pieces are dropped; a `.` piece is dropped except as the
//! first piece of a relative path; `..` is a parent-directory component; any
//! other piece is a normal component. The file name, file stem, extension
//! and parent of a path are defined over these components, with no
//! filesystem access.

use vstd::prelude::*;

use crate::paths::{
    is_absolute, is_absolute_spec, join_all, join_one, join_segments, lemma_str_views_index,
    lemma_str_views_snoc, str_views,
};

verus! {

/// One syntactic component of a path.
pub enum Component {
    /// The leading `/` of an absolute path.
    RootDir,
    /// A leading `.` of a relative path.
    CurDir,
    /// A `..` piece.
    ParentDir,
    /// Any other non-empty piece.
    Normal(String),
}

/// The mathematical shape of a [`Component`].
pub enum SpecComponent {
    RootDir,
    CurDir,
    ParentDir,
    Normal(Seq<char>),
}

impl View for Component {
    type V = SpecComponent;

    open spec fn view(&self) -> SpecComponent {
        match self {
            Component::RootDir => SpecComponent::RootDir,
            Component::CurDir => SpecComponent::CurDir,
            Component::ParentDir => SpecComponent::ParentDir,
            Component::Normal(s) => SpecComponent::Normal(s@),
        }
    }
}

/// The views of a component list, element by element.
pub open spec fn comp_views(cs: Seq<Component>) -> Seq<SpecComponent>
    decreases cs,
{
    if cs.len() == 0 {
        Seq::empty()
    } else {
        comp_views(cs.drop_last()).push(cs.last()@)
    }
}

/// `comp_views` maps the view over the list, index by index.
pub proof fn lemma_comp_views_index(cs: Seq<Component>)
    ensures
        comp_views(cs).len() == cs.len(),
        forall|i: int| 0 <= i < cs.len() ==> comp_views(cs)[i] == cs[i]@,
    decreases cs,
{
    if cs.len() > 0 {
        lemma_comp_views_index(cs.drop_last());
        assert(comp_views(cs) == comp_views(cs.drop_last()).push(cs.last()@));
        assert forall|i: int| 0 <= i < cs.len() implies comp_views(cs)[i] == cs[i]@ by {
            if i < cs.len() - 1 {
                assert(comp_views(cs.drop_last()).push(cs.last()@)[i] == comp_views(
                    cs.drop_last(),
                )[i]);
                assert(cs.drop_last()[i] == cs[i]);
            } else {
                assert(comp_views(cs.drop_last()).push(cs.last()@)[i] == cs.last()@);
            }
        }
    }
}

/// Whether the piece is a single dot.
pub open spec fn is_dot(s: Seq<char>) -> bool {
    s.len() == 1 && s[0] == '.'
}

/// Whether the piece is a double dot.
pub open spec fn is_dot_dot(s: Seq<char>) -> bool {
    s.len() == 2 && s[0] == '.' && s[1] == '.'
}

/// The least position at or after `i` holding a separator, or the path's
/// length when there is none.
pub open spec fn first_slash(p: Seq<char>, i: int) -> int
    decreases p.len() - i,
{
    if i < 0 || i >= p.len() {
        p.len() as int
    } else if p[i] == '/' {
        i
    } else {
        first_slash(p, i + 1)
    }
}

/// `first_slash` stays within bounds.
pub proof fn lemma_first_slash_range(p: Seq<char>, i: int)
    requires
        0 <= i <= p.len(),
    ensures
        i <= first_slash(p, i) <= p.len(),
    decreases p.len() - i,
{
    if i < p.len() && p[i] != '/' {
        lemma_first_slash_range(p, i + 1);
    }
}

/// The pieces of the path from position `i` on, split on `/`: the text
/// between consecutive separators, empty pieces included.
pub open spec fn split_from(p: Seq<char>, i: int) -> Seq<Seq<char>>
    recommends
        0 <= i <= p.len(),
    decreases p.len() - i,
{
    let k = first_slash(p, i);
    if k >= p.len() {
        seq![p.subrange(i, p.len() as int)]
    } else {
        proof {
            if 0 <= i <= p.len() {
                lemma_first_slash_range(p, i);
            }
        }
        seq![p.subrange(i, k)] + split_from(p, k + 1)
    }
}

/// The components contributed by the pieces from position `j` on.
/// `root` says whether the whole path is absolute.
pub open spec fn comps_of_pieces(pieces: Seq<Seq<char>>, j: int, root: bool) -> Seq<SpecComponent>
    decreases pieces.len() - j,
{
    if j < 0 || j >= pieces.len() {
        Seq::empty()
    } else {
        let s = pieces[j];
        let rest = comps_of_pieces(pieces, j + 1, root);
        if s.len() == 0 {
            rest
        } else if is_dot(s) {
            if j == 0 && !root {
                seq![SpecComponent::CurDir] + rest
            } else {
                rest
            }
        } else if is_dot_dot(s) {
            seq![SpecComponent::ParentDir] + rest
        } else {
            seq![SpecComponent::Normal(s)] + rest
        }
    }
}

/// The components of a path.
pub open spec fn comps_spec(p: Seq<char>) -> Seq<SpecComponent> {
    if is_absolute_spec(p) {
        seq![SpecComponent::RootDir] + comps_of_pieces(split_from(p, 0), 0, true)
    } else {
        comps_of_pieces(split_from(p, 0), 0, false)
    }
}

/// The text of one component.
pub open spec fn comp_text(c: SpecComponent) -> Seq<char> {
    match c {
        SpecComponent::RootDir => seq!['/'],
        SpecComponent::CurDir => seq!['.'],
        SpecComponent::ParentDir => seq!['.', '.'],
        SpecComponent::Normal(s) => s,
    }
}

/// The texts of a component list, element by element.
pub open spec fn comp_texts(cs: Seq<SpecComponent>) -> Seq<Seq<char>>
    decreases cs,
{
    if cs.len() == 0 {
        Seq::empty()
    } else {
        comp_texts(cs.drop_last()).push(comp_text(cs.last()))
    }
}

/// A component list rendered back into a path: its texts joined in order.
pub open spec fn render_spec(cs: Seq<SpecComponent>) -> Seq<char> {
    join_all(comp_texts(cs))
}

/// The file name of a path: its last component, when that component is a
/// normal one.
pub open spec fn file_name_spec(p: Seq<char>) -> Option<Seq<char>> {
    let cs = comps_spec(p);
    if cs.len() == 0 {
        None
    } else {
        match cs.last() {
            SpecComponent::Normal(n) => Some(n),
            _ => None,
        }
    }
}

/// The parent of a path: the path without its last component. The empty
/// path and a lone root have no parent.
pub open spec fn parent_spec(p: Seq<char>) -> Option<Seq<char>> {
    let cs = comps_spec(p);
    if cs.len() == 0 || (cs.last() matches SpecComponent::RootDir) {
        None
    } else {
        Some(render_spec(cs.drop_last()))
    }
}

/// The greatest position in `1 .. i + 1` holding a dot, or `-1` when there
/// is none: a dot in position 0 marks a hidden file, not an extension.
pub open spec fn last_dot(name: Seq<char>, i: int) -> int
    decreases i + 1,
{
    if i < 1 || i >= name.len() {
        -1
    } else if name[i] == '.' {
        i
    } else {
        last_dot(name, i - 1)
    }
}

/// The file stem of a path: its file name up to the last dot, or the whole
/// file name when no dot splits it.
pub open spec fn file_stem_spec(p: Seq<char>) -> Option<Seq<char>> {
    match file_name_spec(p) {
        Option::None => Option::None,
        Option::Some(n) => {
            let d = last_dot(n, n.len() - 1);
            if d < 1 {
                Option::Some(n)
            } else {
                Option::Some(n.subrange(0, d))
            }
        },
    }
}

/// The extension of a path: what follows the last dot of its file name,
/// when a dot splits it.
pub open spec fn extension_spec(p: Seq<char>) -> Option<Seq<char>> {
    match file_name_spec(p) {
        Option::None => Option::None,
        Option::Some(n) => {
            let d = last_dot(n, n.len() - 1);
            if d < 1 {
                Option::None
            } else {
                Option::Some(n.subrange(d + 1, n.len() as int))
            }
        },
    }
}

/// Decomposing and re-joining reconstructs the path: when a path has a file
/// name, it also has a parent, and joining the file name back onto the
/// parent rebuilds the rendered form of the path's components — so, for a
/// path that is its own rendered form, the path itself.
pub proof fn lemma_decompose_rejoin(p: Seq<char>)
    requires
        file_name_spec(p) is Some,
    ensures
        parent_spec(p) is Some,
        join_one(parent_spec(p).unwrap(), file_name_spec(p).unwrap()) == render_spec(
            comps_spec(p),
        ),
        render_spec(comps_spec(p)) == p ==> join_one(
            parent_spec(p).unwrap(),
            file_name_spec(p).unwrap(),
        ) == p,
{
    let cs = comps_spec(p);
    let n = file_name_spec(p).unwrap();
    assert(cs.last() == SpecComponent::Normal(n));
    assert(comp_texts(cs) == comp_texts(cs.drop_last()).push(comp_text(cs.last())));
    assert(comp_text(cs.last()) == n);
    assert(comp_texts(cs).drop_last() =~= comp_texts(cs.drop_last()));
    assert(comp_texts(cs).last() == n);
    assert(join_all(comp_texts(cs)) == join_one(
        join_all(comp_texts(cs).drop_last()),
        comp_texts(cs).last(),
    ));
}

/// Appending one component to a list appends its view.
proof fn lemma_comp_views_snoc(cs: Seq<Component>, c: Component)
    ensures
        comp_views(cs.push(c)) == comp_views(cs).push(c@),
{
    assert(cs.push(c).drop_last() =~= cs);
    assert(cs.push(c).last() == c);
}

/// `comp_texts` maps `comp_text` over the list, index by index.
pub proof fn lemma_comp_texts_index(cs: Seq<SpecComponent>)
    ensures
        comp_texts(cs).len() == cs.len(),
        forall|i: int| 0 <= i < cs.len() ==> comp_texts(cs)[i] == comp_text(cs[i]),
    decreases cs,
{
    if cs.len() > 0 {
        lemma_comp_texts_index(cs.drop_last());
        assert(comp_texts(cs) == comp_texts(cs.drop_last()).push(comp_text(cs.last())));
        assert forall|i: int| 0 <= i < cs.len() implies comp_texts(cs)[i] == comp_text(cs[i]) by {
            if i < cs.len() - 1 {
                assert(comp_texts(cs.drop_last()).push(comp_text(cs.last()))[i] == comp_texts(
                    cs.drop_last(),
                )[i]);
                assert(cs.drop_last()[i] == cs[i]);
            } else {
                assert(comp_texts(cs.drop_last()).push(comp_text(cs.last()))[i] == comp_text(
                    cs.last(),
                ));
            }
        }
    }
}

/// The least position at or after `i` holding a separator, or the length.
fn first_slash_exec(p: &str, i: usize) -> (k: usize)
    requires
        i <= p@.len(),
    ensures
        i <= k <= p@.len(),
        k as int == first_slash(p@, i as int),
    decreases p@.len() - i,
{
    if i == p.unicode_len() {
        return i;
    }
    if p.get_char(i) == '/' {
        i
    } else {
        first_slash_exec(p, i + 1)
    }
}

/// The pieces of the path, split on `/`, empty pieces included.
fn split_path(p: &str) -> (r: Vec<String>)
    ensures
        str_views(r@) == split_from(p@, 0),
{
    let n = p.unicode_len();
    let mut out: Vec<String> = Vec::new();
    let mut cur: usize = 0;
    loop
        invariant_except_break
            cur <= n,
            n == p@.len(),
            split_from(p@, 0) == str_views(out@) + split_from(p@, cur as int),
        ensures
            str_views(out@) == split_from(p@, 0),
        decreases n - cur,
    {
        let k = first_slash_exec(p, cur);
        let piece = p.substring_char(cur, k).to_owned();
        let ghost pushed = piece;
        let ghost pre = out@;
        out.push(piece);
        proof {
            lemma_str_views_snoc(pre, pushed);
        }
        if k == n {
            proof {
                assert(split_from(p@, cur as int) =~= seq![p@.subrange(cur as int, p@.len() as int)]);
                assert(str_views(out@) =~= str_views(pre) + split_from(p@, cur as int));
            }
            break;
        }
        proof {
            assert(split_from(p@, cur as int) == seq![p@.subrange(cur as int, k as int)]
                + split_from(p@, k + 1));
            assert(str_views(pre).push(pushed@) + split_from(p@, k + 1) =~= str_views(pre) + (seq![
                p@.subrange(cur as int, k as int),
            ] + split_from(p@, k + 1)));
        }
        cur = k + 1;
    }
    out
}

/// The components of a path.
pub fn components_of(p: &str) -> (r: Vec<Component>)
    ensures
        comp_views(r@) == comps_spec(p@),
{
    let pieces = split_path(p);
    let root = is_absolute(p);
    let mut out: Vec<Component> = Vec::new();
    if root {
        out.push(Component::RootDir);
        proof {
            lemma_comp_views_index(out@);
            assert(comp_views(out@) =~= seq![SpecComponent::RootDir]);
        }
    }
    proof {
        lemma_str_views_index(pieces@);
        assert(comps_spec(p@) =~= comp_views(out@) + comps_of_pieces(str_views(pieces@), 0, root));
    }
    let mut j: usize = 0;
    while j < pieces.len()
        invariant
            j <= pieces@.len(),
            str_views(pieces@) == split_from(p@, 0),
            root == is_absolute_spec(p@),
            comps_spec(p@) == comp_views(out@) + comps_of_pieces(str_views(pieces@), j as int, root),
        decreases pieces@.len() - j,
    {
        proof {
            lemma_str_views_index(pieces@);
        }
        let piece = &pieces[j];
        let plen = piece.as_str().unicode_len();
        let ghost svs = str_views(pieces@);
        let ghost rest = comps_of_pieces(svs, j + 1, root);
        if plen == 0 {
            // an empty piece contributes nothing
        } else if plen == 1 && piece.as_str().get_char(0) == '.' {
            if j == 0 && !root {
                let ghost pre = out@;
                out.push(Component::CurDir);
                proof {
                    lemma_comp_views_snoc(pre, Component::CurDir);
                    assert(comp_views(pre).push(SpecComponent::CurDir) + rest =~= comp_views(pre)
                        + (seq![SpecComponent::CurDir] + rest));
                }
            }
        } else if plen == 2 && piece.as_str().get_char(0) == '.' && piece.as_str().get_char(1)
            == '.' {
            let ghost pre = out@;
            out.push(Component::ParentDir);
            proof {
                lemma_comp_views_snoc(pre, Component::ParentDir);
                assert(comp_views(pre).push(SpecComponent::ParentDir) + rest =~= comp_views(pre)
                    + (seq![SpecComponent::ParentDir] + rest));
            }
        } else {
            let c = Component::Normal(piece.clone());
            let ghost cv = c@;
            let ghost pre = out@;
            out.push(c);
            proof {
                assert(!is_dot(svs[j as int]) && !is_dot_dot(svs[j as int]));
                lemma_comp_views_snoc(pre, Component::Normal(pieces@[j as int]));
                assert(comp_views(pre).push(cv) + rest =~= comp_views(pre) + (seq![cv] + rest));
            }
        }
        j = j + 1;
    }
    proof {
        assert(comp_views(out@) + Seq::<SpecComponent>::empty() =~= comp_views(out@));
    }
    out
}

/// A component list rendered back into a path.
pub fn render_components(cs: &Vec<Component>) -> (r: String)
    ensures
        r@ == render_spec(comp_views(cs@)),
{
    let mut texts: Vec<String> = Vec::new();
    let ghost cvs = comp_views(cs@);
    proof {
        lemma_comp_views_index(cs@);
        lemma_comp_texts_index(cvs);
    }
    let mut j: usize = 0;
    while j < cs.len()
        invariant
            j <= cs@.len(),
            cvs == comp_views(cs@),
            str_views(texts@).len() == j,
            forall|i: int| 0 <= i < j ==> str_views(texts@)[i] == comp_texts(cvs)[i],
        decreases cs@.len() - j,
    {
        proof {
            lemma_comp_views_index(cs@);
            lemma_comp_texts_index(cvs);
        }
        let text = match &cs[j] {
            Component::RootDir => {
                let t = String::from_str("/");
                proof {
                    reveal_strlit("/");
                    assert(t@ =~= seq!['/']);
                }
                t
            },
            Component::CurDir => {
                let t = String::from_str(".");
                proof {
                    reveal_strlit(".");
                    assert(t@ =~= seq!['.']);
                }
                t
            },
            Component::ParentDir => {
                let t = String::from_str("..");
                proof {
                    reveal_strlit("..");
                    assert(t@ =~= seq!['.', '.']);
                }
                t
            },
            Component::Normal(s) => s.clone(),
        };
        let ghost pushed = text;
        let ghost pre = texts@;
        texts.push(text);
        proof {
            lemma_str_views_snoc(pre, pushed);
        }
        j = j + 1;
    }
    proof {
        lemma_comp_texts_index(cvs);
        assert(str_views(texts@) =~= comp_texts(cvs));
    }
    join_segments(&texts)
}

/// The file name of the path, when its last component is a normal one.
pub fn file_name_of(p: &str) -> (r: Option<String>)
    ensures
        r is Some <==> file_name_spec(p@) is Some,
        r matches Some(s) ==> (file_name_spec(p@) matches Some(n) && s@ == n),
{
    let cs = components_of(p);
    proof {
        lemma_comp_views_index(cs@);
    }
    if cs.len() == 0 {
        return None;
    }
    match &cs[cs.len() - 1] {
        Component::Normal(s) => Some(s.clone()),
        _ => None,
    }
}

/// The parent of the path: the path without its last component, rendered
/// back into a string. The empty path and a lone root have none.
pub fn parent_of(p: &str) -> (r: Option<String>)
    ensures
        r is Some <==> parent_spec(p@) is Some,
        r matches Some(s) ==> (parent_spec(p@) matches Some(d) && s@ == d),
{
    let mut cs = components_of(p);
    proof {
        lemma_comp_views_index(cs@);
    }
    if cs.len() == 0 {
        return None;
    }
    let last_is_root = match &cs[cs.len() - 1] {
        Component::RootDir => true,
        _ => false,
    };
    if last_is_root {
        return None;
    }
    let ghost pre = cs@;
    cs.pop();
    proof {
        lemma_comp_views_index(pre);
        lemma_comp_views_index(cs@);
        assert(cs@ =~= pre.drop_last());
        assert(comp_views(cs@) =~= comp_views(pre).drop_last());
    }
    let r = render_components(&cs);
    Some(r)
}

/// The position after the last dot splitting the file name, when one does.
fn find_last_dot(name: &str) -> (r: Option<usize>)
    ensures
        match r {
            Some(k) => 1 <= k < name@.len() && last_dot(name@, name@.len() - 1) == k as int,
            None => last_dot(name@, name@.len() - 1) == -1,
        },
{
    let n = name.unicode_len();
    if n == 0 {
        return None;
    }
    let mut i: usize = n - 1;
    loop
        invariant_except_break
            i < n,
            n == name@.len(),
            last_dot(name@, n - 1) == last_dot(name@, i as int),
        ensures
            last_dot(name@, name@.len() - 1) == -1,
        decreases i,
    {
        if i >= 1 && name.get_char(i) == '.' {
            return Some(i);
        }
        if i <= 1 {
            proof {
                if i == 1 {
                    assert(last_dot(name@, 1) == last_dot(name@, 0));
                }
                assert(last_dot(name@, 0) == -1);
            }
            break;
        }
        i = i - 1;
    }
    None
}

/// The file stem of the path: its file name up to the last dot.
pub fn file_stem_of(p: &str) -> (r: Option<String>)
    ensures
        r is Some <==> file_stem_spec(p@) is Some,
        r matches Some(s) ==> (file_stem_spec(p@) matches Some(n) && s@ == n),
{
    let name = match file_name_of(p) {
        Some(n) => n,
        None => {
            return None;
        },
    };
    match find_last_dot(name.as_str()) {
        Some(d) => Some(name.as_str().substring_char(0, d).to_owned()),
        None => Some(name),
    }
}

/// The extension of the path: what follows the last dot of its file name.
pub fn extension_of(p: &str) -> (r: Option<String>)
    ensures
        r is Some <==> extension_spec(p@) is Some,
        r matches Some(s) ==> (extension_spec(p@) matches Some(n) && s@ == n),
{
    let name = match file_name_of(p) {
        Some(n) => n,
        None => {
            return None;
        },
    };
    match find_last_dot(name.as_str()) {
        Some(d) => {
            let n = name.as_str().unicode_len();
            let e = name.as_str().substring_char(d + 1, n).to_owned();
            Some(e)
        },
        None => None,
    }
}

} // verus!
