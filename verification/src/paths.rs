//! Slash-separated paths and their components.

use vstd::prelude::*;
use crate::model::seq_view;
use crate::text::{cat2, cat3, ends_with, pieces, same, split, texts, Divider};

verus! {

/// One component of a path.
#[derive(Debug)]
pub enum Component {
    Root,
    Current,
    Parent,
    Normal(String),
}

/// The view of [`Component`].
pub enum ComponentView {
    Root,
    Current,
    Parent,
    Normal(Seq<char>),
}

impl View for Component {
    type V = ComponentView;

    open spec fn view(&self) -> ComponentView {
        match self {
            Component::Root => ComponentView::Root,
            Component::Current => ComponentView::Current,
            Component::Parent => ComponentView::Parent,
            Component::Normal(s) => ComponentView::Normal(s@),
        }
    }
}

/// The component that the piece at position `i` stands for. Empty pieces stand
/// for nothing, and a dot only for itself at the very beginning.
pub open spec fn component_at(p: Seq<Seq<char>>, i: int) -> Option<ComponentView> {
    if p[i].len() == 0 {
        None
    } else if p[i] == "."@ {
        if i == 0 {
            Some(ComponentView::Current)
        } else {
            None
        }
    } else if p[i] == ".."@ {
        Some(ComponentView::Parent)
    } else {
        Some(ComponentView::Normal(p[i]))
    }
}

/// The components that the first `n` pieces stand for.
pub open spec fn components_of(p: Seq<Seq<char>>, n: nat) -> Seq<ComponentView>
    decreases n,
{
    if n == 0 {
        Seq::empty()
    } else {
        let before = components_of(p, (n - 1) as nat);
        match component_at(p, n - 1) {
            Some(c) => before.push(c),
            None => before,
        }
    }
}

/// Whether a path starts at the root.
pub open spec fn is_absolute(path: Seq<char>) -> bool {
    path.len() > 0 && path[0] == '/'
}

/// The components of a path.
pub open spec fn path_view(path: Seq<char>) -> Seq<ComponentView> {
    let p = pieces(path, Divider::Char('/'));
    let rest = components_of(p, p.len());
    if is_absolute(path) {
        seq![ComponentView::Root] + rest
    } else {
        rest
    }
}

/// The components of a path.
pub fn components(path: &str) -> (out: Vec<Component>)
    ensures
        seq_view(out@) == path_view(path@),
{
    let p = split(path, Divider::Char('/'));
    let ghost q = pieces(path@, Divider::Char('/'));
    let mut out: Vec<Component> = Vec::new();
    let rooted = crate::text::starts_with(path, "/");
    let ghost head: Seq<ComponentView> = if rooted {
        seq![ComponentView::Root]
    } else {
        Seq::empty()
    };
    proof {
        reveal_strlit("/");
        assert("/"@ =~= seq!['/']);
        if is_absolute(path@) {
            assert(path@.take(1) =~= "/"@);
        }
        if rooted {
            assert(path@.take(1)[0] == '/');
        }
    }
    if rooted {
        out.push(Component::Root);
    }
    assert(seq_view(out@) =~= head + components_of(q, 0));
    let mut i: usize = 0;
    while i < p.len()
        invariant
            i <= p@.len(),
            q == texts(p@),
            seq_view(out@) == head + components_of(q, i as nat),
        decreases p@.len() - i,
    {
        let ghost prior = out@;
        let piece = p[i].as_str();
        assert(piece@ == q[i as int]);
        if !piece.is_empty() {
            if same(piece, ".") {
                if i == 0 {
                    out.push(Component::Current);
                    assert(seq_view(out@) =~= seq_view(prior).push(ComponentView::Current));
                }
            } else if same(piece, "..") {
                out.push(Component::Parent);
                assert(seq_view(out@) =~= seq_view(prior).push(ComponentView::Parent));
            } else {
                out.push(Component::Normal(p[i].clone()));
                assert(seq_view(out@) =~= seq_view(prior).push(ComponentView::Normal(piece@)));
            }
        }
        i = i + 1;
        proof {
            let before = components_of(q, (i - 1) as nat);
            assert(head + components_of(q, i as nat) =~= match component_at(q, i - 1) {
                Some(c) => (head + before).push(c),
                None => head + before,
            });
        }
    }
    proof {
        assert(Seq::<ComponentView>::empty() + components_of(q, q.len()) =~= components_of(q, q.len()));
    }
    out
}

/// Whether two components are the same.
fn same_component(a: &Component, b: &Component) -> (r: bool)
    ensures
        r == (a@ == b@),
{
    match (a, b) {
        (Component::Root, Component::Root) => true,
        (Component::Current, Component::Current) => true,
        (Component::Parent, Component::Parent) => true,
        (Component::Normal(x), Component::Normal(y)) => *x == *y,
        _ => false,
    }
}

/// Whether two paths have the same components.
pub fn same_path(a: &str, b: &str) -> (r: bool)
    ensures
        r == (path_view(a@) == path_view(b@)),
{
    let x = components(a);
    let y = components(b);
    assert(seq_view(x@).len() == x@.len() && seq_view(y@).len() == y@.len());
    if x.len() != y.len() {
        return false;
    }
    let mut i: usize = 0;
    while i < x.len()
        invariant
            i <= x@.len(),
            x@.len() == y@.len(),
            seq_view(x@) == path_view(a@),
            seq_view(y@) == path_view(b@),
            forall|j: int| 0 <= j < i ==> x@[j]@ == y@[j]@,
        decreases x@.len() - i,
    {
        if !same_component(&x[i], &y[i]) {
            assert(seq_view(x@)[i as int] != seq_view(y@)[i as int]);
            return false;
        }
        i = i + 1;
    }
    assert(seq_view(x@) =~= seq_view(y@));
    true
}

/// A path below another one.
pub open spec fn joined(base: Seq<char>, name: Seq<char>) -> Seq<char> {
    if base.len() == 0 || base.last() == '/' {
        base + name
    } else {
        base + "/"@ + name
    }
}

/// A path below another one; `name` is taken to be relative.
pub fn join(base: &str, name: &str) -> (out: String)
    ensures
        out@ == joined(base@, name@),
{
    if same(base, "") || ends_with(base, "/") {
        proof {
            reveal_strlit("");
            reveal_strlit("/");
            assert(base@.len() > 0 ==> base@.skip(base@.len() - 1)[0] == base@.last());
            assert("/"@[0] == '/');
        }
        cat2(base, name)
    } else {
        proof {
            reveal_strlit("");
            reveal_strlit("/");
            assert(base@.len() == 0 ==> base@ =~= ""@);
            assert(base@.len() > 0 && base@.last() == '/' ==> base@.skip(base@.len() - 1) =~= "/"@);
        }
        cat3(base, "/", name)
    }
}

/// Whether a path lies below another one, or is it.
pub open spec fn lies_below(path: Seq<char>, base: Seq<char>) -> bool {
    path_view(base).is_prefix_of(path_view(path))
}

/// Whether a path lies below another one, or is it.
pub fn is_below(path: &str, base: &str) -> (r: bool)
    ensures
        r == lies_below(path@, base@),
{
    let a = components(path);
    let b = components(base);
    assert(seq_view(a@).len() == a@.len() && seq_view(b@).len() == b@.len());
    if a.len() < b.len() {
        return false;
    }
    let mut i: usize = 0;
    while i < b.len()
        invariant
            i <= b@.len() <= a@.len(),
            seq_view(a@) == path_view(path@),
            seq_view(b@) == path_view(base@),
            forall|k: int| 0 <= k < i ==> #[trigger] path_view(base@)[k] == path_view(path@)[k],
        decreases b@.len() - i,
    {
        if !same_component(&a[i], &b[i]) {
            assert(path_view(base@)[i as int] != path_view(path@)[i as int]);
            return false;
        }
        i = i + 1;
    }
    assert(path_view(base@) =~= path_view(path@).take(b@.len() as int));
    true
}

/// Whether one of several paths is the given one.
pub open spec fn lists_path(all: Seq<Seq<char>>, path: Seq<char>) -> bool {
    exists|i: int| 0 <= i < all.len() && path_view(#[trigger] all[i]) == path_view(path)
}

/// Whether one of several paths is the given one.
pub fn has_path(all: &Vec<String>, path: &str) -> (r: bool)
    ensures
        r == lists_path(texts(all@), path@),
{
    let mut i: usize = 0;
    while i < all.len()
        invariant
            i <= all@.len(),
            forall|k: int|
                0 <= k < i ==> path_view(#[trigger] texts(all@)[k]) != path_view(path@),
        decreases all@.len() - i,
    {
        assert(texts(all@)[i as int] == all@[i as int]@);
        if same_path(all[i].as_str(), path) {
            return true;
        }
        i = i + 1;
    }
    false
}

} // verus!
