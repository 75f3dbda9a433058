//! The namespace tree that accumulates generated declarations.
//!
//! Each node owns a prelude (import lines injected into every generated
//! namespace), the declarations of its namespace, and child nodes kept
//! sorted by name — not in insertion order — so that repeated generation
//! from an unchanged bundle renders byte-identical text whatever order the
//! input was walked in.

use vstd::prelude::*;
use vstd::std_specs::iter::IteratorSpec;
use vstd::string::StringExecFns;

verus! {

/// One namespace node of generated code.
pub struct Module {
    prelude: Vec<String>,
    items: Vec<String>,
    children: Vec<(String, Module)>,
}

pub struct ModuleView {
    pub prelude: Seq<Seq<char>>,
    pub items: Seq<Seq<char>>,
    pub children: Seq<(Seq<char>, ModuleView)>,
}

pub open spec fn strs_view(s: Seq<String>) -> Seq<Seq<char>> {
    Seq::new(s.len(), |i: int| s[i]@)
}

pub closed spec fn module_view(m: Module) -> ModuleView
    decreases m,
{
    ModuleView {
        prelude: strs_view(m.prelude@),
        items: strs_view(m.items@),
        children: children_view(m.children@),
    }
}

pub closed spec fn children_view(s: Seq<(String, Module)>) -> Seq<(Seq<char>, ModuleView)>
    decreases s,
{
    if s.len() == 0 {
        Seq::empty()
    } else {
        children_view(s.drop_last()).push((s.last().0@, module_view(s.last().1)))
    }
}

/// The view of a child sequence is its pointwise view.
pub broadcast proof fn lemma_children_view(s: Seq<(String, Module)>)
    ensures
        (#[trigger] children_view(s)).len() == s.len(),
        forall|k: int|
            0 <= k < s.len() ==> children_view(s)[k] == (s[k].0@, module_view(s[k].1)),
    decreases s.len(),
{
    if s.len() > 0 {
        lemma_children_view(s.drop_last());
    }
}

impl View for Module {
    type V = ModuleView;

    open spec fn view(&self) -> ModuleView {
        module_view(*self)
    }
}

/// `a` is strictly below `b` in lexicographic character order, the order
/// the child modules are kept in.
pub open spec fn lex_lt(a: Seq<char>, b: Seq<char>) -> bool
    decreases a.len(),
{
    if b.len() == 0 {
        false
    } else if a.len() == 0 {
        true
    } else if a[0] != b[0] {
        a[0] < b[0]
    } else {
        lex_lt(a.skip(1), b.skip(1))
    }
}

/// Compares two names in lexicographic character order.
pub fn str_lex_lt(a: &str, b: &str) -> (r: bool)
    ensures
        r == lex_lt(a@, b@),
{
    broadcast use vstd::string::next_postcondition, vstd::string::axiom_spec_iter;

    let mut ai = a.chars();
    let mut bi = b.chars();
    let ghost mut k: int = 0;
    loop
        invariant
            ai.obeys_prophetic_iter_laws(),
            bi.obeys_prophetic_iter_laws(),
            0 <= k <= a@.len(),
            k <= b@.len(),
            ai.remaining() == a@.skip(k),
            bi.remaining() == b@.skip(k),
            lex_lt(a@, b@) == lex_lt(a@.skip(k), b@.skip(k)),
        decreases a@.len() - k,
    {
        let an = ai.next();
        let bn = bi.next();
        match (an, bn) {
            (None, None) => {
                return false;
            },
            (None, Some(_)) => {
                return true;
            },
            (Some(_), None) => {
                proof {
                    assert(b@.len() == k);
                }
                return false;
            },
            (Some(x), Some(y)) => {
                proof {
                    assert(a@.skip(k)[0] == a@[k]);
                    assert(b@.skip(k)[0] == b@[k]);
                }
                if x != y {
                    return x < y;
                }
                proof {
                    assert(a@.skip(k).skip(1) =~= a@.skip(k + 1));
                    assert(b@.skip(k).skip(1) =~= b@.skip(k + 1));
                    k = k + 1;
                }
            },
        }
    }
}

/// Where `name` lands among sorted children: ahead of the first child not
/// below it.
pub open spec fn spec_child_pos(children: Seq<(Seq<char>, ModuleView)>, name: Seq<char>) -> int
    decreases children.len(),
{
    if children.len() == 0 {
        0
    } else if lex_lt(children[0].0, name) {
        1 + spec_child_pos(children.skip(1), name)
    } else {
        0
    }
}

pub proof fn lemma_child_pos_bounds(children: Seq<(Seq<char>, ModuleView)>, name: Seq<char>)
    ensures
        0 <= spec_child_pos(children, name) <= children.len(),
    decreases children.len(),
{
    if children.len() > 0 && lex_lt(children[0].0, name) {
        lemma_child_pos_bounds(children.skip(1), name);
    }
}

/// Unrolls `spec_child_pos` at its result: every child below the position
/// is below the name, and the child at it (if any) is not.
pub proof fn lemma_child_pos_at(children: Seq<(Seq<char>, ModuleView)>, name: Seq<char>, p: int)
    requires
        0 <= p <= children.len(),
        forall|i: int| 0 <= i < p ==> lex_lt((#[trigger] children[i]).0, name),
        p < children.len() ==> !lex_lt(children[p].0, name),
    ensures
        spec_child_pos(children, name) == p,
    decreases p,
{
    if p == 0 {
    } else {
        assert(lex_lt(children[0].0, name));
        assert(forall|i: int|
            0 <= i < p - 1 ==> lex_lt((#[trigger] children.skip(1)[i]).0, name));
        if p < children.len() {
            assert(children.skip(1)[p - 1] == children[p]);
        }
        lemma_child_pos_at(children.skip(1), name, p - 1);
    }
}

/// A fresh node: the shared prelude, no declarations, no children.
pub open spec fn spec_new_module(prelude: Seq<Seq<char>>) -> ModuleView {
    ModuleView { prelude, items: Seq::empty(), children: Seq::empty() }
}

/// Inserting a declaration walks (and creates) the nodes along `path`
/// from `depth` on, and appends the declaration to the final node.
pub open spec fn spec_insert_item(
    m: ModuleView,
    path: Seq<Seq<char>>,
    depth: int,
    item: Seq<char>,
    default_prelude: Seq<Seq<char>>,
) -> ModuleView
    decreases path.len() - depth,
{
    if depth >= path.len() {
        ModuleView { items: m.items.push(item), ..m }
    } else {
        let name = path[depth];
        let p = spec_child_pos(m.children, name);
        if p < m.children.len() && m.children[p].0 == name {
            let updated = spec_insert_item(m.children[p].1, path, depth + 1, item, default_prelude);
            ModuleView { children: m.children.update(p, (name, updated)), ..m }
        } else {
            let created = spec_insert_item(
                spec_new_module(default_prelude),
                path,
                depth + 1,
                item,
                default_prelude,
            );
            ModuleView { children: m.children.insert(p, (name, created)), ..m }
        }
    }
}

fn clone_lines(v: &Vec<String>) -> (r: Vec<String>)
    ensures
        r@.len() == v@.len(),
        forall|i: int| 0 <= i < v@.len() ==> (#[trigger] r@[i])@ == v@[i]@,
{
    let mut r: Vec<String> = Vec::new();
    let mut i: usize = 0;
    while i < v.len()
        invariant
            i <= v@.len(),
            r@.len() == i,
            forall|k: int| 0 <= k < i ==> (#[trigger] r@[k])@ == v@[k]@,
        decreases v@.len() - i,
    {
        r.push(v[i].clone());
        i = i + 1;
    }
    r
}

impl Module {
    pub fn new(prelude: Vec<String>) -> (r: Module)
        ensures
            r@ == spec_new_module(strs_view(prelude@)),
    {
        let r = Module { prelude, items: Vec::new(), children: Vec::new() };
        proof {
            lemma_children_view(r.children@);
            assert(r@.items =~= Seq::<Seq<char>>::empty());
            assert(r@.children =~= Seq::<(Seq<char>, ModuleView)>::empty());
        }
        r
    }

    /// Adds one declaration to the node `path[depth..]` names, creating
    /// the nodes along the way with the shared default prelude.  An
    /// exhausted path appends at the node itself, so a declaration whose
    /// namespace is empty lands in the tree's root.
    pub fn insert_item(
        &mut self,
        path: &Vec<String>,
        depth: usize,
        item: String,
        default_prelude: &Vec<String>,
    )
        requires
            depth <= path@.len(),
        ensures
            final(self)@ == spec_insert_item(
                old(self)@,
                strs_view(path@),
                depth as int,
                item@,
                strs_view(default_prelude@),
            ),
        decreases path@.len() - depth,
    {
        proof {
            lemma_children_view(self.children@);
        }
        if depth == path.len() {
            let ghost prev = self@;
            self.items.push(item);
            proof {
                lemma_children_view(self.children@);
                assert(self@.items =~= prev.items.push(item@));
                assert(self@ =~= spec_insert_item(
                    prev,
                    strs_view(path@),
                    depth as int,
                    item@,
                    strs_view(default_prelude@),
                ));
            }
            return ;
        }
        let ghost prev = self@;
        let ghost name = path@[depth as int]@;
        let mut p: usize = 0;
        while p < self.children.len() && str_lex_lt(self.children[p].0.as_str(), path[depth].as_str())
            invariant
                p <= self.children@.len(),
                self@ == prev,
                name == path@[depth as int]@,
                depth < path@.len(),
                self@.children.len() == self.children@.len(),
                forall|i: int| 0 <= i < p ==> lex_lt((#[trigger] self@.children[i]).0, name),
            decreases self.children@.len() - p,
        {
            proof {
                lemma_children_view(self.children@);
                assert(self@.children[p as int].0 == self.children@[p as int].0@);
            }
            p = p + 1;
        }
        proof {
            lemma_children_view(self.children@);
            if p < self.children@.len() {
                assert(self@.children[p as int].0 == self.children@[p as int].0@);
            }
            lemma_child_pos_at(prev.children, name, p as int);
        }
        let exists_here = p < self.children.len() && self.children[p].0.eq(&path[depth]);
        if exists_here {
            let (child_name, mut child) = self.children.remove(p);
            child.insert_item(path, depth + 1, item, default_prelude);
            self.children.insert(p, (child_name, child));
            proof {
                lemma_children_view(self.children@);
                assert(self@.children =~= prev.children.update(
                    p as int,
                    (name, spec_insert_item(
                        prev.children[p as int].1,
                        strs_view(path@),
                        depth + 1,
                        item@,
                        strs_view(default_prelude@),
                    )),
                ));
                assert(self@ =~= spec_insert_item(
                    prev,
                    strs_view(path@),
                    depth as int,
                    item@,
                    strs_view(default_prelude@),
                ));
            }
        } else {
            let mut child = Module::new(clone_lines(default_prelude));
            proof {
                assert(child@.prelude =~= strs_view(default_prelude@));
            }
            child.insert_item(path, depth + 1, item, default_prelude);
            self.children.insert(p, (path[depth].clone(), child));
            proof {
                lemma_children_view(self.children@);
                assert(self@.children =~= prev.children.insert(
                    p as int,
                    (name, spec_insert_item(
                        spec_new_module(strs_view(default_prelude@)),
                        strs_view(path@),
                        depth + 1,
                        item@,
                        strs_view(default_prelude@),
                    )),
                ));
                assert(self@ =~= spec_insert_item(
                    prev,
                    strs_view(path@),
                    depth as int,
                    item@,
                    strs_view(default_prelude@),
                ));
            }
        }
    }
}

/// One line of rendered text.
pub open spec fn line(s: Seq<char>) -> Seq<char> {
    s + "\n"@
}

/// The rendered lines of a sequence of declarations or imports.
pub open spec fn spec_render_lines(items: Seq<Seq<char>>) -> Seq<char>
    decreases items.len(),
{
    if items.len() == 0 {
        Seq::empty()
    } else {
        spec_render_lines(items.drop_last()) + line(items.last())
    }
}

/// The rendered text of a node: prelude first, then the sorted child
/// modules, then the node's own declarations, in that fixed order.
pub open spec fn spec_render(m: ModuleView) -> Seq<char>
    decreases m,
{
    spec_render_lines(m.prelude) + spec_render_children(m.children) + spec_render_lines(m.items)
}

pub open spec fn spec_render_children(children: Seq<(Seq<char>, ModuleView)>) -> Seq<char>
    decreases children,
{
    if children.len() == 0 {
        Seq::empty()
    } else {
        spec_render_children(children.drop_last()) + "pub mod "@ + children.last().0 + " {\n"@
            + spec_render(children.last().1) + "}\n"@
    }
}

impl Module {
    /// Renders the node and everything below it.
    pub fn render(&self) -> (r: String)
        ensures
            r@ == spec_render(self@),
        decreases *self,
    {
        let mut out = String::new();
        let mut i: usize = 0;
        proof {
            assert(self@.prelude.take(0) =~= Seq::<Seq<char>>::empty());
            assert(out@ =~= spec_render_lines(self@.prelude.take(0)));
        }
        while i < self.prelude.len()
            invariant
                i <= self.prelude@.len(),
                self@.prelude.len() == self.prelude@.len(),
                forall|k: int|
                    0 <= k < self.prelude@.len() ==> (#[trigger] self.prelude@[k])@
                        == self@.prelude[k],
                out@ == spec_render_lines(self@.prelude.take(i as int)),
            decreases self.prelude@.len() - i,
        {
            out.append(self.prelude[i].as_str());
            out.append("\n");
            proof {
                assert(self@.prelude.take(i + 1).drop_last() =~= self@.prelude.take(i as int));
                assert(out@ =~= spec_render_lines(self@.prelude.take(i + 1)));
            }
            i = i + 1;
        }
        proof {
            assert(self@.prelude.take(self@.prelude.len() as int) =~= self@.prelude);
        }
        let mut j: usize = 0;
        proof {
            lemma_children_view(self.children@);
            assert(self@.children.take(0) =~= Seq::<(Seq<char>, ModuleView)>::empty());
        }
        while j < self.children.len()
            invariant
                j <= self.children@.len(),
                self@.children.len() == self.children@.len(),
                forall|k: int|
                    0 <= k < self.children@.len() ==> #[trigger] self@.children[k] == (
                        self.children@[k].0@,
                        module_view(self.children@[k].1),
                    ),
                out@ == spec_render_lines(self@.prelude) + spec_render_children(
                    self@.children.take(j as int),
                ),
            decreases self.children@.len() - j,
        {
            out.append("pub mod ");
            out.append(self.children[j].0.as_str());
            out.append(" {\n");
            let rendered = self.children[j].1.render();
            out.append(rendered.as_str());
            out.append("}\n");
            proof {
                assert(self@.children.take(j + 1).drop_last() =~= self@.children.take(j as int));
                assert(self@.children.take(j + 1).last() == self@.children[j as int]);
                assert(out@ =~= spec_render_lines(self@.prelude) + spec_render_children(
                    self@.children.take(j + 1),
                ));
            }
            j = j + 1;
        }
        proof {
            assert(self@.children.take(self@.children.len() as int) =~= self@.children);
        }
        let mut k: usize = 0;
        proof {
            assert(self@.items.take(0) =~= Seq::<Seq<char>>::empty());
        }
        while k < self.items.len()
            invariant
                k <= self.items@.len(),
                self@.items.len() == self.items@.len(),
                forall|t: int|
                    0 <= t < self.items@.len() ==> (#[trigger] self.items@[t])@ == self@.items[t],
                out@ == spec_render_lines(self@.prelude) + spec_render_children(self@.children)
                    + spec_render_lines(self@.items.take(k as int)),
            decreases self.items@.len() - k,
        {
            out.append(self.items[k].as_str());
            out.append("\n");
            proof {
                assert(self@.items.take(k + 1).drop_last() =~= self@.items.take(k as int));
                assert(out@ =~= spec_render_lines(self@.prelude) + spec_render_children(
                    self@.children,
                ) + spec_render_lines(self@.items.take(k + 1)));
            }
            k = k + 1;
        }
        proof {
            assert(self@.items.take(self@.items.len() as int) =~= self@.items);
        }
        out
    }
}

} // verus!
