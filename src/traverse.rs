//! Queries on a `SyntaxTree`: descendants and ancestors of a kind, children
//! by position or field name, and the shape-specific extractions the
//! instrumentation rules use.

use vstd::prelude::*;
use crate::ast::{SyntaxTree, SyntaxNode, ancestor_or_self, str_is};
use crate::text::{one_line, one_line_of};

verus! {

/// Whether node `j` lies strictly inside the subtree of node `a`.
pub open spec fn descends(t: Seq<SyntaxNode>, a: int, j: int) -> bool {
    a != j && ancestor_or_self(t, a, j)
}

/// Whether node `i` has kind `k`.
pub open spec fn kind_of(t: Seq<SyntaxNode>, i: int, k: Seq<char>) -> bool {
    0 <= i < t.len() && t[i].kind@ == k
}

/// The nodes below index `hi` that descend from `a` and have kind `k`, in order.
pub open spec fn descendants_below(t: Seq<SyntaxNode>, a: int, k: Seq<char>, hi: int) -> Seq<usize>
    decreases hi,
{
    if hi <= 0 {
        seq![]
    } else {
        let r = descendants_below(t, a, k, hi - 1);
        if descends(t, a, hi - 1) && kind_of(t, hi - 1, k) {
            r.push((hi - 1) as usize)
        } else {
            r
        }
    }
}

/// All descendants of `a` of kind `k`, in index order.
pub open spec fn descendants_of_kind(t: Seq<SyntaxNode>, a: int, k: Seq<char>) -> Seq<usize> {
    descendants_below(t, a, k, t.len() as int)
}

/// The nearest proper ancestor of `j` of kind `k`.
pub open spec fn nearest_ancestor(t: Seq<SyntaxNode>, j: int, k: Seq<char>) -> Option<usize>
    decreases j,
{
    if 0 <= j < t.len() {
        match t[j].parent {
            Some(p) => if p < j {
                if t[p as int].kind@ == k {
                    Some(p)
                } else {
                    nearest_ancestor(t, p as int, k)
                }
            } else {
                None
            },
            None => None,
        }
    } else {
        None
    }
}

/// Whether node `c` fills the field `name` of its parent.
pub open spec fn fills_field(t: Seq<SyntaxNode>, c: int, name: Seq<char>) -> bool {
    0 <= c < t.len() && match t[c].field {
        Some(f) => f@ == name,
        None => false,
    }
}

/// The first node of `cs` that fills the field `name`.
pub open spec fn first_in_field(t: Seq<SyntaxNode>, cs: Seq<usize>, name: Seq<char>) -> Option<usize>
    decreases cs.len(),
{
    if cs.len() == 0 {
        None
    } else if fills_field(t, cs[0] as int, name) {
        Some(cs[0])
    } else {
        first_in_field(t, cs.drop_first(), name)
    }
}

/// The child of `i` that fills the field `name`.
pub open spec fn field_child(t: Seq<SyntaxNode>, i: int, name: Seq<char>) -> Option<usize> {
    if 0 <= i < t.len() {
        first_in_field(t, t[i].children@, name)
    } else {
        None
    }
}

/// The `k`-th child of `i`.
pub open spec fn child_at(t: Seq<SyntaxNode>, i: int, k: int) -> Option<usize> {
    if 0 <= i < t.len() && 0 <= k < t[i].children@.len() {
        Some(t[i].children@[k])
    } else {
        None
    }
}

/// The number of children of `i`.
pub open spec fn num_children(t: Seq<SyntaxNode>, i: int) -> nat {
    if 0 <= i < t.len() {
        t[i].children@.len()
    } else {
        0
    }
}

/// The text of node `i` folded onto one line.
pub open spec fn node_text(t: Seq<SyntaxNode>, code: Seq<char>, i: int) -> Seq<char> {
    one_line(code.subrange(t[i].start as int, t[i].end as int))
}

/// The variable a declaration binds, through one pointer declarator.
pub open spec fn var_from_decl(t: Seq<SyntaxNode>, decl: int) -> Option<usize> {
    match field_child(t, decl, "declarator"@) {
        None => None,
        Some(d1) => match field_child(t, d1 as int, "declarator"@) {
            None => None,
            Some(d2) => if kind_of(t, d2 as int, "pointer_declarator"@) {
                field_child(t, d2 as int, "declarator"@)
            } else {
                Some(d2)
            },
        },
    }
}

/// The variable an assignment writes, through one pointer dereference;
/// `None` for a node that is not an assignment.
pub open spec fn var_from_assign(t: Seq<SyntaxNode>, assign: int) -> Option<usize> {
    if !kind_of(t, assign, "assignment_expression"@) {
        None
    } else {
    match field_child(t, assign, "left"@) {
        None => None,
        Some(l) => if kind_of(t, l as int, "pointer_expression"@) {
            field_child(t, l as int, "argument"@)
        } else {
            Some(l)
        },
    }
    }
}

/// The name a function definition declares, through one nested declarator.
pub open spec fn fn_identifier(t: Seq<SyntaxNode>, f: int) -> Option<usize> {
    let ds = descendants_of_kind(t, f, "function_declarator"@);
    if ds.len() == 0 {
        None
    } else {
        match field_child(t, ds[0] as int, "declarator"@) {
            None => None,
            Some(id) => if kind_of(t, id as int, "function_declarator"@) {
                field_child(t, id as int, "declarator"@)
            } else {
                Some(id)
            },
        }
    }
}

/// The receiver of `call` when it is a field call of the method `name`.
pub open spec fn receiver_of_call(t: Seq<SyntaxNode>, code: Seq<char>, call: int, name: Seq<char>) -> Option<usize> {
    if !kind_of(t, call, "call_expression"@) {
        None
    } else {
    match field_child(t, call, "function"@) {
        Some(f) => if kind_of(t, f as int, "field_expression"@) {
            match (field_child(t, f as int, "argument"@), field_child(t, f as int, "field"@)) {
                (Some(a), Some(m)) => if node_text(t, code, m as int) == name {
                    Some(a)
                } else {
                    None
                },
                _ => None,
            }
        } else {
            None
        },
        None => None,
    }
    }
}

proof fn lemma_ancestor_not_below(t: Seq<SyntaxNode>, a: int, x: int)
    ensures
        ancestor_or_self(t, a, x) ==> a <= x,
    decreases x,
{
    if a != x && 0 <= x < t.len() {
        match t[x].parent {
            Some(p) => {
                if p < x {
                    lemma_ancestor_not_below(t, a, p as int);
                }
            },
            None => {},
        }
    }
}

/// Whether node `a` has kind `kind`.
pub fn kind_is(t: &SyntaxTree, i: usize, kind: &str) -> (r: bool)
    requires
        i < t@.len(),
    ensures
        r == kind_of(t@, i as int, kind@),
{
    str_is(&t.node(i).kind, kind)
}

/// Whether node `j` lies strictly inside the subtree of node `a`.
pub fn is_descendant(t: &SyntaxTree, a: usize, j: usize) -> (r: bool)
    requires
        t.wf(),
        j < t@.len(),
    ensures
        r == descends(t@, a as int, j as int),
{
    if a == j {
        return false;
    }
    let mut cur = j;
    loop
        invariant
            t.wf(),
            cur < t@.len(),
            cur != a,
            descends(t@, a as int, j as int) == ancestor_or_self(t@, a as int, cur as int),
        decreases cur,
    {
        match t.node(cur).parent {
            None => {
                return false;
            },
            Some(p) => {
                assert(p < cur);
                if p == a {
                    assert(ancestor_or_self(t@, a as int, p as int));
                    assert(ancestor_or_self(t@, a as int, cur as int));
                    return true;
                }
                if p < a {
                    proof {
                        lemma_ancestor_not_below(t@, a as int, p as int);
                    }
                    return false;
                }
                cur = p;
            },
        }
    }
}

/// All descendants of `node` of kind `kind`, in index order: document
/// order for a tree built depth first, as `parse_source` builds it.
pub fn get_children_of_kind(t: &SyntaxTree, node: usize, kind: &str) -> (r: Vec<usize>)
    requires
        t.wf(),
    ensures
        r@ == descendants_of_kind(t@, node as int, kind@),
{
    let mut r: Vec<usize> = Vec::new();
    let mut j: usize = 0;
    while j < t.len()
        invariant
            t.wf(),
            j <= t@.len(),
            r@ == descendants_below(t@, node as int, kind@, j as int),
        decreases t@.len() - j,
    {
        if kind_is(t, j, kind) && is_descendant(t, node, j) {
            r.push(j);
        }
        j = j + 1;
    }
    r
}

/// The nearest proper ancestor of `node` of kind `kind`.
pub fn get_parent_of_kind(t: &SyntaxTree, node: usize, kind: &str) -> (r: Option<usize>)
    requires
        t.wf(),
        node < t@.len(),
    ensures
        r == nearest_ancestor(t@, node as int, kind@),
        r matches Some(p) ==> p < t@.len(),
{
    let mut cur = node;
    loop
        invariant
            t.wf(),
            cur < t@.len(),
            nearest_ancestor(t@, node as int, kind@) == nearest_ancestor(t@, cur as int, kind@),
        decreases cur,
    {
        match t.node(cur).parent {
            None => {
                return None;
            },
            Some(p) => {
                if kind_is(t, p, kind) {
                    return Some(p);
                }
                cur = p;
            },
        }
    }
}

/// The `k`-th child of `node`.
pub fn nth_child(t: &SyntaxTree, node: usize, k: usize) -> (r: Option<usize>)
    requires
        t.wf(),
        node < t@.len(),
    ensures
        r == child_at(t@, node as int, k as int),
        r matches Some(c) ==> c < t@.len(),
{
    let n = t.node(node);
    if k < n.children.len() {
        Some(n.children[k])
    } else {
        None
    }
}

/// The number of children of `node`.
pub fn children_count(t: &SyntaxTree, node: usize) -> (r: usize)
    requires
        node < t@.len(),
    ensures
        r == num_children(t@, node as int),
{
    t.node(node).children.len()
}

/// The child of `node` that fills the field `name`.
pub fn child_by_field_name(t: &SyntaxTree, node: usize, name: &str) -> (r: Option<usize>)
    requires
        t.wf(),
        node < t@.len(),
    ensures
        r == field_child(t@, node as int, name@),
        r matches Some(c) ==> c < t@.len(),
{
    let n = t.node(node);
    let ghost cs = n.children@;
    let mut k: usize = 0;
    assert(cs.skip(0) =~= cs);
    while k < n.children.len()
        invariant
            t.wf(),
            node < t@.len(),
            *n == t@[node as int],
            cs == n.children@,
            k <= cs.len(),
            first_in_field(t@, cs, name@) == first_in_field(t@, cs.skip(k as int), name@),
            forall|i: int| 0 <= i < cs.len() ==> #[trigger] cs[i] < t@.len(),
        decreases cs.len() - k,
    {
        let c = n.children[k];
        assert(cs.skip(k as int)[0] == c);
        assert(cs.skip(k as int).drop_first() =~= cs.skip(k + 1));
        let fills = match &t.node(c).field {
            Some(f) => str_is(f, name),
            None => false,
        };
        if fills {
            return Some(c);
        }
        k = k + 1;
    }
    None
}

/// The text of `node` folded onto one line; `v` holds the characters of `code`.
pub fn source_of(t: &SyntaxTree, code: &str, v: &Vec<char>, node: usize) -> (r: String)
    requires
        t.wf(),
        t.fits(code@.len()),
        v@ == code@,
        node < t@.len(),
    ensures
        r@ == node_text(t@, code@, node as int),
{
    let n = t.node(node);
    one_line_of(code, v, n.start, n.end)
}

/// The variable the declaration `decl` binds.
pub fn get_var_name_from_decl(t: &SyntaxTree, decl: usize) -> (r: Option<usize>)
    requires
        t.wf(),
        decl < t@.len(),
    ensures
        r == var_from_decl(t@, decl as int),
        r matches Some(c) ==> c < t@.len(),
{
    match child_by_field_name(t, decl, "declarator") {
        None => None,
        Some(d1) => match child_by_field_name(t, d1, "declarator") {
            None => None,
            Some(d2) => if kind_is(t, d2, "pointer_declarator") {
                child_by_field_name(t, d2, "declarator")
            } else {
                Some(d2)
            },
        },
    }
}

/// The variable the assignment `assign` writes.
pub fn get_var_name_from_assign(t: &SyntaxTree, assign: usize) -> (r: Option<usize>)
    requires
        t.wf(),
        assign < t@.len(),
    ensures
        r == var_from_assign(t@, assign as int),
        r matches Some(c) ==> c < t@.len(),
{
    if !kind_is(t, assign, "assignment_expression") {
        return None;
    }
    match child_by_field_name(t, assign, "left") {
        None => None,
        Some(l) => if kind_is(t, l, "pointer_expression") {
            child_by_field_name(t, l, "argument")
        } else {
            Some(l)
        },
    }
}

/// The name the function definition `fn_def` declares.
pub fn get_fn_identifier(t: &SyntaxTree, fn_def: usize) -> (r: Option<usize>)
    requires
        t.wf(),
        fn_def < t@.len(),
    ensures
        r == fn_identifier(t@, fn_def as int),
        r matches Some(c) ==> c < t@.len(),
{
    let ds = get_children_of_kind(t, fn_def, "function_declarator");
    if ds.len() == 0 {
        return None;
    }
    proof {
        lemma_descendants_in_tree(t@, fn_def as int, "function_declarator"@, t@.len() as int);
    }
    match child_by_field_name(t, ds[0], "declarator") {
        None => None,
        Some(id) => if kind_is(t, id, "function_declarator") {
            child_by_field_name(t, id, "declarator")
        } else {
            Some(id)
        },
    }
}

/// The receiver of `call` when it is a call expression, and a field call
/// of the method `name`.
pub fn get_ident_from_call(t: &SyntaxTree, code: &str, v: &Vec<char>, call: usize, name: &str) -> (r: Option<usize>)
    requires
        t.wf(),
        t.fits(code@.len()),
        v@ == code@,
        call < t@.len(),
    ensures
        r == receiver_of_call(t@, code@, call as int, name@),
        r matches Some(a) ==> a < t@.len(),
{
    if !kind_is(t, call, "call_expression") {
        return None;
    }
    match child_by_field_name(t, call, "function") {
        None => None,
        Some(f) => if kind_is(t, f, "field_expression") {
            match (child_by_field_name(t, f, "argument"), child_by_field_name(t, f, "field")) {
                (Some(a), Some(m)) => {
                    let text = source_of(t, code, v, m);
                    if str_is(&text, name) {
                        Some(a)
                    } else {
                        None
                    }
                },
                _ => None,
            }
        } else {
            None
        },
    }
}

/// Every node that `descendants_below` lists lies in the tree.
pub proof fn lemma_descendants_in_tree(t: Seq<SyntaxNode>, a: int, k: Seq<char>, hi: int)
    ensures
        forall|i: int|
            0 <= i < descendants_below(t, a, k, hi).len() ==> (#[trigger] descendants_below(
                t,
                a,
                k,
                hi,
            )[i]) < t.len(),
    decreases hi,
{
    if hi > 0 {
        lemma_descendants_in_tree(t, a, k, hi - 1);
        let r = descendants_below(t, a, k, hi - 1);
        if descends(t, a, hi - 1) && kind_of(t, hi - 1, k) {
            assert forall|i: int| 0 <= i < r.len() + 1 implies #[trigger] r.push(
                (hi - 1) as usize,
            )[i] < t.len() by {
                if i < r.len() {
                    assert(r.push((hi - 1) as usize)[i] == r[i]);
                }
            }
        }
    }
}

} // verus!
