//! Parsing C++ source with tree-sitter and its C++ grammar, and copying the
//! resulting tree into a `SyntaxTree` with character offsets.

use vstd::prelude::*;
use crate::ast::{SyntaxTree, SyntaxNode};
use crate::text::chars_of;

verus! {

/// tree_sitter::Tree, carried opaquely.
#[verifier::external_type_specification]
#[verifier::external_body]
pub struct ExTree(tree_sitter::Tree);

/// tree_sitter::Node, carried opaquely.
#[verifier::external_type_specification]
#[verifier::external_body]
pub struct ExNode<'tree>(tree_sitter::Node<'tree>);

/// The kind of the node that tree-sitter's C++ grammar gives at `path`
/// (child indices from the root) in the parse of `code`.
pub uninterp spec fn ts_kind(code: Seq<char>, path: Seq<usize>) -> Seq<char>;

/// The byte offset where that node starts.
pub uninterp spec fn ts_start_byte(code: Seq<char>, path: Seq<usize>) -> usize;

/// The byte offset where that node ends.
pub uninterp spec fn ts_end_byte(code: Seq<char>, path: Seq<usize>) -> usize;

/// The 0-based row where that node starts.
pub uninterp spec fn ts_start_row(code: Seq<char>, path: Seq<usize>) -> usize;

/// The number of children of that node.
pub uninterp spec fn ts_child_count(code: Seq<char>, path: Seq<usize>) -> usize;

/// The field that child `i` of that node fills, if any.
pub uninterp spec fn ts_field_name(code: Seq<char>, path: Seq<usize>, i: nat) -> Option<Seq<char>>;

/// The number of nodes of that node's subtree, itself included.
pub uninterp spec fn ts_descendant_count(code: Seq<char>, path: Seq<usize>) -> usize;

/// A tree-sitter parse tree, with the text it was parsed from.
pub struct TsTree {
    tree: tree_sitter::Tree,
    text: Ghost<Seq<char>>,
}

impl TsTree {
    pub closed spec fn text(&self) -> Seq<char> {
        self.text@
    }
}

/// A node of a tree-sitter parse tree, with the text that was parsed and
/// the node's path of child indices from the root.
pub struct TsNode<'tree> {
    node: tree_sitter::Node<'tree>,
    text: Ghost<Seq<char>>,
    path: Ghost<Seq<usize>>,
}

impl<'tree> TsNode<'tree> {
    pub closed spec fn text(&self) -> Seq<char> {
        self.text@
    }

    pub closed spec fn path(&self) -> Seq<usize> {
        self.path@
    }
}

/// The view of an optional static string.
pub open spec fn opt_text(s: Option<&'static str>) -> Option<Seq<char>> {
    match s {
        Some(x) => Some(x@),
        None => None,
    }
}

/// Relies on tree_sitter::Parser (new, set_language with
/// tree_sitter_cpp::language(), parse): the C++ grammar is of language
/// version 14, which this tree-sitter accepts (13 to 14), and with no
/// timeout or cancellation flag set `parse` always gives a tree.
#[verifier::external_body]
fn parse_cpp(code: &str) -> (r: Option<TsTree>)
    ensures
        r is Some,
        r is Some ==> r->Some_0.text() == code@,
{
    let mut parser = tree_sitter::Parser::new();
    parser.set_language(&tree_sitter_cpp::language()).ok()?;
    let tree = parser.parse(code, None)?;
    Some(TsTree { tree, text: Ghost(code@) })
}

/// Relies on tree_sitter::Tree::root_node: the root, at the empty path.
#[verifier::external_body]
fn root_of(tree: &TsTree) -> (r: TsNode<'_>)
    ensures
        r.text() == tree.text(),
        r.path() == Seq::<usize>::empty(),
{
    TsNode { node: tree.tree.root_node(), text: Ghost(tree.text@), path: Ghost(Seq::empty()) }
}

/// Relies on tree_sitter::Node::kind.
#[verifier::external_body]
fn node_kind(n: &TsNode) -> (r: &'static str)
    ensures
        r@ == ts_kind(n.text(), n.path()),
{
    n.node.kind()
}

/// Relies on tree_sitter::Node::start_byte.
#[verifier::external_body]
fn node_start_byte(n: &TsNode) -> (r: usize)
    ensures
        r == ts_start_byte(n.text(), n.path()),
{
    n.node.start_byte()
}

/// Relies on tree_sitter::Node::end_byte.
#[verifier::external_body]
fn node_end_byte(n: &TsNode) -> (r: usize)
    ensures
        r == ts_end_byte(n.text(), n.path()),
{
    n.node.end_byte()
}

/// Relies on tree_sitter::Node::start_position (its `row` field).
#[verifier::external_body]
fn node_start_row(n: &TsNode) -> (r: usize)
    ensures
        r == ts_start_row(n.text(), n.path()),
{
    n.node.start_position().row
}

/// Relies on tree_sitter::Node::child_count.
#[verifier::external_body]
fn node_child_count(n: &TsNode) -> (r: usize)
    ensures
        r == ts_child_count(n.text(), n.path()),
{
    n.node.child_count()
}

/// Relies on tree_sitter::Node::child: below the child count there is a
/// child, found at the path extended by its index.
#[verifier::external_body]
fn node_child<'tree>(n: &TsNode<'tree>, i: u32) -> (r: Option<TsNode<'tree>>)
    ensures
        (i as usize) < ts_child_count(n.text(), n.path()) ==> r is Some,
        r matches Some(c) ==> c.text() == n.text() && c.path() == n.path().push(i as usize),
{
    let c = n.node.child(i as usize)?;
    Some(TsNode { node: c, text: Ghost(n.text@), path: Ghost(n.path@.push(i as usize)) })
}

/// Relies on tree_sitter::Node::field_name_for_child.
#[verifier::external_body]
fn node_field_name(n: &TsNode, i: u32) -> (r: Option<&'static str>)
    ensures
        opt_text(r) == ts_field_name(n.text(), n.path(), i as nat),
{
    n.node.field_name_for_child(i)
}

/// Relies on tree_sitter::Node::descendant_count.
#[verifier::external_body]
fn node_descendant_count(n: &TsNode) -> (r: usize)
    ensures
        r == ts_descendant_count(n.text(), n.path()),
{
    n.node.descendant_count()
}

/// The number of bytes of `c` in UTF-8.
pub open spec fn utf8_width(c: char) -> nat {
    let u = c as u32;
    if u < 0x80 {
        1
    } else if u < 0x800 {
        2
    } else if u < 0x10000 {
        3
    } else {
        4
    }
}

fn utf8_width_of(c: char) -> (r: usize)
    ensures
        r == utf8_width(c),
{
    let u = c as u32;
    if u < 0x80 {
        1
    } else if u < 0x800 {
        2
    } else if u < 0x10000 {
        3
    } else {
        4
    }
}

/// For each byte of the UTF-8 text of `s`, the index of the character it
/// belongs to.
pub open spec fn char_of_byte(s: Seq<char>) -> Seq<usize>
    decreases s.len(),
{
    if s.len() == 0 {
        seq![]
    } else {
        char_of_byte(s.drop_last()) + Seq::new(utf8_width(s.last()), |_j: int| (s.len() - 1) as usize)
    }
}

proof fn lemma_char_of_byte_bound(s: Seq<char>)
    ensures
        forall|b: int| 0 <= b < char_of_byte(s).len() ==> #[trigger] char_of_byte(s)[b] < s.len(),
    decreases s.len(),
{
    if s.len() > 0 {
        lemma_char_of_byte_bound(s.drop_last());
        let a = char_of_byte(s.drop_last());
        let w = Seq::new(utf8_width(s.last()), |_j: int| (s.len() - 1) as usize);
        assert forall|b: int| 0 <= b < char_of_byte(s).len() implies #[trigger] char_of_byte(s)[b]
            < s.len() by {
            if b < a.len() {
                assert(char_of_byte(s)[b] == a[b]);
            } else {
                assert(char_of_byte(s)[b] == w[b - a.len()]);
            }
        }
    }
}

/// `char_of_byte(s)`, followed by the character count for the offset just
/// past the text.
pub open spec fn char_offsets(s: Seq<char>) -> Seq<usize> {
    char_of_byte(s).push(s.len() as usize)
}

/// For each byte offset of the UTF-8 text of `chars`, and one past its end,
/// the index of the character that the byte belongs to.
fn char_index_of_bytes(chars: &Vec<char>) -> (r: Vec<usize>)
    ensures
        r@ == char_offsets(chars@),
{
    let mut r: Vec<usize> = Vec::new();
    let mut i: usize = 0;
    assert(chars@.take(0) =~= Seq::<char>::empty());
    while i < chars.len()
        invariant
            i <= chars@.len(),
            r@ == char_of_byte(chars@.take(i as int)),
        decreases chars.len() - i,
    {
        let w = utf8_width_of(chars[i]);
        let mut k: usize = 0;
        let ghost base = r@;
        assert(base + Seq::new(0, |_j: int| i) =~= base);
        while k < w
            invariant
                i < chars@.len(),
                k <= w,
                r@ == base + Seq::new(k as nat, |_j: int| i),
            decreases w - k,
        {
            r.push(i);
            assert(r@ =~= base + Seq::new((k + 1) as nat, |_j: int| i));
            k = k + 1;
        }
        proof {
            let s = chars@.take(i + 1);
            assert(s.drop_last() =~= chars@.take(i as int));
            assert(s.last() == chars@[i as int]);
        }
        i = i + 1;
    }
    assert(chars@.take(i as int) =~= chars@);
    r.push(chars.len());
    r
}

/// A node still to be copied: its path in tree-sitter's tree, the index of
/// its parent in the copy, and the field it fills there.
pub ghost struct Pending {
    pub path: Seq<usize>,
    pub parent: Option<usize>,
    pub field: Option<Seq<char>>,
}

/// What a copied node holds, as plain values.
pub ghost struct NodeSpec {
    pub kind: Seq<char>,
    pub field: Option<Seq<char>>,
    pub start: usize,
    pub end: usize,
    pub row: usize,
    pub parent: Option<usize>,
    pub children: Seq<usize>,
}

pub open spec fn node_spec(n: SyntaxNode) -> NodeSpec {
    NodeSpec {
        kind: n.kind@,
        field: match n.field {
            Some(f) => Some(f@),
            None => None,
        },
        start: n.start,
        end: n.end,
        row: n.row,
        parent: n.parent,
        children: n.children@,
    }
}

/// What the nodes of `t` hold.
pub open spec fn node_specs(t: Seq<SyntaxNode>) -> Seq<NodeSpec> {
    t.map_values(|n: SyntaxNode| node_spec(n))
}

/// The children `i` to `n - 1` of the node at `path`, last first, each to
/// be copied under parent `idx`.
pub open spec fn pending_children(code: Seq<char>, path: Seq<usize>, idx: usize, n: nat, i: nat) -> Seq<Pending>
    decreases n - i,
{
    if i >= n {
        seq![]
    } else {
        pending_children(code, path, idx, n, i + 1).push(
            Pending { path: path.push(i as usize), parent: Some(idx), field: ts_field_name(code, path, i) },
        )
    }
}

/// Whether a node with this parent can be the next of `len` copied nodes.
pub open spec fn parent_fits(parent: Option<usize>, len: nat) -> bool {
    match parent {
        None => len == 0,
        Some(q) => q < len,
    }
}

/// Copying tree-sitter's tree of `code`, depth first: `acc` is copied, the
/// top of `stack` comes next, and at most `budget` more nodes are taken.
/// `None` when a node's data cannot be copied (a byte offset past the text,
/// a range that ends before it starts, a row or child count out of range)
/// or the budget runs out.
pub open spec fn copy_walk(
    code: Seq<char>,
    offsets: Seq<usize>,
    acc: Seq<NodeSpec>,
    stack: Seq<Pending>,
    budget: nat,
) -> Option<Seq<NodeSpec>>
    decreases budget,
{
    if stack.len() == 0 {
        Some(acc)
    } else if budget == 0 {
        None
    } else {
        let e = stack.last();
        let p = e.path;
        let sb = ts_start_byte(code, p);
        let eb = ts_end_byte(code, p);
        let row = ts_start_row(code, p);
        let n = ts_child_count(code, p);
        if sb >= offsets.len() || eb >= offsets.len() || row >= usize::MAX || acc.len() >= usize::MAX
            || offsets[sb as int] > offsets[eb as int] || !parent_fits(e.parent, acc.len())
            || n > 0xffff_ffff {
            None
        } else {
            let idx = acc.len() as usize;
            let node = NodeSpec {
                kind: ts_kind(code, p),
                field: e.field,
                start: offsets[sb as int],
                end: offsets[eb as int],
                row: (row + 1) as usize,
                parent: e.parent,
                children: seq![],
            };
            let acc1 = match e.parent {
                Some(q) => acc.update(
                    q as int,
                    NodeSpec { children: acc[q as int].children.push(idx), ..acc[q as int] },
                ),
                None => acc,
            };
            copy_walk(
                code,
                offsets,
                acc1.push(node),
                stack.drop_last() + pending_children(code, p, idx, n as nat, 0),
                (budget - 1) as nat,
            )
        }
    }
}

/// The copy of tree-sitter's tree of `code`, in depth-first order, with
/// character ranges and 1-based rows; the walk takes at most as many steps
/// as tree-sitter counts nodes.
pub open spec fn ts_tree(code: Seq<char>) -> Option<Seq<NodeSpec>> {
    copy_walk(
        code,
        char_offsets(code),
        seq![],
        seq![Pending { path: seq![], parent: None, field: None }],
        ts_descendant_count(code, seq![]) as nat,
    )
}

/// The view of a stack entry of the copy.
pub open spec fn pending_of(e: (TsNode, Option<usize>, Option<&'static str>)) -> Pending {
    Pending { path: e.0.path(), parent: e.1, field: opt_text(e.2) }
}

/// Parses `code` as C++ and copies tree-sitter's tree, node by node in
/// depth-first (document) order, into a `SyntaxTree` whose ranges count
/// characters: exactly the tree `ts_tree` describes.
pub fn parse_source(code: &str) -> (r: Option<SyntaxTree>)
    ensures
        match r {
            Some(t) => t.wf() && t.fits(code@.len()) && ts_tree(code@) == Some(node_specs(t@)),
            None => ts_tree(code@) is None,
        },
{
    let parsed = match parse_cpp(code) {
        Some(tree) => tree,
        None => {
            return None;
        },
    };
    let chars = chars_of(code);
    let offsets = char_index_of_bytes(&chars);
    proof {
        lemma_char_of_byte_bound(code@);
        assert forall|b: int| 0 <= b < offsets@.len() implies #[trigger] offsets@[b] <= chars@.len() by {
            if b < char_of_byte(code@).len() {
                assert(offsets@[b] == char_of_byte(code@)[b]);
            }
        }
    }
    let root = root_of(&parsed);
    let mut budget = node_descendant_count(&root);
    let mut t = SyntaxTree::new();
    let mut stack: Vec<(TsNode, Option<usize>, Option<&'static str>)> = Vec::new();
    stack.push((root, None, None));
    proof {
        assert(node_specs(t@) =~= Seq::<NodeSpec>::empty());
        assert(stack@.map_values(|e: (TsNode, Option<usize>, Option<&'static str>)| pending_of(e))
            =~= seq![Pending { path: seq![], parent: None, field: None }]);
    }
    while stack.len() > 0
        invariant
            t.wf(),
            t.fits(code@.len()),
            chars@ == code@,
            offsets@ == char_offsets(code@),
            forall|b: int| 0 <= b < offsets@.len() ==> #[trigger] offsets@[b] <= chars@.len(),
            forall|j: int| 0 <= j < stack@.len() ==> (#[trigger] stack@[j]).0.text() == code@,
            copy_walk(
                code@,
                offsets@,
                node_specs(t@),
                stack@.map_values(|e: (TsNode, Option<usize>, Option<&'static str>)| pending_of(e)),
                budget as nat,
            ) == ts_tree(code@),
        decreases budget,
    {
        let ghost acc = node_specs(t@);
        let ghost st = stack@.map_values(|e: (TsNode, Option<usize>, Option<&'static str>)| pending_of(e));
        if budget == 0 {
            return None;
        }
        budget = budget - 1;
        let (node, parent, field) = match stack.pop() {
            Some(entry) => entry,
            None => {
                return None;
            },
        };
        proof {
            assert(st.last() == pending_of((node, parent, field)));
            assert(stack@.map_values(|e: (TsNode, Option<usize>, Option<&'static str>)| pending_of(e))
                =~= st.drop_last());
        }
        let sb = node_start_byte(&node);
        let eb = node_end_byte(&node);
        let row = node_start_row(&node);
        let n = node_child_count(&node);
        if sb >= offsets.len() || eb >= offsets.len() || row == usize::MAX || n > 0xffff_ffff {
            return None;
        }
        let field_name = match field {
            Some(f) => Some(String::from_str(f)),
            None => None,
        };
        let ghost before = t@;
        let index = match t.add_node(
            parent,
            String::from_str(node_kind(&node)),
            field_name,
            offsets[sb],
            offsets[eb],
            row + 1,
        ) {
            Some(index) => index,
            None => {
                return None;
            },
        };
        proof {
            assert forall|j: int| 0 <= j < t@.len() implies #[trigger] t@[j].end <= code@.len() by {
                if j < before.len() {
                    assert(t@[j].end == before[j].end);
                }
            }
            let node_v = NodeSpec {
                kind: ts_kind(code@, node.path()),
                field: opt_text(field),
                start: offsets@[sb as int],
                end: offsets@[eb as int],
                row: (row + 1) as usize,
                parent: parent,
                children: seq![],
            };
            let acc1 = match parent {
                Some(q) => acc.update(
                    q as int,
                    NodeSpec { children: acc[q as int].children.push(index), ..acc[q as int] },
                ),
                None => acc,
            };
            assert(node_specs(t@) =~= acc1.push(node_v));
        }
        let ghost base = stack@.map_values(|e: (TsNode, Option<usize>, Option<&'static str>)| pending_of(e));
        let mut i: u32 = n as u32;
        assert(pending_children(code@, node.path(), index, n as nat, n as nat) =~= Seq::<Pending>::empty());
        assert(base + Seq::<Pending>::empty() =~= base);
        while i > 0
            invariant
                i <= n <= 0xffff_ffff,
                n == ts_child_count(node.text(), node.path()),
                node.text() == code@,
                forall|j: int| 0 <= j < stack@.len() ==> (#[trigger] stack@[j]).0.text() == code@,
                stack@.map_values(|e: (TsNode, Option<usize>, Option<&'static str>)| pending_of(e))
                    == base + pending_children(code@, node.path(), index, n as nat, i as nat),
            decreases i,
        {
            i = i - 1;
            match node_child(&node, i) {
                Some(c) => {
                    let f = node_field_name(&node, i);
                    let ghost prev = stack@;
                    stack.push((c, Some(index), f));
                    proof {
                        assert(stack@.map_values(|e: (TsNode, Option<usize>, Option<&'static str>)| pending_of(e))
                            =~= prev.map_values(|e: (TsNode, Option<usize>, Option<&'static str>)| pending_of(e)).push(
                            pending_of((c, Some(index), f)),
                        ));
                        assert(base + pending_children(code@, node.path(), index, n as nat, i as nat)
                            =~= (base + pending_children(code@, node.path(), index, n as nat, (i + 1) as nat)).push(
                            pending_of((c, Some(index), f)),
                        ));
                    }
                },
                None => {
                    return None;
                },
            }
        }
    }
    proof {
        assert(stack@.map_values(|e: (TsNode, Option<usize>, Option<&'static str>)| pending_of(e))
            =~= Seq::<Pending>::empty());
    }
    Some(t)
}

} // verus!
