//! The syntax tree the instrumenter reads: an arena of nodes in document
//! (pre-)order, each with its kind, the field it fills in its parent, its
//! character range in the source, its line, and links to parent and children.

use vstd::prelude::*;
use crate::text::{chars_of, one_line, one_line_of, range_is};

verus! {

/// The node kinds the instrumenter dispatches on.
pub enum ASTNodeKind {
    HeaderInclude,
    UsingDecl,
    FnDef,
    CallExpr,
    NewExpr,
    FieldExpr,
}

impl ASTNodeKind {
    /// The grammar's name for this kind.
    pub open spec fn name(&self) -> Seq<char> {
        match self {
            ASTNodeKind::HeaderInclude => "preproc_include"@,
            ASTNodeKind::UsingDecl => "using_declaration"@,
            ASTNodeKind::FnDef => "function_definition"@,
            ASTNodeKind::CallExpr => "call_expression"@,
            ASTNodeKind::NewExpr => "new_expression"@,
            ASTNodeKind::FieldExpr => "field_expression"@,
        }
    }

    pub fn to_string(&self) -> (r: &'static str)
        ensures
            r@ == self.name(),
    {
        match self {
            ASTNodeKind::HeaderInclude => "preproc_include",
            ASTNodeKind::UsingDecl => "using_declaration",
            ASTNodeKind::FnDef => "function_definition",
            ASTNodeKind::CallExpr => "call_expression",
            ASTNodeKind::NewExpr => "new_expression",
            ASTNodeKind::FieldExpr => "field_expression",
        }
    }
}

/// One node of a `SyntaxTree`.
pub struct SyntaxNode {
    /// The grammar's name for the node's kind.
    pub kind: String,
    /// The name of the field this node fills in its parent, if any.
    pub field: Option<String>,
    /// Character offset where the node's text starts.
    pub start: usize,
    /// Character offset just past the node's text.
    pub end: usize,
    /// 1-based line on which the node starts.
    pub row: usize,
    /// Index of the parent node; `None` for the root.
    pub parent: Option<usize>,
    /// Indices of the children, in order.
    pub children: Vec<usize>,
}

/// Read access to a node's position and kind.
pub trait AstNode {
    spec fn spec_line(&self) -> nat;

    spec fn spec_kind(&self) -> Seq<char>;

    spec fn spec_start(&self) -> nat;

    spec fn spec_end(&self) -> nat;

    /// The 1-based line on which the node starts.
    fn row(&self) -> (r: usize)
        ensures
            r == self.spec_line(),
    ;

    /// The node's text, exactly as it stands in `code`.
    fn to_raw(&self, code: &str) -> (r: String)
        requires
            self.spec_start() <= self.spec_end() <= code@.len(),
        ensures
            r@ == code@.subrange(self.spec_start() as int, self.spec_end() as int),
    ;

    /// The node's text folded onto one line.
    fn to_source(&self, code: &str) -> (r: String)
        requires
            self.spec_start() <= self.spec_end() <= code@.len(),
        ensures
            r@ == one_line(code@.subrange(self.spec_start() as int, self.spec_end() as int)),
    ;

    fn is_header_include(&self) -> (r: bool)
        ensures
            r == (self.spec_kind() == "preproc_include"@),
    ;

    fn is_using_declaration(&self) -> (r: bool)
        ensures
            r == (self.spec_kind() == "using_declaration"@),
    ;

    fn is_function_definition(&self) -> (r: bool)
        ensures
            r == (self.spec_kind() == "function_definition"@),
    ;
}

/// Whether the string `s` is exactly the text `t`.
pub fn str_is(s: &String, t: &str) -> (r: bool)
    ensures
        r == (s@ == t@),
{
    let v = chars_of(s.as_str());
    assert(v@.subrange(0, v@.len() as int) =~= v@);
    range_is(&v, 0, v.len(), t)
}

impl AstNode for SyntaxNode {
    open spec fn spec_line(&self) -> nat {
        self.row as nat
    }

    open spec fn spec_kind(&self) -> Seq<char> {
        self.kind@
    }

    open spec fn spec_start(&self) -> nat {
        self.start as nat
    }

    open spec fn spec_end(&self) -> nat {
        self.end as nat
    }

    fn row(&self) -> (r: usize) {
        self.row
    }

    fn to_raw(&self, code: &str) -> (r: String) {
        String::from_str(code.substring_char(self.start, self.end))
    }

    fn to_source(&self, code: &str) -> (r: String) {
        let v = chars_of(code);
        one_line_of(code, &v, self.start, self.end)
    }

    fn is_header_include(&self) -> (r: bool) {
        str_is(&self.kind, "preproc_include")
    }

    fn is_using_declaration(&self) -> (r: bool) {
        str_is(&self.kind, "using_declaration")
    }

    fn is_function_definition(&self) -> (r: bool) {
        str_is(&self.kind, "function_definition")
    }
}

/// A syntax tree stored as a list of nodes: the root first, every node
/// after its parent. Built depth first, as `parse_source` builds it, index
/// order is document order.
pub struct SyntaxTree {
    nodes: Vec<SyntaxNode>,
}

/// Whether `a` is `j` or one of its ancestors.
pub open spec fn ancestor_or_self(t: Seq<SyntaxNode>, a: int, j: int) -> bool
    decreases j,
{
    if a == j {
        true
    } else if 0 <= j < t.len() {
        match t[j].parent {
            Some(p) => p < j && ancestor_or_self(t, a, p as int),
            None => false,
        }
    } else {
        false
    }
}

/// Node `i` has an ordered range, a parent before it (node 0 alone has
/// none), and children after it that name it as their parent.
pub open spec fn node_ok(t: Seq<SyntaxNode>, i: int) -> bool {
    &&& t[i].start <= t[i].end
    &&& (i == 0) == (t[i].parent is None)
    &&& match t[i].parent {
        Some(p) => p < i,
        None => true,
    }
    &&& forall|k: int|
        0 <= k < t[i].children@.len() ==> {
            let c = #[trigger] t[i].children@[k];
            &&& i < c < t.len()
            &&& t[c as int].parent == Some(i as usize)
        }
}

impl View for SyntaxTree {
    type V = Seq<SyntaxNode>;

    closed spec fn view(&self) -> Seq<SyntaxNode> {
        self.nodes@
    }
}

impl SyntaxTree {
    /// The arena's shape: node 0 is the root, a parent comes before its
    /// children, and child and parent links agree.
    pub open spec fn wf(&self) -> bool {
        forall|i: int| #![trigger self@[i]] 0 <= i < self@.len() ==> node_ok(self@, i)
    }

    /// Whether the tree has the shape `wf` describes.
    pub fn check_wf(&self) -> (r: bool)
        ensures
            r == self.wf(),
    {
        let n = self.nodes.len();
        let mut i: usize = 0;
        while i < n
            invariant
                n == self@.len(),
                i <= n,
                forall|j: int| #![trigger self@[j]] 0 <= j < i ==> node_ok(self@, j),
            decreases n - i,
        {
            let node = &self.nodes[i];
            let ok_parent = match node.parent {
                None => i == 0,
                Some(p) => i != 0 && p < i,
            };
            if node.start > node.end || !ok_parent {
                assert(!node_ok(self@, i as int));
                return false;
            }
            let mut k: usize = 0;
            while k < node.children.len()
                invariant
                    n == self@.len(),
                    i < n,
                    *node == self@[i as int],
                    k <= node.children@.len(),
                    forall|m: int|
                        0 <= m < k ==> {
                            let c = #[trigger] node.children@[m];
                            &&& i < c < n
                            &&& self@[c as int].parent == Some(i)
                        },
                decreases node.children.len() - k,
            {
                let c = node.children[k];
                if c <= i || c >= n || self.nodes[c].parent != Some(i) {
                    assert(!node_ok(self@, i as int));
                    return false;
                }
                k = k + 1;
            }
            i = i + 1;
        }
        true
    }

    /// Whether every node's range lies within a text of `n` characters.
    pub fn check_fits(&self, n: usize) -> (r: bool)
        ensures
            r == self.fits(n as nat),
    {
        let mut i: usize = 0;
        while i < self.nodes.len()
            invariant
                i <= self@.len(),
                forall|j: int| 0 <= j < i ==> #[trigger] self@[j].end <= n,
            decreases self.nodes.len() - i,
        {
            if self.nodes[i].end > n {
                return false;
            }
            i = i + 1;
        }
        true
    }

    /// Every node's range lies within a text of `n` characters.
    pub open spec fn fits(&self, n: nat) -> bool {
        forall|i: int| 0 <= i < self@.len() ==> #[trigger] self@[i].end <= n
    }

    /// An empty tree.
    pub fn new() -> (r: SyntaxTree)
        ensures
            r@ == Seq::<SyntaxNode>::empty(),
            r.wf(),
    {
        SyntaxTree { nodes: Vec::new() }
    }

    pub fn len(&self) -> (r: usize)
        ensures
            r == self@.len(),
    {
        self.nodes.len()
    }

    pub fn node(&self, i: usize) -> (r: &SyntaxNode)
        requires
            i < self@.len(),
        ensures
            *r == self@[i as int],
    {
        &self.nodes[i]
    }

    /// Whether a node with this parent and range can be added next: the
    /// first node is the root, every later one has an earlier node as parent.
    pub open spec fn can_add(&self, parent: Option<usize>, start: usize, end: usize) -> bool {
        &&& self@.len() < usize::MAX
        &&& start <= end
        &&& match parent {
            None => self@.len() == 0,
            Some(p) => p < self@.len(),
        }
    }

    /// Adds the next node in document order, as the last child of `parent`
    /// (the root when `parent` is `None`). Returns its index, or `None`, with
    /// the tree unchanged, when the node cannot come next. Callers add a
    /// node's subtree right after it, so that index order is document order.
    pub fn add_node(
        &mut self,
        parent: Option<usize>,
        kind: String,
        field: Option<String>,
        start: usize,
        end: usize,
        row: usize,
    ) -> (r: Option<usize>)
        requires
            old(self).wf(),
        ensures
            final(self).wf(),
            r is Some == old(self).can_add(parent, start, end),
            r is None ==> final(self)@ == old(self)@,
            r is Some ==> {
                let n = old(self)@.len();
                &&& r == Some(n as usize)
                &&& final(self)@.len() == n + 1
                &&& final(self)@[n as int].kind == kind
                &&& final(self)@[n as int].field == field
                &&& final(self)@[n as int].start == start
                &&& final(self)@[n as int].end == end
                &&& final(self)@[n as int].row == row
                &&& final(self)@[n as int].parent == parent
                &&& final(self)@[n as int].children@ == Seq::<usize>::empty()
                &&& forall|j: int|
                    0 <= j < n ==> {
                        &&& (#[trigger] final(self)@[j]).kind == old(self)@[j].kind
                        &&& final(self)@[j].field == old(self)@[j].field
                        &&& final(self)@[j].start == old(self)@[j].start
                        &&& final(self)@[j].end == old(self)@[j].end
                        &&& final(self)@[j].row == old(self)@[j].row
                        &&& final(self)@[j].parent == old(self)@[j].parent
                        &&& final(self)@[j].children@ == if Some(j as usize) == parent {
                            old(self)@[j].children@.push(n as usize)
                        } else {
                            old(self)@[j].children@
                        }
                    }
            },
    {
        let n = self.nodes.len();
        if n == usize::MAX || start > end {
            return None;
        }
        match parent {
            None => {
                if n != 0 {
                    return None;
                }
                self.nodes.push(
                    SyntaxNode { kind, field, start, end, row, parent, children: Vec::new() },
                );
                Some(0)
            },
            Some(p) => {
                if p >= n {
                    return None;
                }
                self.nodes[p].children.push(n);
                self.nodes.push(
                    SyntaxNode {
                        kind,
                        field,
                        start,
                        end,
                        row,
                        parent,
                        children: Vec::new(),
                    },
                );
                Some(n)
            },
        }
    }
}

} // verus!
