//! The instrumentation rules: for each recognized shape of a pass's source,
//! the edits that insert the runtime checker's hooks, and the driver that
//! collects them over a whole file and applies them.

use vstd::prelude::*;
use crate::ast::{SyntaxTree, SyntaxNode};
use crate::edit::{
    Edit,
    EditKind,
    EditSet,
    EditView,
    views,
    add_edit,
    add_edits,
    apply_edits,
    clear_of,
    keys_unique,
    lemma_add_edits_keeps,
    lemma_keys_unique_distinct,
    lemma_edit_anchored,
    lemma_applied_within,
};
use crate::hook::{
    Hook,
    track_dst_call,
    track_dst_stmt,
    track_src_stmt,
    preserving_tail,
    merging_stmt,
    dropping_tail,
    insertion_head,
    checker_init,
    return_head,
    header_include_text,
    global_var_decl_text,
    make_track_dst_call,
    make_track_dst_stmt,
    make_track_src_stmt,
    make_preserving_tail,
    make_merging_stmt,
    make_dropping_tail,
    make_insertion_head,
    make_checker_init,
};
use crate::matcher::{
    ConstructKind,
    DLUpdateKind,
    FuncMatch,
    spec_construct,
    spec_debugloc_update,
    spec_pass_entry,
};
use crate::traverse::{
    node_text,
    kind_of,
    nearest_ancestor,
    field_child,
    child_at,
    num_children,
    descendants_of_kind,
    var_from_decl,
    var_from_assign,
    fn_identifier,
    source_of,
    kind_is,
    nth_child,
    children_count,
    child_by_field_name,
    get_children_of_kind,
    get_parent_of_kind,
    get_var_name_from_decl,
    get_var_name_from_assign,
    get_fn_identifier,
    get_ident_from_call,
    receiver_of_call,
    lemma_descendants_in_tree,
};
use crate::text::{chars_of, occurs_in};
use crate::parse::{parse_source, ts_tree, node_specs};
use crate::hook::{Marker, check_code, missing_marker, is_instrumented, spec_missing_marker};

verus! {

/// Why a file cannot be instrumented.
#[derive(PartialEq, Eq, Structural, Clone, Copy, Debug)]
pub enum InstrumentError {
    /// The file has no header include to place the hook header before.
    NoHeaderInclude,
    /// The file has no using- or alias-declaration to place the checker handle after.
    NoUsingDeclaration,
    /// A node lacks a part its shape requires.
    MissingNode { node: usize },
    /// A pass entry point has no parameter.
    NoPassParameter { node: usize },
    /// A call has an argument count the rules do not know.
    UnsupportedArity { node: usize },
    /// A call stands where its rule cannot name its result.
    UnsupportedContext { node: usize },
    /// Two edits overlap, or one lies outside the text.
    ConflictingEdits,
    /// The tree does not describe the text.
    TreeMismatch,
    /// The parser gave no tree for the text.
    ParseFailed,
}

/// A shape that is left uninstrumented, and reported.
#[derive(PartialEq, Eq, Structural, Clone, Copy, Debug)]
pub enum Warning {
    /// A construction of an IR value outside a declaration, assignment or return.
    UnsupportedNew { node: usize },
    /// A function definition without a function declarator.
    NoDeclarator { node: usize },
    /// A pass entry point whose first parameter is of no known unit type.
    UnknownPassTarget { node: usize },
}

/// The edits a rule derives, or why it cannot.
pub type Plan = Result<Seq<EditView>, InstrumentError>;

pub open spec fn plan_of(r: Result<Vec<Edit>, InstrumentError>) -> Plan {
    match r {
        Ok(v) => Ok(views(v@)),
        Err(e) => Err(e),
    }
}

/// `a` followed by `b`; the first error wins.
pub open spec fn then(a: Plan, b: Plan) -> Plan {
    match a {
        Err(e) => Err(e),
        Ok(x) => match b {
            Err(e) => Err(e),
            Ok(y) => Ok(x + y),
        },
    }
}

pub open spec fn ins(pos: nat, c: Seq<char>) -> EditView {
    EditView { content: c, start_pos: pos, kind: EditKind::Insert }
}

pub open spec fn rep(start: nat, end: usize, c: Seq<char>) -> EditView {
    EditView { content: c, start_pos: start, kind: EditKind::Replace(end) }
}

/// The tree, text and characters a rule reads, in agreement.
pub open spec fn ready(t: &SyntaxTree, code: &str, v: &Vec<char>) -> bool {
    &&& t.wf()
    &&& t.fits(code@.len())
    &&& v@ == code@
    &&& code@.len() < usize::MAX
}

fn one(e: Edit) -> (r: Vec<Edit>)
    ensures
        views(r@) == seq![e@],
{
    let r = vec![e];
    assert(views(r@) =~= seq![e@]);
    r
}

fn two(a: Edit, b: Edit) -> (r: Vec<Edit>)
    ensures
        views(r@) == seq![a@, b@],
{
    let r = vec![a, b];
    assert(views(r@) =~= seq![a@, b@]);
    r
}

fn three(a: Edit, b: Edit, c: Edit) -> (r: Vec<Edit>)
    ensures
        views(r@) == seq![a@, b@, c@],
{
    let r = vec![a, b, c];
    assert(views(r@) =~= seq![a@, b@, c@]);
    r
}

fn none() -> (r: Vec<Edit>)
    ensures
        views(r@) == Seq::<EditView>::empty(),
{
    let r: Vec<Edit> = Vec::new();
    assert(views(r@) =~= Seq::<EditView>::empty());
    r
}

/// Creating, by a call: record the bound name after its declaration or
/// assignment, or capture the value of a returned or discarded call.
pub open spec fn creating_call_plan(t: Seq<SyntaxNode>, code: Seq<char>, call: int) -> Plan {
    match nearest_ancestor(t, call, "declaration"@) {
        Some(d) => match var_from_decl(t, d as int) {
            None => Err(InstrumentError::MissingNode { node: d }),
            Some(x) => {
                let name = node_text(t, code, x as int);
                Ok(
                    seq![ins(t[d as int].end as nat, track_dst_stmt(name, "nullptr"@, ConstructKind::Creating, t[d as int].row as nat, name, ""@))],
                )
            },
        },
        None => match nearest_ancestor(t, call, "assignment_expression"@) {
            Some(a) => match var_from_assign(t, a as int) {
                None => Err(InstrumentError::MissingNode { node: a }),
                Some(x) => {
                    let name = node_text(t, code, x as int);
                    Ok(
                        seq![ins(t[a as int].start as nat, "{ "@), ins((t[a as int].end + 1) as nat, track_dst_stmt(name, "nullptr"@, ConstructKind::Creating, t[a as int].row as nat, name, ""@) + " }"@)],
                    )
                },
            },
            None => match nearest_ancestor(t, call, "return_statement"@) {
                Some(r) => Ok(
                    seq![rep(t[r as int].start as nat, t[r as int].end, "{ auto *V = "@ + node_text(t, code, call) + ";"@ + track_dst_stmt("V"@, "nullptr"@, ConstructKind::Creating, t[call].row as nat, ""@, ""@) + " return V; }"@)],
                ),
                None => match t[call].parent {
                    Some(p) => if kind_of(t, p as int, "expression_statement"@) {
                        Ok(
                            seq![rep(t[call].start as nat, t[call].end, "Instruction *I = "@ + node_text(t, code, call) + ";"@ + track_dst_call("I"@, "nullptr"@, ConstructKind::Creating, t[call].row as nat, ""@, ""@))],
                        )
                    } else {
                        Ok(seq![])
                    },
                    None => Ok(seq![]),
                },
            },
        },
    }
}

fn creating_call_edits(t: &SyntaxTree, code: &str, v: &Vec<char>, call: usize) -> (r: Result<
    Vec<Edit>,
    InstrumentError,
>)
    requires
        ready(t, code, v),
        call < t@.len(),
    ensures
        plan_of(r) == creating_call_plan(t@, code@, call as int),
{
    match get_parent_of_kind(t, call, "declaration") {
        Some(d) => match get_var_name_from_decl(t, d) {
            None => Err(InstrumentError::MissingNode { node: d }),
            Some(x) => {
                let name = source_of(t, code, v, x);
                let hook = make_track_dst_stmt(
                    name.as_str(),
                    "nullptr",
                    ConstructKind::Creating,
                    t.node(d).row,
                    name.as_str(),
                    "",
                );
                Ok(one(Edit::new_insert(hook, t.node(d).end)))
            },
        },
        None => match get_parent_of_kind(t, call, "assignment_expression") {
            Some(a) => match get_var_name_from_assign(t, a) {
                None => Err(InstrumentError::MissingNode { node: a }),
                Some(x) => {
                    let name = source_of(t, code, v, x);
                    let mut hook = make_track_dst_stmt(
                        name.as_str(),
                        "nullptr",
                        ConstructKind::Creating,
                        t.node(a).row,
                        name.as_str(),
                        "",
                    );
                    hook.append(" }");
                    let node = t.node(a);
                    Ok(
                        two(
                            Edit::new_insert(String::from_str("{ "), node.start),
                            Edit::new_insert(hook, node.end + 1),
                        ),
                    )
                },
            },
            None => match get_parent_of_kind(t, call, "return_statement") {
                Some(r) => {
                    let mut text = String::from_str("{ auto *V = ");
                    text.append(source_of(t, code, v, call).as_str());
                    text.append(";");
                    text.append(
                        make_track_dst_stmt(
                            "V",
                            "nullptr",
                            ConstructKind::Creating,
                            t.node(call).row,
                            "",
                            "",
                        ).as_str(),
                    );
                    text.append(" return V; }");
                    Ok(one(Edit::new_replace(text, t.node(r).start, t.node(r).end)))
                },
                None => match t.node(call).parent {
                    Some(p) => if kind_is(t, p, "expression_statement") {
                        let mut text = String::from_str("Instruction *I = ");
                        text.append(source_of(t, code, v, call).as_str());
                        text.append(";");
                        text.append(
                            make_track_dst_call(
                                "I",
                                "nullptr",
                                ConstructKind::Creating,
                                t.node(call).row,
                                "",
                                "",
                            ).as_str(),
                        );
                        Ok(one(Edit::new_replace(text, t.node(call).start, t.node(call).end)))
                    } else {
                        Ok(none())
                    },
                    None => Ok(none()),
                },
            },
        },
    }
}

fn join(a: Vec<Edit>, b: Vec<Edit>) -> (r: Vec<Edit>)
    ensures
        views(r@) == views(a@) + views(b@),
{
    let mut a = a;
    let mut b = b;
    let ghost va = views(a@);
    let ghost vb = views(b@);
    a.append(&mut b);
    assert(views(a@) =~= va + vb);
    a
}

/// `""` when `op` is the text `->`, else `"&"`: the prefix that makes a
/// pointer of a receiver accessed through `op`.
pub open spec fn addr_unless_arrow(op: Seq<char>) -> Seq<char> {
    if op == "->"@ {
        ""@
    } else {
        "&"@
    }
}

/// `"&"` when `op` is the text `.`, else `""`.
pub open spec fn addr_if_dot(op: Seq<char>) -> Seq<char> {
    if op == "."@ {
        "&"@
    } else {
        ""@
    }
}

fn addr_unless_arrow_of(op: &String) -> (r: &'static str)
    ensures
        r@ == addr_unless_arrow(op@),
{
    if crate::ast::str_is(op, "->") {
        ""
    } else {
        "&"
    }
}

fn addr_if_dot_of(op: &String) -> (r: &'static str)
    ensures
        r@ == addr_if_dot(op@),
{
    if crate::ast::str_is(op, ".") {
        "&"
    } else {
        ""
    }
}

/// Cloning: the receiver is the original; record it with the bound name of
/// the enclosing declaration or assignment.
pub open spec fn cloning_plan(t: Seq<SyntaxNode>, code: Seq<char>, call: int, callee: int) -> Plan {
    match (field_child(t, callee, "argument"@), child_at(t, callee, 1)) {
        (Some(o), Some(op)) => {
            let orig = node_text(t, code, o as int);
            let src = addr_unless_arrow(node_text(t, code, op as int)) + orig;
            match nearest_ancestor(t, call, "declaration"@) {
                Some(d) => match var_from_decl(t, d as int) {
                    None => Err(InstrumentError::MissingNode { node: d }),
                    Some(x) => {
                        let name = node_text(t, code, x as int);
                        Ok(
                            seq![ins(t[d as int].end as nat, track_dst_stmt(name, src, ConstructKind::Cloning, t[d as int].row as nat, name, orig))],
                        )
                    },
                },
                None => match nearest_ancestor(t, call, "assignment_expression"@) {
                    Some(a) => match var_from_assign(t, a as int) {
                        None => Err(InstrumentError::MissingNode { node: a }),
                        Some(x) => {
                            let name = node_text(t, code, x as int);
                            Ok(
                                seq![ins(t[a as int].start as nat, "{ "@), ins((t[a as int].end + 1) as nat, track_dst_stmt(name, src, ConstructKind::Cloning, t[a as int].row as nat, name, orig) + " }"@)],
                            )
                        },
                    },
                    None => Err(InstrumentError::UnsupportedContext { node: call as usize }),
                },
            }
        },
        _ => Err(InstrumentError::MissingNode { node: callee as usize }),
    }
}

fn cloning_edits(t: &SyntaxTree, code: &str, v: &Vec<char>, call: usize, callee: usize) -> (r:
    Result<Vec<Edit>, InstrumentError>)
    requires
        ready(t, code, v),
        call < t@.len(),
        callee < t@.len(),
    ensures
        plan_of(r) == cloning_plan(t@, code@, call as int, callee as int),
{
    match (child_by_field_name(t, callee, "argument"), nth_child(t, callee, 1)) {
        (Some(o), Some(op)) => {
            let orig = source_of(t, code, v, o);
            let op_s = source_of(t, code, v, op);
            let mut src = String::from_str(addr_unless_arrow_of(&op_s));
            src.append(orig.as_str());
            match get_parent_of_kind(t, call, "declaration") {
                Some(d) => match get_var_name_from_decl(t, d) {
                    None => Err(InstrumentError::MissingNode { node: d }),
                    Some(x) => {
                        let name = source_of(t, code, v, x);
                        let hook = make_track_dst_stmt(
                            name.as_str(),
                            src.as_str(),
                            ConstructKind::Cloning,
                            t.node(d).row,
                            name.as_str(),
                            orig.as_str(),
                        );
                        Ok(one(Edit::new_insert(hook, t.node(d).end)))
                    },
                },
                None => match get_parent_of_kind(t, call, "assignment_expression") {
                    Some(a) => match get_var_name_from_assign(t, a) {
                        None => Err(InstrumentError::MissingNode { node: a }),
                        Some(x) => {
                            let name = source_of(t, code, v, x);
                            let mut hook = make_track_dst_stmt(
                                name.as_str(),
                                src.as_str(),
                                ConstructKind::Cloning,
                                t.node(a).row,
                                name.as_str(),
                                orig.as_str(),
                            );
                            hook.append(" }");
                            let node = t.node(a);
                            Ok(
                                two(
                                    Edit::new_insert(String::from_str("{ "), node.start),
                                    Edit::new_insert(hook, node.end + 1),
                                ),
                            )
                        },
                    },
                    None => Err(InstrumentError::UnsupportedContext { node: call }),
                },
            }
        },
        _ => Err(InstrumentError::MissingNode { node: callee }),
    }
}

/// Moving: wrap the call in a block that first records the moved value and
/// its destination (one argument: that argument; two: the address of the
/// first).
pub open spec fn moving_plan(t: Seq<SyntaxNode>, code: Seq<char>, call: int, callee: int, args: int) -> Plan {
    match field_child(t, callee, "argument"@) {
        None => Err(InstrumentError::MissingNode { node: callee as usize }),
        Some(dst) => {
            let n = num_children(t, args);
            if n != 3 && n != 5 {
                Err(InstrumentError::UnsupportedArity { node: call as usize })
            } else {
                match (child_at(t, args, 1), child_at(t, callee, 1)) {
                    (Some(a1), Some(op)) => {
                        let md = (if n == 3 {
                            ""@
                        } else {
                            "&"@
                        }) + node_text(t, code, a1 as int);
                        let d = node_text(t, code, dst as int);
                        let moved = addr_unless_arrow(node_text(t, code, op as int)) + d;
                        Ok(
                            seq![ins(t[call].start as nat, "{"@ + track_dst_stmt(moved, md, ConstructKind::Moving, t[call].row as nat, d, md) + " "@), ins((t[call].end + 1) as nat, " }"@)],
                        )
                    },
                    _ => Err(InstrumentError::MissingNode { node: call as usize }),
                }
            }
        },
    }
}

fn moving_edits(t: &SyntaxTree, code: &str, v: &Vec<char>, call: usize, callee: usize, args: usize) -> (r: Result<Vec<Edit>, InstrumentError>)
    requires
        ready(t, code, v),
        call < t@.len(),
        callee < t@.len(),
        args < t@.len(),
    ensures
        plan_of(r) == moving_plan(t@, code@, call as int, callee as int, args as int),
{
    match child_by_field_name(t, callee, "argument") {
        None => Err(InstrumentError::MissingNode { node: callee }),
        Some(dst) => {
            let n = children_count(t, args);
            if n != 3 && n != 5 {
                Err(InstrumentError::UnsupportedArity { node: call })
            } else {
                match (nth_child(t, args, 1), nth_child(t, callee, 1)) {
                    (Some(a1), Some(op)) => {
                        let mut md = String::from_str(
                            if n == 3 {
                                ""
                            } else {
                                "&"
                            },
                        );
                        md.append(source_of(t, code, v, a1).as_str());
                        let d = source_of(t, code, v, dst);
                        let op_s = source_of(t, code, v, op);
                        let mut moved = String::from_str(addr_unless_arrow_of(&op_s));
                        moved.append(d.as_str());
                        let mut head = String::from_str("{");
                        head.append(
                            make_track_dst_stmt(
                                moved.as_str(),
                                md.as_str(),
                                ConstructKind::Moving,
                                t.node(call).row,
                                d.as_str(),
                                md.as_str(),
                            ).as_str(),
                        );
                        head.append(" ");
                        let node = t.node(call);
                        Ok(
                            two(
                                Edit::new_insert(head, node.start),
                                Edit::new_insert(String::from_str(" }"), node.end + 1),
                            ),
                        )
                    },
                    _ => Err(InstrumentError::MissingNode { node: call }),
                }
            }
        },
    }
}

/// Replacement: rewrite the call into a block that names both values,
/// replays the replacement on them, then records it.
pub open spec fn replacement_plan(
    t: Seq<SyntaxNode>,
    code: Seq<char>,
    call: int,
    callee: int,
    args: int,
    name: Seq<char>,
) -> Plan {
    if name == "replaceAllUsesWith"@ {
        match (field_child(t, callee, "argument"@), child_at(t, args, 1), child_at(t, callee, 1)) {
            (Some(s), Some(d), Some(fo)) => {
                let ss = node_text(t, code, s as int);
                let ds = node_text(t, code, d as int);
                let text = "{ Value *DebugLocSrc = "@ + addr_if_dot(node_text(t, code, fo as int))
                    + ss + "; Value *DebugLocDst = "@ + ds
                    + "; DebugLocSrc->replaceAllUsesWith(DebugLocDst); "@ + track_src_stmt(
                    t[call].row as nat,
                    ds,
                    ss,
                ) + " }"@;
                Ok(seq![rep(t[call].start as nat, (t[call].end + 1) as usize, text)])
            },
            _ => Err(InstrumentError::MissingNode { node: call as usize }),
        }
    } else if name == "replaceUsesOfWith"@ {
        match t[call].parent {
            None => Err(InstrumentError::MissingNode { node: call as usize }),
            Some(p) => if !kind_of(t, p as int, "expression_statement"@) {
                Err(InstrumentError::UnsupportedContext { node: call as usize })
            } else {
                match (
                    field_child(t, callee, "argument"@),
                    child_at(t, args, 1),
                    child_at(t, args, 3),
                    child_at(t, callee, 1),
                ) {
                    (Some(obj), Some(o), Some(nw), Some(fo)) => {
                        let os = node_text(t, code, o as int);
                        let ns = node_text(t, code, nw as int);
                        let text = "{ Value *DebugLocSrc = "@ + os + "; Value *DebugLocDst = "@ + ns
                            + "; "@ + node_text(t, code, obj as int) + node_text(t, code, fo as int)
                            + "replaceUsesOfWith(DebugLocSrc, DebugLocDst); "@ + track_src_stmt(
                            t[call].row as nat,
                            os,
                            ns,
                        ) + " }"@;
                        Ok(seq![rep(t[call].start as nat, (t[call].end + 1) as usize, text)])
                    },
                    _ => Err(InstrumentError::MissingNode { node: call as usize }),
                }
            },
        }
    } else {
        Ok(seq![])
    }
}

fn replacement_edits(
    t: &SyntaxTree,
    code: &str,
    v: &Vec<char>,
    call: usize,
    callee: usize,
    args: usize,
    name: &String,
) -> (r: Result<Vec<Edit>, InstrumentError>)
    requires
        ready(t, code, v),
        call < t@.len(),
        callee < t@.len(),
        args < t@.len(),
    ensures
        plan_of(r) == replacement_plan(t@, code@, call as int, callee as int, args as int, name@),
{
    if crate::ast::str_is(name, "replaceAllUsesWith") {
        match (child_by_field_name(t, callee, "argument"), nth_child(t, args, 1), nth_child(t, callee, 1)) {
            (Some(s), Some(d), Some(fo)) => {
                let ss = source_of(t, code, v, s);
                let ds = source_of(t, code, v, d);
                let fo_s = source_of(t, code, v, fo);
                let mut text = String::from_str("{ Value *DebugLocSrc = ");
                text.append(addr_if_dot_of(&fo_s));
                text.append(ss.as_str());
                text.append("; Value *DebugLocDst = ");
                text.append(ds.as_str());
                text.append("; DebugLocSrc->replaceAllUsesWith(DebugLocDst); ");
                text.append(make_track_src_stmt(t.node(call).row, ds.as_str(), ss.as_str()).as_str());
                text.append(" }");
                Ok(one(Edit::new_replace(text, t.node(call).start, t.node(call).end + 1)))
            },
            _ => Err(InstrumentError::MissingNode { node: call }),
        }
    } else if crate::ast::str_is(name, "replaceUsesOfWith") {
        match t.node(call).parent {
            None => Err(InstrumentError::MissingNode { node: call }),
            Some(p) => if !kind_is(t, p, "expression_statement") {
                Err(InstrumentError::UnsupportedContext { node: call })
            } else {
                match (
                    child_by_field_name(t, callee, "argument"),
                    nth_child(t, args, 1),
                    nth_child(t, args, 3),
                    nth_child(t, callee, 1),
                ) {
                    (Some(obj), Some(o), Some(nw), Some(fo)) => {
                        let os = source_of(t, code, v, o);
                        let ns = source_of(t, code, v, nw);
                        let mut text = String::from_str("{ Value *DebugLocSrc = ");
                        text.append(os.as_str());
                        text.append("; Value *DebugLocDst = ");
                        text.append(ns.as_str());
                        text.append("; ");
                        text.append(source_of(t, code, v, obj).as_str());
                        text.append(source_of(t, code, v, fo).as_str());
                        text.append("replaceUsesOfWith(DebugLocSrc, DebugLocDst); ");
                        text.append(
                            make_track_src_stmt(t.node(call).row, os.as_str(), ns.as_str()).as_str(),
                        );
                        text.append(" }");
                        Ok(one(Edit::new_replace(text, t.node(call).start, t.node(call).end + 1)))
                    },
                    _ => Err(InstrumentError::MissingNode { node: call }),
                }
            },
        }
    } else {
        Ok(none())
    }
}

/// Where the debug location `l` comes from: the receiver `A` when `l` is
/// the accessor call `A->getDebugLoc()` (or `A.getDebugLoc()`), else
/// `nullptr`.
pub open spec fn location_origin(t: Seq<SyntaxNode>, code: Seq<char>, l: int) -> Seq<char> {
    match receiver_of_call(t, code, l, "getDebugLoc"@) {
        Some(a) => node_text(t, code, a as int),
        None => "nullptr"@,
    }
}

fn location_origin_of(t: &SyntaxTree, code: &str, v: &Vec<char>, l: usize) -> (r: String)
    requires
        ready(t, code, v),
        l < t@.len(),
    ensures
        r@ == location_origin(t@, code@, l as int),
{
    match get_ident_from_call(t, code, v, l, "getDebugLoc") {
        Some(a) => source_of(t, code, v, a),
        None => String::from_str("nullptr"),
    }
}

/// Debug-location updates: observe a preserved, merged or dropped location.
pub open spec fn debugloc_plan(
    t: Seq<SyntaxNode>,
    code: Seq<char>,
    call: int,
    callee: int,
    args: int,
    name: Seq<char>,
) -> Plan {
    match spec_debugloc_update(name) {
        None => Ok(seq![]),
        Some(kind) => match field_child(t, callee, "argument"@) {
            None => Err(InstrumentError::MissingNode { node: callee as usize }),
            Some(dst) => {
                let d = node_text(t, code, dst as int);
                match kind {
                    DLUpdateKind::Preserving => match child_at(t, args, 1) {
                        None => Err(InstrumentError::MissingNode { node: args as usize }),
                        Some(_) => Ok(
                            seq![ins(t[call].start as nat, "{ "@), ins((t[call].end + 1) as nat, preserving_tail(d, t[call].row as nat))],
                        ),
                    },
                    DLUpdateKind::Merging => match (child_at(t, args, 1), child_at(t, args, 3)) {
                        (Some(l1), Some(l2)) => Ok(
                            seq![ins((t[call].end + 1) as nat, merging_stmt(d, location_origin(t, code, l1 as int), location_origin(t, code, l2 as int), t[dst as int].row as nat))],
                        ),
                        _ => Err(InstrumentError::MissingNode { node: args as usize }),
                    },
                    DLUpdateKind::Dropping => match child_at(t, callee, 1) {
                        None => Err(InstrumentError::MissingNode { node: callee as usize }),
                        Some(op) => Ok(
                            seq![ins(t[call].start as nat, "{ "@), ins((t[call].end + 1) as nat, dropping_tail(addr_unless_arrow(node_text(t, code, op as int)), d, t[call].row as nat))],
                        ),
                    },
                }
            },
        },
    }
}

fn debugloc_edits(
    t: &SyntaxTree,
    code: &str,
    v: &Vec<char>,
    call: usize,
    callee: usize,
    args: usize,
    name: &String,
) -> (r: Result<Vec<Edit>, InstrumentError>)
    requires
        ready(t, code, v),
        call < t@.len(),
        callee < t@.len(),
        args < t@.len(),
    ensures
        plan_of(r) == debugloc_plan(t@, code@, call as int, callee as int, args as int, name@),
{
    match name.is_debugloc_update() {
        None => Ok(none()),
        Some(kind) => match child_by_field_name(t, callee, "argument") {
            None => Err(InstrumentError::MissingNode { node: callee }),
            Some(dst) => {
                let d = source_of(t, code, v, dst);
                let node = t.node(call);
                match kind {
                    DLUpdateKind::Preserving => match nth_child(t, args, 1) {
                        None => Err(InstrumentError::MissingNode { node: args }),
                        Some(_) => Ok(
                            two(
                                Edit::new_insert(String::from_str("{ "), node.start),
                                Edit::new_insert(make_preserving_tail(d.as_str(), node.row), node.end + 1),
                            ),
                        ),
                    },
                    DLUpdateKind::Merging => match (nth_child(t, args, 1), nth_child(t, args, 3)) {
                        (Some(l1), Some(l2)) => {
                            let s1 = location_origin_of(t, code, v, l1);
                            let s2 = location_origin_of(t, code, v, l2);
                            Ok(
                                one(
                                    Edit::new_insert(
                                        make_merging_stmt(
                                            d.as_str(),
                                            s1.as_str(),
                                            s2.as_str(),
                                            t.node(dst).row,
                                        ),
                                        node.end + 1,
                                    ),
                                ),
                            )
                        },
                        _ => Err(InstrumentError::MissingNode { node: args }),
                    },
                    DLUpdateKind::Dropping => match nth_child(t, callee, 1) {
                        None => Err(InstrumentError::MissingNode { node: callee }),
                        Some(op) => {
                            let op_s = source_of(t, code, v, op);
                            Ok(
                                two(
                                    Edit::new_insert(String::from_str("{ "), node.start),
                                    Edit::new_insert(
                                        make_dropping_tail(
                                            addr_unless_arrow_of(&op_s),
                                            d.as_str(),
                                            node.row,
                                        ),
                                        node.end + 1,
                                    ),
                                ),
                            )
                        },
                    },
                }
            },
        },
    }
}

/// The position text of an insertion accessor, by the argument count that
/// tells its overloads apart.
pub open spec fn insert_pos(t: Seq<SyntaxNode>, code: Seq<char>, call: int, args: int, name: Seq<char>) -> Result<
    Seq<char>,
    InstrumentError,
> {
    if name == "insertBefore"@ {
        let n = num_children(t, args);
        if n == 3 {
            match child_at(t, args, 1) {
                Some(it) => Ok("&*"@ + node_text(t, code, it as int)),
                None => Err(InstrumentError::MissingNode { node: args as usize }),
            }
        } else if n == 5 {
            match child_at(t, args, 3) {
                Some(bb) => Ok("&"@ + node_text(t, code, bb as int)),
                None => Err(InstrumentError::MissingNode { node: args as usize }),
            }
        } else {
            Err(InstrumentError::UnsupportedArity { node: call as usize })
        }
    } else {
        match child_at(t, args, 1) {
            Some(a) => Ok(node_text(t, code, a as int)),
            None => Err(InstrumentError::MissingNode { node: args as usize }),
        }
    }
}

/// Insertion: wrap a field call of an insertion accessor in a block that
/// first records the inserted value and where it goes.
pub open spec fn insertion_plan(
    t: Seq<SyntaxNode>,
    code: Seq<char>,
    call: int,
    callee: int,
    args: int,
    name: Seq<char>,
) -> Plan {
    if !kind_of(t, callee, "field_expression"@) || !(name == "insertBefore"@ || name
        == "insertAfter"@ || name == "insertInto"@) {
        Ok(seq![])
    } else {
        match insert_pos(t, code, call, args, name) {
            Err(e) => Err(e),
            Ok(pos) => match (field_child(t, callee, "argument"@), child_at(t, callee, 1)) {
                (Some(i), Some(fo)) => Ok(
                    seq![ins(t[call].start as nat, insertion_head(addr_if_dot(node_text(t, code, fo as int)), node_text(t, code, i as int), pos, t[call].row as nat)), ins((t[call].end + 1) as nat, " }"@)],
                ),
                _ => Err(InstrumentError::MissingNode { node: callee as usize }),
            },
        }
    }
}

fn insert_pos_text(t: &SyntaxTree, code: &str, v: &Vec<char>, call: usize, args: usize, name: &String) -> (r: Result<String, InstrumentError>)
    requires
        ready(t, code, v),
        call < t@.len(),
        args < t@.len(),
    ensures
        match r {
            Ok(s) => insert_pos(t@, code@, call as int, args as int, name@) == Ok::<
                Seq<char>,
                InstrumentError,
            >(s@),
            Err(e) => insert_pos(t@, code@, call as int, args as int, name@) == Err::<
                Seq<char>,
                InstrumentError,
            >(e),
        },
{
    if crate::ast::str_is(name, "insertBefore") {
        let n = children_count(t, args);
        if n == 3 {
            match nth_child(t, args, 1) {
                Some(it) => {
                    let mut s = String::from_str("&*");
                    s.append(source_of(t, code, v, it).as_str());
                    Ok(s)
                },
                None => Err(InstrumentError::MissingNode { node: args }),
            }
        } else if n == 5 {
            match nth_child(t, args, 3) {
                Some(bb) => {
                    let mut s = String::from_str("&");
                    s.append(source_of(t, code, v, bb).as_str());
                    Ok(s)
                },
                None => Err(InstrumentError::MissingNode { node: args }),
            }
        } else {
            Err(InstrumentError::UnsupportedArity { node: call })
        }
    } else {
        match nth_child(t, args, 1) {
            Some(a) => Ok(source_of(t, code, v, a)),
            None => Err(InstrumentError::MissingNode { node: args }),
        }
    }
}

fn insertion_edits(
    t: &SyntaxTree,
    code: &str,
    v: &Vec<char>,
    call: usize,
    callee: usize,
    args: usize,
    name: &String,
) -> (r: Result<Vec<Edit>, InstrumentError>)
    requires
        ready(t, code, v),
        call < t@.len(),
        callee < t@.len(),
        args < t@.len(),
    ensures
        plan_of(r) == insertion_plan(t@, code@, call as int, callee as int, args as int, name@),
{
    if !kind_is(t, callee, "field_expression") || !(crate::ast::str_is(name, "insertBefore")
        || crate::ast::str_is(name, "insertAfter") || crate::ast::str_is(name, "insertInto")) {
        return Ok(none());
    }
    match insert_pos_text(t, code, v, call, args, name) {
        Err(e) => Err(e),
        Ok(pos) => match (child_by_field_name(t, callee, "argument"), nth_child(t, callee, 1)) {
            (Some(i), Some(fo)) => {
                let fo_s = source_of(t, code, v, fo);
                let is = source_of(t, code, v, i);
                let node = t.node(call);
                Ok(
                    two(
                        Edit::new_insert(
                            make_insertion_head(addr_if_dot_of(&fo_s), is.as_str(), pos.as_str(), node.row),
                            node.start,
                        ),
                        Edit::new_insert(String::from_str(" }"), node.end + 1),
                    ),
                )
            },
            _ => Err(InstrumentError::MissingNode { node: callee }),
        },
    }
}

/// Construct actions: creating, cloning or moving a value.
pub open spec fn construct_plan(
    t: Seq<SyntaxNode>,
    code: Seq<char>,
    call: int,
    callee: int,
    args: int,
    name: Seq<char>,
) -> Plan {
    match spec_construct(name) {
        Some(ConstructKind::Creating) => creating_call_plan(t, code, call),
        Some(ConstructKind::Cloning) => cloning_plan(t, code, call, callee),
        Some(ConstructKind::Moving) => moving_plan(t, code, call, callee, args),
        None => Ok(seq![]),
    }
}

/// Every rule on a call whose callee is named `name`, in turn.
pub open spec fn named_call_plan(
    t: Seq<SyntaxNode>,
    code: Seq<char>,
    call: int,
    callee: int,
    args: int,
    name: Seq<char>,
) -> Plan {
    then(
        then(
            then(
                construct_plan(t, code, call, callee, args, name),
                replacement_plan(t, code, call, callee, args, name),
            ),
            debugloc_plan(t, code, call, callee, args, name),
        ),
        insertion_plan(t, code, call, callee, args, name),
    )
}

/// The call-site rule: a field call is known by its method name, a
/// qualified call by its whole qualified name, other calls are passed over.
#[verifier::opaque]
pub open spec fn call_plan(t: Seq<SyntaxNode>, code: Seq<char>, call: int) -> Plan {
    match (field_child(t, call, "function"@), field_child(t, call, "arguments"@)) {
        (Some(f), Some(args)) => if kind_of(t, f as int, "field_expression"@) {
            match field_child(t, f as int, "field"@) {
                None => Err(InstrumentError::MissingNode { node: f }),
                Some(m) => named_call_plan(t, code, call, f as int, args as int, node_text(t, code, m as int)),
            }
        } else if kind_of(t, f as int, "qualified_identifier"@) {
            named_call_plan(t, code, call, f as int, args as int, node_text(t, code, f as int))
        } else {
            Ok(seq![])
        },
        _ => Err(InstrumentError::MissingNode { node: call as usize }),
    }
}

fn then_edits(a: Result<Vec<Edit>, InstrumentError>, b: Result<Vec<Edit>, InstrumentError>) -> (r: Result<Vec<Edit>, InstrumentError>)
    ensures
        plan_of(r) == then(plan_of(a), plan_of(b)),
{
    match a {
        Err(e) => Err(e),
        Ok(x) => match b {
            Err(e) => Err(e),
            Ok(y) => Ok(join(x, y)),
        },
    }
}

fn named_call_edits(
    t: &SyntaxTree,
    code: &str,
    v: &Vec<char>,
    call: usize,
    callee: usize,
    args: usize,
    name: &String,
) -> (r: Result<Vec<Edit>, InstrumentError>)
    requires
        ready(t, code, v),
        call < t@.len(),
        callee < t@.len(),
        args < t@.len(),
    ensures
        plan_of(r) == named_call_plan(t@, code@, call as int, callee as int, args as int, name@),
{
    let c = match name.is_construct() {
        Some(ConstructKind::Creating) => creating_call_edits(t, code, v, call),
        Some(ConstructKind::Cloning) => cloning_edits(t, code, v, call, callee),
        Some(ConstructKind::Moving) => moving_edits(t, code, v, call, callee, args),
        None => Ok(none()),
    };
    if c.is_err() {
        return c;
    }
    let c = then_edits(c, replacement_edits(t, code, v, call, callee, args, name));
    if c.is_err() {
        return c;
    }
    let c = then_edits(c, debugloc_edits(t, code, v, call, callee, args, name));
    if c.is_err() {
        return c;
    }
    then_edits(c, insertion_edits(t, code, v, call, callee, args, name))
}

/// The edits of the call-site rule for `call`.
fn call_edits(t: &SyntaxTree, code: &str, v: &Vec<char>, call: usize) -> (r: Result<Vec<Edit>, InstrumentError>)
    requires
        ready(t, code, v),
        call < t@.len(),
    ensures
        plan_of(r) == call_plan(t@, code@, call as int),
{
    reveal(call_plan);
    match (child_by_field_name(t, call, "function"), child_by_field_name(t, call, "arguments")) {
        (Some(f), Some(args)) => if kind_is(t, f, "field_expression") {
            match child_by_field_name(t, f, "field") {
                None => Err(InstrumentError::MissingNode { node: f }),
                Some(m) => {
                    let name = source_of(t, code, v, m);
                    named_call_edits(t, code, v, call, f, args, &name)
                },
            }
        } else if kind_is(t, f, "qualified_identifier") {
            let name = source_of(t, code, v, f);
            named_call_edits(t, code, v, call, f, args, &name)
        } else {
            Ok(none())
        },
        _ => Err(InstrumentError::MissingNode { node: call }),
    }
}

/// Edits and warnings a rule derives, or why it cannot.
pub type Findings = Result<(Seq<EditView>, Seq<Warning>), InstrumentError>;

pub open spec fn findings_of(r: Result<(Vec<Edit>, Vec<Warning>), InstrumentError>) -> Findings {
    match r {
        Ok((e, w)) => Ok((views(e@), w@)),
        Err(x) => Err(x),
    }
}

/// Creating, by constructing a value of a known IR type: as for a creating
/// call, but a returned value is captured before the return, and any other
/// place is reported and left alone.
#[verifier::opaque]
pub open spec fn new_plan(t: Seq<SyntaxNode>, code: Seq<char>, new: int) -> Findings {
    match field_child(t, new, "type"@) {
        None => Err(InstrumentError::MissingNode { node: new as usize }),
        Some(ty) => if spec_construct(node_text(t, code, ty as int)) != Some(ConstructKind::Creating) {
            Ok((seq![], seq![]))
        } else {
            let row = t[new].row as nat;
            match nearest_ancestor(t, new, "declaration"@) {
                Some(d) => match var_from_decl(t, d as int) {
                    None => Err(InstrumentError::MissingNode { node: d }),
                    Some(x) => {
                        let name = node_text(t, code, x as int);
                        Ok(
                            (
                                seq![ins(t[d as int].end as nat, track_dst_stmt(name, "nullptr"@, ConstructKind::Creating, row, name, ""@))],
                                seq![],
                            ),
                        )
                    },
                },
                None => match nearest_ancestor(t, new, "assignment_expression"@) {
                    Some(a) => match var_from_assign(t, a as int) {
                        None => Err(InstrumentError::MissingNode { node: a }),
                        Some(x) => {
                            let name = node_text(t, code, x as int);
                            Ok(
                                (
                                    seq![ins(t[a as int].start as nat, "{ "@), ins((t[a as int].end + 1) as nat, track_dst_stmt(name, "nullptr"@, ConstructKind::Creating, row, name, ""@) + " }"@)],
                                    seq![],
                                ),
                            )
                        },
                    },
                    None => match nearest_ancestor(t, new, "return_statement"@) {
                        Some(r) => Ok(
                            (
                                seq![
                                    ins(t[r as int].start as nat, "{ Value *V = "@ + node_text(t, code, new) + ";"@ + track_dst_stmt("V"@, "nullptr"@, ConstructKind::Creating, row, ""@, ""@) + " "@),
                                    rep(t[new].start as nat, t[new].end, "V"@),
                                    ins(t[r as int].end as nat, " }"@),
                                ],
                                seq![],
                            ),
                        ),
                        None => Ok((seq![], seq![Warning::UnsupportedNew { node: new as usize }])),
                    },
                },
            }
        },
    }
}

fn no_warnings() -> (r: Vec<Warning>)
    ensures
        r@ == Seq::<Warning>::empty(),
{
    Vec::new()
}

fn new_findings(t: &SyntaxTree, code: &str, v: &Vec<char>, new: usize) -> (r: Result<
    (Vec<Edit>, Vec<Warning>),
    InstrumentError,
>)
    requires
        ready(t, code, v),
        new < t@.len(),
    ensures
        findings_of(r) == new_plan(t@, code@, new as int),
{
    reveal(new_plan);
    match child_by_field_name(t, new, "type") {
        None => Err(InstrumentError::MissingNode { node: new }),
        Some(ty) => {
            let ty_s = source_of(t, code, v, ty);
            match ty_s.is_construct() {
                Some(ConstructKind::Creating) => {},
                _ => {
                    return Ok((none(), no_warnings()));
                },
            }
            let row = t.node(new).row;
            match get_parent_of_kind(t, new, "declaration") {
                Some(d) => match get_var_name_from_decl(t, d) {
                    None => Err(InstrumentError::MissingNode { node: d }),
                    Some(x) => {
                        let name = source_of(t, code, v, x);
                        let hook = make_track_dst_stmt(
                            name.as_str(),
                            "nullptr",
                            ConstructKind::Creating,
                            row,
                            name.as_str(),
                            "",
                        );
                        Ok((one(Edit::new_insert(hook, t.node(d).end)), no_warnings()))
                    },
                },
                None => match get_parent_of_kind(t, new, "assignment_expression") {
                    Some(a) => match get_var_name_from_assign(t, a) {
                        None => Err(InstrumentError::MissingNode { node: a }),
                        Some(x) => {
                            let name = source_of(t, code, v, x);
                            let mut hook = make_track_dst_stmt(
                                name.as_str(),
                                "nullptr",
                                ConstructKind::Creating,
                                row,
                                name.as_str(),
                                "",
                            );
                            hook.append(" }");
                            let node = t.node(a);
                            Ok(
                                (
                                    two(
                                        Edit::new_insert(String::from_str("{ "), node.start),
                                        Edit::new_insert(hook, node.end + 1),
                                    ),
                                    no_warnings(),
                                ),
                            )
                        },
                    },
                    None => match get_parent_of_kind(t, new, "return_statement") {
                        Some(r) => {
                            let mut head = String::from_str("{ Value *V = ");
                            head.append(source_of(t, code, v, new).as_str());
                            head.append(";");
                            head.append(
                                make_track_dst_stmt(
                                    "V",
                                    "nullptr",
                                    ConstructKind::Creating,
                                    row,
                                    "",
                                    "",
                                ).as_str(),
                            );
                            head.append(" ");
                            let rn = t.node(r);
                            let nn = t.node(new);
                            Ok(
                                (
                                    three(
                                        Edit::new_insert(head, rn.start),
                                        Edit::new_replace(String::from_str("V"), nn.start, nn.end),
                                        Edit::new_insert(String::from_str(" }"), rn.end),
                                    ),
                                    no_warnings(),
                                ),
                            )
                        },
                        None => {
                            let mut w: Vec<Warning> = Vec::new();
                            w.push(Warning::UnsupportedNew { node: new });
                            assert(w@ =~= seq![Warning::UnsupportedNew { node: new }]);
                            Ok((none(), w))
                        },
                    },
                },
            }
        },
    }
}

/// The returns of an entry point, each wrapped to run the final check and
/// destroy the checker first.
pub open spec fn returns_plan(t: Seq<SyntaxNode>, rs: Seq<usize>) -> Seq<EditView>
    decreases rs.len(),
{
    if rs.len() == 0 {
        seq![]
    } else {
        let r = rs.last() as int;
        returns_plan(t, rs.drop_last()) + seq![ins(t[r].start as nat, return_head()), ins(t[r].end as nat, " }"@)]
    }
}

/// Whether `s` names a unit a pass runs on.
pub open spec fn is_pass_target_type(s: Seq<char>) -> bool {
    s == "Function"@ || s == "Loop"@ || s == "LoopNest"@
}

/// The entry/exit rule: construct the checker for the entry point's first
/// parameter as the body's first statement, and wrap every return. `None`
/// when that parameter's type is of no known unit.
pub open spec fn entry_plan(t: Seq<SyntaxNode>, code: Seq<char>, f: int, file: Seq<char>) -> Result<
    Option<Seq<EditView>>,
    InstrumentError,
> {
    match field_child(t, f, "declarator"@) {
        None => Err(InstrumentError::MissingNode { node: f as usize }),
        Some(d) => match field_child(t, d as int, "parameters"@) {
            None => Err(InstrumentError::MissingNode { node: d }),
            Some(pl) => {
                let ps = descendants_of_kind(t, pl as int, "parameter_declaration"@);
                if ps.len() == 0 {
                    Err(InstrumentError::NoPassParameter { node: f as usize })
                } else {
                    let p0 = ps[0];
                    match field_child(t, p0 as int, "type"@) {
                        None => Err(InstrumentError::MissingNode { node: p0 }),
                        Some(ty) => if !is_pass_target_type(node_text(t, code, ty as int)) {
                            Ok(None)
                        } else {
                            match field_child(t, p0 as int, "declarator"@) {
                                None => Err(InstrumentError::MissingNode { node: p0 }),
                                Some(pd) => match child_at(t, pd as int, 1) {
                                    None => Err(InstrumentError::MissingNode { node: pd }),
                                    Some(tg) => match field_child(t, f, "body"@) {
                                        None => Err(InstrumentError::MissingNode { node: f as usize }),
                                        Some(b) => match child_at(t, b as int, 1) {
                                            None => Err(InstrumentError::MissingNode { node: b }),
                                            Some(first) => Ok(
                                                Some(
                                                    seq![ins(t[first as int].start as nat, checker_init(node_text(t, code, tg as int), file))]
                                                        + returns_plan(
                                                        t,
                                                        descendants_of_kind(t, b as int, "return_statement"@),
                                                    ),
                                                ),
                                            ),
                                        },
                                    },
                                },
                            }
                        },
                    }
                }
            },
        },
    }
}

/// The call-site rule over the calls `cs`, in order.
pub open spec fn calls_plan(t: Seq<SyntaxNode>, code: Seq<char>, cs: Seq<usize>) -> Plan
    decreases cs.len(),
{
    if cs.len() == 0 {
        Ok(seq![])
    } else {
        then(calls_plan(t, code, cs.drop_last()), call_plan(t, code, cs.last() as int))
    }
}

/// `a` followed by `b`, edits and warnings alike; the first error wins.
pub open spec fn then_findings(a: Findings, b: Findings) -> Findings {
    match a {
        Err(e) => Err(e),
        Ok((x, w)) => match b {
            Err(e) => Err(e),
            Ok((y, u)) => Ok((x + y, w + u)),
        },
    }
}

/// The construction rule over the constructions `ns`, in order.
pub open spec fn news_plan(t: Seq<SyntaxNode>, code: Seq<char>, ns: Seq<usize>) -> Findings
    decreases ns.len(),
{
    if ns.len() == 0 {
        Ok((seq![], seq![]))
    } else {
        then_findings(news_plan(t, code, ns.drop_last()), new_plan(t, code, ns.last() as int))
    }
}

/// One function definition: an entry point gets the entry/exit rule, any
/// other function the call-site rule and then the construction rule.
#[verifier::opaque]
pub open spec fn fn_def_plan(t: Seq<SyntaxNode>, code: Seq<char>, f: int, file: Seq<char>) -> Findings {
    if descendants_of_kind(t, f, "function_declarator"@).len() == 0 {
        Ok((seq![], seq![Warning::NoDeclarator { node: f as usize }]))
    } else {
        match fn_identifier(t, f) {
            None => Err(InstrumentError::MissingNode { node: f as usize }),
            Some(id) => if spec_pass_entry(node_text(t, code, id as int)) {
                match entry_plan(t, code, f, file) {
                    Err(e) => Err(e),
                    Ok(None) => Ok((seq![], seq![Warning::UnknownPassTarget { node: f as usize }])),
                    Ok(Some(es)) => Ok((es, seq![])),
                }
            } else {
                then_findings(
                    match calls_plan(t, code, descendants_of_kind(t, f, "call_expression"@)) {
                        Err(e) => Err(e),
                        Ok(es) => Ok((es, seq![])),
                    },
                    news_plan(t, code, descendants_of_kind(t, f, "new_expression"@)),
                )
            },
        }
    }
}

/// The function definitions `fs`, in order.
pub open spec fn fn_defs_plan(t: Seq<SyntaxNode>, code: Seq<char>, fs: Seq<usize>, file: Seq<char>) -> Findings
    decreases fs.len(),
{
    if fs.len() == 0 {
        Ok((seq![], seq![]))
    } else {
        then_findings(fn_defs_plan(t, code, fs.drop_last(), file), fn_def_plan(t, code, fs.last() as int, file))
    }
}

/// The first of two lists of nodes in index order: the smaller of their first elements.
pub open spec fn first_of(a: Seq<usize>, b: Seq<usize>) -> Option<usize> {
    if a.len() == 0 && b.len() == 0 {
        None
    } else if a.len() == 0 {
        Some(b[0])
    } else if b.len() == 0 || a[0] <= b[0] {
        Some(a[0])
    } else {
        Some(b[0])
    }
}

/// The file's first using- or alias-declaration.
pub open spec fn first_using(t: Seq<SyntaxNode>) -> Option<usize> {
    first_of(
        descendants_of_kind(t, 0, "using_declaration"@),
        descendants_of_kind(t, 0, "alias_declaration"@),
    )
}

fn first_of_exec(a: &Vec<usize>, b: &Vec<usize>) -> (r: Option<usize>)
    ensures
        r == first_of(a@, b@),
{
    if a.len() == 0 && b.len() == 0 {
        None
    } else if a.len() == 0 {
        Some(b[0])
    } else if b.len() == 0 || a[0] <= b[0] {
        Some(a[0])
    } else {
        Some(b[0])
    }
}

/// The whole file: the hook header before the first include, the checker
/// handle after the first using- or alias-declaration, then every function
/// definition.
pub open spec fn file_plan(t: Seq<SyntaxNode>, code: Seq<char>, file: Seq<char>) -> Findings {
    let incs = descendants_of_kind(t, 0, "preproc_include"@);
    if incs.len() == 0 {
        Err(InstrumentError::NoHeaderInclude)
    } else if first_using(t) is None {
        Err(InstrumentError::NoUsingDeclaration)
    } else {
        then_findings(
            Ok(
                (
                    seq![ins(t[incs[0] as int].start as nat, header_include_text()), ins((t[first_using(t)->Some_0 as int].end + 1) as nat, global_var_decl_text())],
                    seq![],
                ),
            ),
            fn_defs_plan(t, code, descendants_of_kind(t, 0, "function_definition"@), file),
        )
    }
}

/// Once a prefix of the calls fails, the whole run fails the same way.
proof fn lemma_calls_err(t: Seq<SyntaxNode>, code: Seq<char>, cs: Seq<usize>, k: int)
    requires
        0 <= k <= cs.len(),
        calls_plan(t, code, cs.take(k)) is Err,
    ensures
        calls_plan(t, code, cs) == calls_plan(t, code, cs.take(k)),
    decreases cs.len() - k,
{
    if k < cs.len() {
        assert(cs.take(k + 1).drop_last() =~= cs.take(k));
        lemma_calls_err(t, code, cs, k + 1);
    } else {
        assert(cs.take(k) =~= cs);
    }
}

/// Once a prefix of the constructions fails, the whole run fails the same way.
proof fn lemma_news_err(t: Seq<SyntaxNode>, code: Seq<char>, ns: Seq<usize>, k: int)
    requires
        0 <= k <= ns.len(),
        news_plan(t, code, ns.take(k)) is Err,
    ensures
        news_plan(t, code, ns) == news_plan(t, code, ns.take(k)),
    decreases ns.len() - k,
{
    if k < ns.len() {
        assert(ns.take(k + 1).drop_last() =~= ns.take(k));
        lemma_news_err(t, code, ns, k + 1);
    } else {
        assert(ns.take(k) =~= ns);
    }
}

/// Once a prefix of the definitions fails, the whole run fails the same way.
proof fn lemma_fn_defs_err(t: Seq<SyntaxNode>, code: Seq<char>, fs: Seq<usize>, file: Seq<char>, k: int)
    requires
        0 <= k <= fs.len(),
        fn_defs_plan(t, code, fs.take(k), file) is Err,
    ensures
        fn_defs_plan(t, code, fs, file) == fn_defs_plan(t, code, fs.take(k), file),
    decreases fs.len() - k,
{
    if k < fs.len() {
        assert(fs.take(k + 1).drop_last() =~= fs.take(k));
        lemma_fn_defs_err(t, code, fs, file, k + 1);
    } else {
        assert(fs.take(k) =~= fs);
    }
}

fn join_warnings(a: Vec<Warning>, b: Vec<Warning>) -> (r: Vec<Warning>)
    ensures
        r@ == a@ + b@,
{
    let mut a = a;
    let mut b = b;
    a.append(&mut b);
    a
}

fn then_findings_exec(
    a: Result<(Vec<Edit>, Vec<Warning>), InstrumentError>,
    b: Result<(Vec<Edit>, Vec<Warning>), InstrumentError>,
) -> (r: Result<(Vec<Edit>, Vec<Warning>), InstrumentError>)
    ensures
        findings_of(r) == then_findings(findings_of(a), findings_of(b)),
{
    match a {
        Err(e) => Err(e),
        Ok((x, w)) => match b {
            Err(e) => Err(e),
            Ok((y, u)) => Ok((join(x, y), join_warnings(w, u))),
        },
    }
}

/// Collects the instrumentation edits of one file and applies them.
pub struct Instrumenter {
    edits: EditSet,
    warnings: Vec<Warning>,
    instr_file_name: String,
}

impl Instrumenter {
    /// The edits collected so far, in the order they were first offered.
    pub closed spec fn pending(&self) -> Seq<EditView> {
        self.edits@
    }

    /// The shapes reported so far.
    pub closed spec fn reported(&self) -> Seq<Warning> {
        self.warnings@
    }

    /// The file name the checker is constructed with.
    pub closed spec fn file_name(&self) -> Seq<char> {
        self.instr_file_name@
    }

    pub fn new(instr_file_name: String) -> (r: Instrumenter)
        ensures
            r.pending() == Seq::<EditView>::empty(),
            r.reported() == Seq::<Warning>::empty(),
            r.file_name() == instr_file_name@,
    {
        Instrumenter { edits: EditSet::new(), warnings: Vec::new(), instr_file_name }
    }

    /// The shapes reported so far.
    pub fn warnings(&self) -> (r: &Vec<Warning>)
        ensures
            r@ == self.reported(),
    {
        &self.warnings
    }

    fn collect_init_and_clean_up_edit(&self, t: &SyntaxTree, code: &str, v: &Vec<char>, f: usize) -> (r: Result<Option<Vec<Edit>>, InstrumentError>)
        requires
            ready(t, code, v),
            f < t@.len(),
        ensures
            match r {
                Ok(Some(es)) => entry_plan(t@, code@, f as int, self.file_name()) == Ok::<
                    Option<Seq<EditView>>,
                    InstrumentError,
                >(Some(views(es@))),
                Ok(None) => entry_plan(t@, code@, f as int, self.file_name()) == Ok::<
                    Option<Seq<EditView>>,
                    InstrumentError,
                >(None),
                Err(e) => entry_plan(t@, code@, f as int, self.file_name()) == Err::<
                    Option<Seq<EditView>>,
                    InstrumentError,
                >(e),
            },
    {
        let d = match child_by_field_name(t, f, "declarator") {
            None => {
                return Err(InstrumentError::MissingNode { node: f });
            },
            Some(d) => d,
        };
        let pl = match child_by_field_name(t, d, "parameters") {
            None => {
                return Err(InstrumentError::MissingNode { node: d });
            },
            Some(pl) => pl,
        };
        let ps = get_children_of_kind(t, pl, "parameter_declaration");
        if ps.len() == 0 {
            return Err(InstrumentError::NoPassParameter { node: f });
        }
        proof {
            lemma_descendants_in_tree(t@, pl as int, "parameter_declaration"@, t@.len() as int);
        }
        let p0 = ps[0];
        let ty = match child_by_field_name(t, p0, "type") {
            None => {
                return Err(InstrumentError::MissingNode { node: p0 });
            },
            Some(ty) => ty,
        };
        let ty_s = source_of(t, code, v, ty);
        if !(crate::ast::str_is(&ty_s, "Function") || crate::ast::str_is(&ty_s, "Loop")
            || crate::ast::str_is(&ty_s, "LoopNest")) {
            return Ok(None);
        }
        let pd = match child_by_field_name(t, p0, "declarator") {
            None => {
                return Err(InstrumentError::MissingNode { node: p0 });
            },
            Some(pd) => pd,
        };
        let tg = match nth_child(t, pd, 1) {
            None => {
                return Err(InstrumentError::MissingNode { node: pd });
            },
            Some(tg) => tg,
        };
        let b = match child_by_field_name(t, f, "body") {
            None => {
                return Err(InstrumentError::MissingNode { node: f });
            },
            Some(b) => b,
        };
        let first = match nth_child(t, b, 1) {
            None => {
                return Err(InstrumentError::MissingNode { node: b });
            },
            Some(first) => first,
        };
        let init = make_checker_init(source_of(t, code, v, tg).as_str(), self.instr_file_name.as_str());
        let mut out = one(Edit::new_insert(init, t.node(first).start));
        let rs = get_children_of_kind(t, b, "return_statement");
        proof {
            lemma_descendants_in_tree(t@, b as int, "return_statement"@, t@.len() as int);
        }
        let ghost head = views(out@);
        let mut i: usize = 0;
        assert(rs@.take(0) =~= Seq::<usize>::empty());
        while i < rs.len()
            invariant
                ready(t, code, v),
                i <= rs@.len(),
                forall|j: int| 0 <= j < rs@.len() ==> #[trigger] rs@[j] < t@.len(),
                views(out@) == head + returns_plan(t@, rs@.take(i as int)),
            decreases rs.len() - i,
        {
            let r = rs[i];
            let node = t.node(r);
            let h = String::from_str("{ RC->startCheck(); delete RC; ");
            proof {
                assert(rs@.take(i + 1).drop_last() =~= rs@.take(i as int));
                assert(rs@.take(i + 1).last() == r);
            }
            out = join(
                out,
                two(Edit::new_insert(h, node.start), Edit::new_insert(String::from_str(" }"), node.end)),
            );
            i = i + 1;
        }
        assert(rs@.take(i as int) =~= rs@);
        Ok(Some(out))
    }

    fn visit_fn_calls(&self, t: &SyntaxTree, code: &str, v: &Vec<char>, nodes: &Vec<usize>) -> (r: Result<Vec<Edit>, InstrumentError>)
        requires
            ready(t, code, v),
            forall|j: int| 0 <= j < nodes@.len() ==> #[trigger] nodes@[j] < t@.len(),
        ensures
            plan_of(r) == calls_plan(t@, code@, nodes@),
    {
        let mut out = none();
        let mut i: usize = 0;
        assert(nodes@.take(0) =~= Seq::<usize>::empty());
        while i < nodes.len()
            invariant
                ready(t, code, v),
                i <= nodes@.len(),
                forall|j: int| 0 <= j < nodes@.len() ==> #[trigger] nodes@[j] < t@.len(),
                calls_plan(t@, code@, nodes@.take(i as int)) == Ok::<Seq<EditView>, InstrumentError>(views(out@)),
            decreases nodes.len() - i,
        {
            proof {
                assert(nodes@.take(i + 1).drop_last() =~= nodes@.take(i as int));
                assert(nodes@.take(i + 1).last() == nodes@[i as int]);
            }
            match call_edits(t, code, v, nodes[i]) {
                Err(e) => {
                    proof {
                        lemma_calls_err(t@, code@, nodes@, i + 1);
                    }
                    return Err(e);
                },
                Ok(es) => {
                    out = join(out, es);
                },
            }
            i = i + 1;
        }
        assert(nodes@.take(i as int) =~= nodes@);
        Ok(out)
    }

    fn visit_new_exprs(&self, t: &SyntaxTree, code: &str, v: &Vec<char>, nodes: &Vec<usize>) -> (r: Result<(Vec<Edit>, Vec<Warning>), InstrumentError>)
        requires
            ready(t, code, v),
            forall|j: int| 0 <= j < nodes@.len() ==> #[trigger] nodes@[j] < t@.len(),
        ensures
            findings_of(r) == news_plan(t@, code@, nodes@),
    {
        let mut acc: Result<(Vec<Edit>, Vec<Warning>), InstrumentError> = Ok((none(), no_warnings()));
        let mut i: usize = 0;
        assert(nodes@.take(0) =~= Seq::<usize>::empty());
        while i < nodes.len()
            invariant
                ready(t, code, v),
                i <= nodes@.len(),
                forall|j: int| 0 <= j < nodes@.len() ==> #[trigger] nodes@[j] < t@.len(),
                findings_of(acc) == news_plan(t@, code@, nodes@.take(i as int)),
                acc is Ok,
            decreases nodes.len() - i,
        {
            proof {
                assert(nodes@.take(i + 1).drop_last() =~= nodes@.take(i as int));
                assert(nodes@.take(i + 1).last() == nodes@[i as int]);
            }
            let next = then_findings_exec(acc, new_findings(t, code, v, nodes[i]));
            if next.is_err() {
                proof {
                    lemma_news_err(t@, code@, nodes@, i + 1);
                }
                return next;
            }
            acc = next;
            i = i + 1;
        }
        assert(nodes@.take(i as int) =~= nodes@);
        acc
    }

    fn visit_fn_def(&self, t: &SyntaxTree, code: &str, v: &Vec<char>, f: usize) -> (r: Result<(Vec<Edit>, Vec<Warning>), InstrumentError>)
        requires
            ready(t, code, v),
            f < t@.len(),
        ensures
            findings_of(r) == fn_def_plan(t@, code@, f as int, self.file_name()),
    {
        reveal(fn_def_plan);
        if get_children_of_kind(t, f, "function_declarator").len() == 0 {
            let mut w: Vec<Warning> = Vec::new();
            w.push(Warning::NoDeclarator { node: f });
            assert(w@ =~= seq![Warning::NoDeclarator { node: f }]);
            return Ok((none(), w));
        }
        match get_fn_identifier(t, f) {
            None => Err(InstrumentError::MissingNode { node: f }),
            Some(id) => {
                let name = source_of(t, code, v, id);
                if name.is_pass_entry() {
                    match self.collect_init_and_clean_up_edit(t, code, v, f) {
                        Err(e) => Err(e),
                        Ok(None) => {
                            let mut w: Vec<Warning> = Vec::new();
                            w.push(Warning::UnknownPassTarget { node: f });
                            assert(w@ =~= seq![Warning::UnknownPassTarget { node: f }]);
                            Ok((none(), w))
                        },
                        Ok(Some(es)) => Ok((es, no_warnings())),
                    }
                } else {
                    let calls = get_children_of_kind(t, f, "call_expression");
                    proof {
                        lemma_descendants_in_tree(t@, f as int, "call_expression"@, t@.len() as int);
                    }
                    let first = match self.visit_fn_calls(t, code, v, &calls) {
                        Err(e) => Err(e),
                        Ok(es) => Ok((es, no_warnings())),
                    };
                    if first.is_err() {
                        return first;
                    }
                    let news = get_children_of_kind(t, f, "new_expression");
                    proof {
                        lemma_descendants_in_tree(t@, f as int, "new_expression"@, t@.len() as int);
                    }
                    then_findings_exec(first, self.visit_new_exprs(t, code, v, &news))
                }
            },
        }
    }

    fn visit_fn_defs(&self, t: &SyntaxTree, code: &str, v: &Vec<char>, nodes: &Vec<usize>) -> (r: Result<(Vec<Edit>, Vec<Warning>), InstrumentError>)
        requires
            ready(t, code, v),
            forall|j: int| 0 <= j < nodes@.len() ==> #[trigger] nodes@[j] < t@.len(),
        ensures
            findings_of(r) == fn_defs_plan(t@, code@, nodes@, self.file_name()),
    {
        let mut acc: Result<(Vec<Edit>, Vec<Warning>), InstrumentError> = Ok((none(), no_warnings()));
        let mut i: usize = 0;
        assert(nodes@.take(0) =~= Seq::<usize>::empty());
        while i < nodes.len()
            invariant
                ready(t, code, v),
                i <= nodes@.len(),
                forall|j: int| 0 <= j < nodes@.len() ==> #[trigger] nodes@[j] < t@.len(),
                findings_of(acc) == fn_defs_plan(t@, code@, nodes@.take(i as int), self.file_name()),
                acc is Ok,
            decreases nodes.len() - i,
        {
            proof {
                assert(nodes@.take(i + 1).drop_last() =~= nodes@.take(i as int));
                assert(nodes@.take(i + 1).last() == nodes@[i as int]);
            }
            let next = then_findings_exec(acc, self.visit_fn_def(t, code, v, nodes[i]));
            if next.is_err() {
                proof {
                    lemma_fn_defs_err(t@, code@, nodes@, self.file_name(), i + 1);
                }
                return next;
            }
            acc = next;
            i = i + 1;
        }
        assert(nodes@.take(i as int) =~= nodes@);
        acc
    }
}

/// What instrumenting `buf` with the tree `t` gives, starting from the
/// pending edits `pending`: the new text, the edits then pending, and the
/// shapes reported.
pub open spec fn instrument_result(t: &SyntaxTree, buf: Seq<char>, pending: Seq<EditView>, file: Seq<char>) -> Result<
    (Seq<char>, Seq<EditView>, Seq<Warning>),
    InstrumentError,
> {
    if !(t.wf() && t.fits(buf.len()) && buf.len() < usize::MAX) {
        Err(InstrumentError::TreeMismatch)
    } else {
        match file_plan(t@, buf, file) {
            Err(e) => Err(e),
            Ok((es, ws)) => {
                let p = add_edits(pending, es);
                match apply_edits(buf, p) {
                    None => Err(InstrumentError::ConflictingEdits),
                    Some(out) => Ok((out, p, ws)),
                }
            },
        }
    }
}

impl Instrumenter {
    fn visit_header_includes(&self, t: &SyntaxTree, nodes: &Vec<usize>) -> (r: Result<Edit, InstrumentError>)
        requires
            t.wf(),
            forall|j: int| 0 <= j < nodes@.len() ==> #[trigger] nodes@[j] < t@.len(),
        ensures
            match r {
                Ok(e) => nodes@.len() > 0 && e@ == ins(
                    t@[nodes@[0] as int].start as nat,
                    header_include_text(),
                ),
                Err(e) => nodes@.len() == 0 && e == InstrumentError::NoHeaderInclude,
            },
    {
        if nodes.len() == 0 {
            return Err(InstrumentError::NoHeaderInclude);
        }
        Ok(Edit::new_insert(String::from_str(Hook::header_include()), t.node(nodes[0]).start))
    }

    fn visit_using_decls(&self, t: &SyntaxTree, first: Option<usize>) -> (r: Result<Edit, InstrumentError>)
        requires
            t.wf(),
            t.fits((usize::MAX - 1) as nat),
            first matches Some(u) ==> u < t@.len(),
        ensures
            match r {
                Ok(e) => first is Some && e@ == ins(
                    (t@[first->Some_0 as int].end + 1) as nat,
                    global_var_decl_text(),
                ),
                Err(e) => first is None && e == InstrumentError::NoUsingDeclaration,
            },
    {
        match first {
            None => Err(InstrumentError::NoUsingDeclaration),
            Some(u) => Ok(Edit::new_insert(String::from_str(Hook::global_var_decl()), t.node(u).end + 1)),
        }
    }

    fn visit_ast_tree(&mut self, t: &SyntaxTree, code: &str, v: &Vec<char>) -> (r: Result<(), InstrumentError>)
        requires
            ready(t, code, v),
        ensures
            final(self).file_name() == old(self).file_name(),
            match r {
                Ok(()) => match file_plan(t@, code@, old(self).file_name()) {
                    Ok((es, ws)) => final(self).pending() == add_edits(old(self).pending(), es)
                        && final(self).reported() == old(self).reported() + ws,
                    Err(_) => false,
                },
                Err(e) => file_plan(t@, code@, old(self).file_name()) == Err::<
                    (Seq<EditView>, Seq<Warning>),
                    InstrumentError,
                >(e),
            },
    {
        if t.len() == 0 {
            return Err(InstrumentError::NoHeaderInclude);
        }
        let incs = get_children_of_kind(t, 0, "preproc_include");
        let uses = get_children_of_kind(t, 0, "using_declaration");
        let aliases = get_children_of_kind(t, 0, "alias_declaration");
        proof {
            lemma_descendants_in_tree(t@, 0, "preproc_include"@, t@.len() as int);
            lemma_descendants_in_tree(t@, 0, "using_declaration"@, t@.len() as int);
            lemma_descendants_in_tree(t@, 0, "alias_declaration"@, t@.len() as int);
        }
        let head = match self.visit_header_includes(t, &incs) {
            Err(e) => {
                return Err(e);
            },
            Ok(e) => e,
        };
        let global = match self.visit_using_decls(t, first_of_exec(&uses, &aliases)) {
            Err(e) => {
                return Err(e);
            },
            Ok(e) => e,
        };
        let defs = get_children_of_kind(t, 0, "function_definition");
        proof {
            lemma_descendants_in_tree(t@, 0, "function_definition"@, t@.len() as int);
        }
        match self.visit_fn_defs(t, code, v, &defs) {
            Err(e) => Err(e),
            Ok((es, ws)) => {
                let all = join(two(head, global), es);
                self.edits.add_all(&all);
                let mut ws = ws;
                self.warnings.append(&mut ws);
                Ok(())
            },
        }
    }

    /// Instruments `buf` in place: collects the edits of every rule over the
    /// syntax tree `t` of `buf`, then applies all pending edits from the end
    /// of the text to its start. On an error `buf` is left as it was.
    pub fn instrument_tree(&mut self, t: &SyntaxTree, buf: &mut String) -> (r: Result<(), InstrumentError>)
        ensures
            final(self).file_name() == old(self).file_name(),
            instrumented_by(t, old(buf)@, final(buf)@, *old(self), *final(self), r),
    {
        let n = buf.as_str().unicode_len();
        if n == usize::MAX || !t.check_wf() || !t.check_fits(n) {
            return Err(InstrumentError::TreeMismatch);
        }
        let v = chars_of(buf.as_str());
        match self.visit_ast_tree(t, buf.as_str(), &v) {
            Err(e) => {
                return Err(e);
            },
            Ok(()) => {},
        }
        match self.edits.apply(buf.as_str()) {
            None => Err(InstrumentError::ConflictingEdits),
            Some(s) => {
                *buf = s;
                Ok(())
            },
        }
    }

    /// Parses `buf` as C++ and instruments it with the tree tree-sitter
    /// gives for it (see `parse_source` and `instrument_tree`);
    /// `ParseFailed`, with nothing changed, when that tree cannot be copied.
    pub fn instrument(&mut self, buf: &mut String) -> (r: Result<(), InstrumentError>)
        ensures
            final(self).file_name() == old(self).file_name(),
            match ts_tree(old(buf)@) {
                None => r == Err::<(), InstrumentError>(InstrumentError::ParseFailed)
                    && final(buf)@ == old(buf)@ && final(self).pending() == old(self).pending()
                    && final(self).reported() == old(self).reported(),
                Some(nodes) => exists|t: SyntaxTree|
                    t.wf() && t.fits(old(buf)@.len()) && node_specs(t@) == nodes && instrumented_by(
                        &t,
                        old(buf)@,
                        final(buf)@,
                        *old(self),
                        *final(self),
                        r,
                    ),
            },
    {
        match parse_source(buf.as_str()) {
            None => Err(InstrumentError::ParseFailed),
            Some(t) => {
                let r = self.instrument_tree(&t, buf);
                assert(instrumented_by(&t, old(buf)@, buf@, *old(self), *self, r));
                r
            },
        }
    }
}

/// How instrumenting with the tree `t` relates the text and instrumenter
/// before and after to the result `r`: on success the new text is the one
/// `instrument_result` gives and the pending edits and reports grow as it
/// says; on failure the error is the one it gives and the text is unchanged.
pub open spec fn instrumented_by(
    t: &SyntaxTree,
    before: Seq<char>,
    after: Seq<char>,
    old_self: Instrumenter,
    new_self: Instrumenter,
    r: Result<(), InstrumentError>,
) -> bool {
    match (r, instrument_result(t, before, old_self.pending(), old_self.file_name())) {
        (Ok(()), Ok((out, p, ws))) => after == out && new_self.pending() == p && new_self.reported()
            == old_self.reported() + ws,
        (Err(e), Err(f)) => e == f && after == before,
        _ => false,
    }
}

/// The outcome of one file, as the mathematical value of `Outcome`.
pub ghost enum OutcomeView {
    AlreadyInstrumented,
    Instrumented { code: Seq<char>, warnings: Seq<Warning> },
    FailedCheck { missing: Marker, warnings: Seq<Warning> },
}

/// What becomes of one source file.
pub enum Outcome {
    /// The file already holds every marker and is skipped.
    AlreadyInstrumented,
    /// The instrumented text, which holds every marker.
    Instrumented { code: String, warnings: Vec<Warning> },
    /// The instrumented text lacks `missing` and is not to be written.
    FailedCheck { missing: Marker, warnings: Vec<Warning> },
}

impl View for Outcome {
    type V = OutcomeView;

    open spec fn view(&self) -> OutcomeView {
        match self {
            Outcome::AlreadyInstrumented => OutcomeView::AlreadyInstrumented,
            Outcome::Instrumented { code, warnings } => OutcomeView::Instrumented {
                code: code@,
                warnings: warnings@,
            },
            Outcome::FailedCheck { missing, warnings } => OutcomeView::FailedCheck {
                missing: *missing,
                warnings: warnings@,
            },
        }
    }
}

/// One file: skipped when it already holds every marker; otherwise
/// instrumented from scratch and accepted only if the result holds every
/// marker.
pub open spec fn source_outcome(t: &SyntaxTree, code: Seq<char>, file: Seq<char>) -> Result<OutcomeView, InstrumentError> {
    if is_instrumented(code) {
        Ok(OutcomeView::AlreadyInstrumented)
    } else {
        match instrument_result(t, code, seq![], file) {
            Err(e) => Err(e),
            Ok((out, _, ws)) => match spec_missing_marker(out) {
                None => Ok(OutcomeView::Instrumented { code: out, warnings: ws }),
                Some(m) => Ok(OutcomeView::FailedCheck { missing: m, warnings: ws }),
            },
        }
    }
}

/// Instruments the source file `code`, whose syntax tree is `t`, for the
/// checker of file `file_name`.
pub fn instrument_source(t: &SyntaxTree, code: &str, file_name: String) -> (r: Result<Outcome, InstrumentError>)
    ensures
        match r {
            Ok(o) => source_outcome(t, code@, file_name@) == Ok::<OutcomeView, InstrumentError>(o@),
            Err(e) => source_outcome(t, code@, file_name@) == Err::<OutcomeView, InstrumentError>(e),
        },
{
    if check_code(code) {
        return Ok(Outcome::AlreadyInstrumented);
    }
    let mut instrumenter = Instrumenter::new(file_name);
    let mut buf = String::from_str(code);
    match instrumenter.instrument_tree(t, &mut buf) {
        Err(e) => Err(e),
        Ok(()) => {
            let warnings = instrumenter.warnings;
            match missing_marker(buf.as_str()) {
                None => Ok(Outcome::Instrumented { code: buf, warnings }),
                Some(m) => Ok(Outcome::FailedCheck { missing: m, warnings }),
            }
        },
    }
}

/// Running again on an accepted result skips it, whatever tree and file
/// name come with it: the result holds every marker.
pub proof fn lemma_rerun_skips(
    t: &SyntaxTree,
    code: Seq<char>,
    file: Seq<char>,
    out: Seq<char>,
    ws: Seq<Warning>,
    t2: &SyntaxTree,
    file2: Seq<char>,
)
    requires
        source_outcome(t, code, file) == Ok::<OutcomeView, InstrumentError>(
            OutcomeView::Instrumented { code: out, warnings: ws },
        ),
    ensures
        source_outcome(t2, out, file2) == Ok::<OutcomeView, InstrumentError>(
            OutcomeView::AlreadyInstrumented,
        ),
{
}

/// The edit that places the hook header before the first include.
pub open spec fn header_edit(t: Seq<SyntaxNode>) -> EditView {
    ins(t[descendants_of_kind(t, 0, "preproc_include"@)[0] as int].start as nat, header_include_text())
}

/// The edit that places the checker handle after the first using- or
/// alias-declaration.
pub open spec fn global_edit(t: Seq<SyntaxNode>) -> EditView {
    ins(
        (t[first_using(t)->Some_0 as int].end + 1) as nat,
        global_var_decl_text(),
    )
}

/// After instrumentation the hook header stands right before the text of
/// the file's first include, and the checker handle right after the text
/// of its first using- or alias-declaration and the character that follows it,
/// provided every other pending edit keeps clear of that text.
pub proof fn lemma_anchors_kept(
    t: &SyntaxTree,
    code: Seq<char>,
    file: Seq<char>,
    out: Seq<char>,
    p: Seq<EditView>,
    ws: Seq<Warning>,
)
    requires
        instrument_result(t, code, seq![], file) == Ok::<
            (Seq<char>, Seq<EditView>, Seq<Warning>),
            InstrumentError,
        >((out, p, ws)),
    ensures
        ({
            let inc = t@[descendants_of_kind(t@, 0, "preproc_include"@)[0] as int];
            (forall|f: EditView|
                #[trigger] p.contains(f) && f != header_edit(t@) ==> clear_of(
                    f,
                    inc.start as nat,
                    inc.start as nat,
                    inc.end as nat,
                )) ==> occurs_in(
                out,
                header_include_text() + code.subrange(inc.start as int, inc.end as int),
            )
        }),
        ({
            let u = t@[first_using(t@)->Some_0 as int];
            (forall|f: EditView|
                #[trigger] p.contains(f) && f != global_edit(t@) ==> clear_of(
                    f,
                    u.start as nat,
                    (u.end + 1) as nat,
                    (u.end + 1) as nat,
                )) ==> occurs_in(
                out,
                code.subrange(u.start as int, u.end + 1) + global_var_decl_text(),
            )
        }),
{
    let incs = descendants_of_kind(t@, 0, "preproc_include"@);

    lemma_descendants_in_tree(t@, 0, "preproc_include"@, t@.len() as int);
    lemma_descendants_in_tree(t@, 0, "using_declaration"@, t@.len() as int);
    lemma_descendants_in_tree(t@, 0, "alias_declaration"@, t@.len() as int);
    let h = header_edit(t@);
    let g = global_edit(t@);
    let rest = fn_defs_plan(t@, code, descendants_of_kind(t@, 0, "function_definition"@), file);
    let es = seq![h, g] + rest->Ok_0.0;
    assert(p == add_edits(seq![], es));
    let s0 = Seq::<EditView>::empty();
    let s1 = add_edit(s0, h);
    assert(s1 =~= seq![h]);
    reveal_strlit("#include \"llvm/Transforms/Utils/RuntimeChecker.h\"\n");
    reveal_strlit("namespace { RuntimeChecker *RC = nullptr; }\n");
    assert(h.content[0] == '#' && g.content[0] == 'n');
    assert(h.content != g.content);
    let s2 = add_edit(s1, g);
    assert(!(s1[0].start_pos == g.start_pos && s1[0].content == g.content));
    assert(s2 =~= seq![h, g]);
    assert(es[0] == h);
    assert(es.drop_first()[0] == g);
    assert(es.drop_first().drop_first() =~= rest->Ok_0.0);
    assert(add_edits(s0, es) == add_edits(s1, es.drop_first()));
    assert(add_edits(s1, es.drop_first()) == add_edits(s2, es.drop_first().drop_first()));
    lemma_add_edits_keeps(s2, rest->Ok_0.0);
    assert(s2[0] == h && s2[1] == g);
    assert(s2.contains(h) && s2.contains(g));
    assert(keys_unique(s2));
    assert(p.contains(h) && p.contains(g));
    lemma_keys_unique_distinct(p);
    let inc = t@[incs[0] as int];
    if forall|f: EditView|
        #[trigger] p.contains(f) && f != h ==> clear_of(
            f,
            inc.start as nat,
            inc.start as nat,
            inc.end as nat,
        ) {
        lemma_edit_anchored(code, p, h, inc.start as nat, inc.end as nat, out);
        assert(code.subrange(inc.start as int, inc.start as int) + h.content + code.subrange(
            inc.start as int,
            inc.end as int,
        ) =~= header_include_text() + code.subrange(inc.start as int, inc.end as int));
    }
    let u = t@[first_using(t@)->Some_0 as int];
    if forall|f: EditView|
        #[trigger] p.contains(f) && f != g ==> clear_of(
            f,
            u.start as nat,
            (u.end + 1) as nat,
            (u.end + 1) as nat,
        ) {
        lemma_applied_within(code, p, g);
        lemma_edit_anchored(code, p, g, u.start as nat, (u.end + 1) as nat, out);
        assert(code.subrange(u.start as int, u.end + 1) + g.content + code.subrange(
            u.end + 1,
            u.end + 1,
        ) =~= code.subrange(u.start as int, u.end + 1) + global_var_decl_text());
    }
}

/// A creating call inside a declaration is recorded under the declared
/// name, after the declaration, whatever assignment, return or statement
/// also encloses it.
pub proof fn lemma_declaration_first(t: Seq<SyntaxNode>, code: Seq<char>, call: int, d: usize, x: usize)
    requires
        nearest_ancestor(t, call, "declaration"@) == Some(d),
        var_from_decl(t, d as int) == Some(x),
    ensures
        creating_call_plan(t, code, call) == Ok::<Seq<EditView>, InstrumentError>(
            seq![ins(t[d as int].end as nat, track_dst_stmt(node_text(t, code, x as int), "nullptr"@, ConstructKind::Creating, t[d as int].row as nat, node_text(t, code, x as int), ""@))],
        ),
{
}

} // verus!
