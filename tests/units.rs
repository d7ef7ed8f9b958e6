use disan::ast::{ASTNodeKind, AstNode, SyntaxTree};
use disan::edit::{Edit, EditKind, EditSet};
use disan::hook::{check_code, missing_marker, Hook, Marker};
use disan::matcher::{ConstructKind, DLUpdateKind, FuncMatch};
use disan::text::{decimal_string, one_line_of, chars_of};
use disan::traverse::{
    child_by_field_name, get_children_of_kind, get_parent_of_kind, get_var_name_from_assign,
    get_var_name_from_decl,
};

#[test]
fn edit_constructors() {
    let e = Edit::new_insert("x".to_string(), 3);
    assert_eq!(e.content, "x");
    assert_eq!(e.start_pos, 3);
    assert_eq!(e.kind, EditKind::Insert);
    let r = Edit::new_replace("y".to_string(), 2, 5);
    assert_eq!(r.start_pos, 2);
    assert_eq!(r.kind, EditKind::Replace(5));
}

#[test]
fn same_edit_twice_is_kept_once() {
    let mut set = EditSet::new();
    set.add(Edit::new_insert("{ ".to_string(), 4));
    set.add(Edit::new_insert("{ ".to_string(), 4));
    set.add(Edit::new_replace("{ ".to_string(), 4, 6));
    assert_eq!(set.len(), 1);
    set.add(Edit::new_insert("{ ".to_string(), 5));
    assert_eq!(set.len(), 2);
    assert_eq!(set.apply("abcdefgh"), Some("abcd{ e{ fgh".to_string()));
}

#[test]
fn edits_land_at_original_offsets() {
    let mut set = EditSet::new();
    set.add(Edit::new_insert("<".to_string(), 1));
    set.add(Edit::new_replace("XY".to_string(), 3, 5));
    set.add(Edit::new_insert(">".to_string(), 7));
    assert_eq!(set.apply("0123456789"), Some("0<12XY56>789".to_string()));
}

#[test]
fn edits_at_one_position_keep_their_order() {
    let mut set = EditSet::new();
    set.add(Edit::new_insert("a".to_string(), 2));
    set.add(Edit::new_insert("b".to_string(), 2));
    set.add(Edit::new_insert("c".to_string(), 0));
    let sorted = set.sorted_desc();
    assert_eq!(sorted[0].content, "b");
    assert_eq!(sorted[1].content, "a");
    assert_eq!(sorted[2].content, "c");
    assert_eq!(set.apply("xyz"), Some("cxyabz".to_string()));
}

#[test]
fn overlapping_edits_are_refused() {
    let mut set = EditSet::new();
    set.add(Edit::new_replace("A".to_string(), 1, 4));
    set.add(Edit::new_insert("B".to_string(), 2));
    assert_eq!(set.apply("0123456"), None);
}

#[test]
fn edit_past_the_end_is_refused() {
    let mut set = EditSet::new();
    set.add(Edit::new_insert("B".to_string(), 8));
    assert_eq!(set.apply("0123"), None);
    let mut ok = EditSet::new();
    ok.add(Edit::new_insert("B".to_string(), 4));
    assert_eq!(ok.apply("0123"), Some("0123B".to_string()));
}

#[test]
fn classifier_tables() {
    assert_eq!("BinaryOperator::CreateAdd".to_string().is_construct(), Some(ConstructKind::Creating));
    assert_eq!("ICmpInst".to_string().is_construct(), Some(ConstructKind::Creating));
    assert_eq!("ICmpInstX".to_string().is_construct(), None);
    assert_eq!("clone".to_string().is_construct(), Some(ConstructKind::Cloning));
    assert_eq!("moveBeforePreserving".to_string().is_construct(), Some(ConstructKind::Moving));
    assert!("replaceUsesOfWith".to_string().is_replacement());
    assert_eq!("setDebugLoc".to_string().is_debugloc_update(), Some(DLUpdateKind::Preserving));
    assert_eq!("applyMergedLocation".to_string().is_debugloc_update(), Some(DLUpdateKind::Merging));
    assert_eq!("updateLocationAfterHoist".to_string().is_debugloc_update(), Some(DLUpdateKind::Dropping));
    assert!("insertInto".to_string().is_insertion());
    assert_eq!("insertInto".to_string().is_construct(), None);
    assert!(!"insertInto".to_string().is_replacement());
    assert!("LICMPass::run".to_string().is_pass_entry());
    assert!(!"LICMPass::runImpl".to_string().is_pass_entry());
}

#[test]
fn unrelated_name_is_nothing() {
    let foo = "foo".to_string();
    assert_eq!(foo.is_construct(), None);
    assert!(!foo.is_replacement());
    assert_eq!(foo.is_debugloc_update(), None);
    assert!(!foo.is_insertion());
    assert!(!foo.is_pass_entry());
}

#[test]
fn kind_texts() {
    assert_eq!(ConstructKind::Cloning.as_str(), "ConstructKind::Cloning");
    assert_eq!(DLUpdateKind::Merging.as_str(), "UpdateKind::Merging");
    assert_eq!(ASTNodeKind::HeaderInclude.to_string(), "preproc_include");
    assert_eq!(ASTNodeKind::UsingDecl.to_string(), "using_declaration");
    assert_eq!(ASTNodeKind::FnDef.to_string(), "function_definition");
    assert_eq!(ASTNodeKind::CallExpr.to_string(), "call_expression");
    assert_eq!(ASTNodeKind::NewExpr.to_string(), "new_expression");
    assert_eq!(ASTNodeKind::FieldExpr.to_string(), "field_expression");
}

#[test]
fn hook_texts_and_markers() {
    assert_eq!(Hook::header_include(), "#include \"llvm/Transforms/Utils/RuntimeChecker.h\"\n");
    assert_eq!(Hook::global_var_decl(), "namespace { RuntimeChecker *RC = nullptr; }\n");
    let all = format!(
        "{}{}RC = new RuntimeChecker(F, \"a\");\nRC->startCheck();",
        Hook::header_include(),
        Hook::global_var_decl()
    );
    assert!(check_code(&all));
    assert_eq!(missing_marker(&all), None);
    assert_eq!(missing_marker(""), Some(Marker::HeaderInclude));
    let no_start = format!("{}{}RC = new RuntimeChecker", Hook::header_include(), Hook::global_var_decl());
    assert_eq!(missing_marker(&no_start), Some(Marker::StartCheck));
    assert!(!check_code(&no_start));
}

#[test]
fn decimal_and_one_line() {
    assert_eq!(decimal_string(0), "0");
    assert_eq!(decimal_string(407), "407");
    let code = "  a(b,\n     c)  \n";
    let v = chars_of(code);
    assert_eq!(one_line_of(code, &v, 2, 14), "a(b, c)");
    assert_eq!(one_line_of(code, &v, 0, v.len()), "a(b, c) ");
}

fn small_tree() -> SyntaxTree {
    // int *p = q;   x = y;
    let mut t = SyntaxTree::new();
    let root = t.add_node(None, "translation_unit".to_string(), None, 0, 20, 1).unwrap();
    let decl = t.add_node(Some(root), "declaration".to_string(), None, 0, 11, 1).unwrap();
    let init = t
        .add_node(Some(decl), "init_declarator".to_string(), Some("declarator".to_string()), 4, 10, 1)
        .unwrap();
    let ptr = t
        .add_node(Some(init), "pointer_declarator".to_string(), Some("declarator".to_string()), 4, 6, 1)
        .unwrap();
    t.add_node(Some(ptr), "identifier".to_string(), Some("declarator".to_string()), 5, 6, 1).unwrap();
    let assign = t.add_node(Some(root), "assignment_expression".to_string(), None, 12, 17, 2).unwrap();
    t.add_node(Some(assign), "identifier".to_string(), Some("left".to_string()), 12, 13, 2).unwrap();
    t
}

#[test]
fn tree_queries() {
    let t = small_tree();
    assert_eq!(t.len(), 7);
    assert!(t.check_wf());
    assert!(t.check_fits(20));
    assert!(!t.check_fits(19));
    assert_eq!(get_children_of_kind(&t, 0, "identifier"), vec![4, 6]);
    assert_eq!(get_children_of_kind(&t, 1, "identifier"), vec![4]);
    assert_eq!(get_parent_of_kind(&t, 4, "declaration"), Some(1));
    assert_eq!(get_parent_of_kind(&t, 4, "assignment_expression"), None);
    assert_eq!(child_by_field_name(&t, 1, "declarator"), Some(2));
    assert_eq!(get_var_name_from_decl(&t, 1), Some(4));
    assert_eq!(get_var_name_from_assign(&t, 5), Some(6));
    assert_eq!(get_var_name_from_assign(&t, 1), None);
    assert!(t.node(1).row() == 1 && !t.node(1).is_header_include());
    assert_eq!(t.node(4).to_raw("int *p = q;\nx = y;\n"), "p");
}

#[test]
fn tree_refuses_out_of_order_nodes() {
    let mut t = SyntaxTree::new();
    assert_eq!(t.add_node(Some(0), "x".to_string(), None, 0, 1, 1), None);
    assert_eq!(t.add_node(None, "root".to_string(), None, 0, 1, 1), Some(0));
    assert_eq!(t.add_node(None, "root".to_string(), None, 0, 1, 1), None);
    assert_eq!(t.add_node(Some(0), "x".to_string(), None, 2, 1, 1), None);
    assert_eq!(t.len(), 1);
}

#[test]
fn receiver_of_nested_accessor() {
    let code = "void f() {\n  I->setDebugLoc(J->getDebugLoc());\n}\n";
    let t = disan::parse::parse_source(code).unwrap();
    let v = chars_of(code);
    let calls = get_children_of_kind(&t, 0, "call_expression");
    assert_eq!(calls.len(), 2);
    assert_eq!(disan::traverse::get_ident_from_call(&t, code, &v, calls[0], "getDebugLoc"), None);
    let inner = disan::traverse::get_ident_from_call(&t, code, &v, calls[1], "getDebugLoc").unwrap();
    assert_eq!(t.node(inner).to_raw(code), "J");
    let defs = get_children_of_kind(&t, 0, "function_definition");
    let name = disan::traverse::get_fn_identifier(&t, defs[0]).unwrap();
    assert_eq!(t.node(name).to_source(code), "f");
}

#[test]
fn parse_counts_characters() {
    let code = "// é\nint x;\n";
    let t = disan::parse::parse_source(code).unwrap();
    assert!(t.check_wf());
    assert!(t.check_fits(code.chars().count()));
    let decls = get_children_of_kind(&t, 0, "declaration");
    assert_eq!(decls.len(), 1);
    assert_eq!(t.node(decls[0]).start, 5);
    assert_eq!(t.node(decls[0]).row(), 2);
    assert_eq!(t.node(decls[0]).to_raw(code), "int x;");
}
