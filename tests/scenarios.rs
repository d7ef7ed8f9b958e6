use disan::ast::SyntaxTree;
use disan::hook::{check_code, Hook};
use disan::parse::parse_source;
use disan::instrument::{instrument_source, InstrumentError, Instrumenter, Outcome, Warning};

fn parse(code: &str) -> SyntaxTree {
    parse_source(code).expect("the C++ grammar parses the text")
}

fn run(code: &str) -> Result<String, InstrumentError> {
    let tree = parse(code);
    let mut instrumenter = Instrumenter::new("test.cpp".to_string());
    let mut buf = code.to_string();
    instrumenter.instrument_tree(&tree, &mut buf)?;
    Ok(buf)
}

#[test]
fn instrument_parses_by_itself() {
    let code = format!("{}void f(Instruction *OI) {{\n  auto *NI = OI->clone();\n}}\n", HEAD);
    let mut instrumenter = Instrumenter::new("test.cpp".to_string());
    let mut buf = code.clone();
    instrumenter.instrument(&mut buf).unwrap();
    assert_eq!(buf, run(&code).unwrap());
}

const HEAD: &str = "#include \"a.h\"\nusing namespace llvm;\n";
const HOOKED_HEAD: &str = "#include \"llvm/Transforms/Utils/RuntimeChecker.h\"\n#include \"a.h\"\nusing namespace llvm;\nnamespace { RuntimeChecker *RC = nullptr; }\n";

#[test]
fn scenario_pass_entry() {
    let code = "#include \"llvm/IR/Function.h\"\nusing namespace llvm;\nPreservedAnalyses FooPass::run(Function &F, FunctionAnalysisManager &AM) {\n  return PreservedAnalyses::all();\n}\n";
    let out = run(code).unwrap();
    assert_eq!(
        out,
        "#include \"llvm/Transforms/Utils/RuntimeChecker.h\"\n#include \"llvm/IR/Function.h\"\nusing namespace llvm;\nnamespace { RuntimeChecker *RC = nullptr; }\nPreservedAnalyses FooPass::run(Function &F, FunctionAnalysisManager &AM) {\n  RC = new RuntimeChecker(F, \"test.cpp\");\n  { RC->startCheck(); delete RC; return PreservedAnalyses::all(); }\n}\n"
    );
    assert!(check_code(&out));
}

#[test]
fn scenario_pass_entry_two_returns() {
    let code = format!(
        "{}PreservedAnalyses LoopFooPass::run(Loop &L, LoopAnalysisManager &AM) {{\n  if (L.isInnermost())\n    return PreservedAnalyses::none();\n  return PreservedAnalyses::all();\n}}\n",
        HEAD
    );
    let out = run(&code).unwrap();
    assert_eq!(
        out,
        format!(
            "{}PreservedAnalyses LoopFooPass::run(Loop &L, LoopAnalysisManager &AM) {{\n  RC = new RuntimeChecker(L, \"test.cpp\");\n  if (L.isInnermost())\n    {{ RC->startCheck(); delete RC; return PreservedAnalyses::none(); }}\n  {{ RC->startCheck(); delete RC; return PreservedAnalyses::all(); }}\n}}\n",
            HOOKED_HEAD
        )
    );
}

#[test]
fn scenario_clone_arrow() {
    let code = format!("{}void f(Instruction *OI) {{\n  auto *NI = OI->clone();\n}}\n", HEAD);
    let out = run(&code).unwrap();
    assert_eq!(
        out,
        format!(
            "{}void f(Instruction *OI) {{\n  auto *NI = OI->clone(); RC->trackDebugLocDst(NI, OI, ConstructKind::Cloning, 4, \"NI\", \"OI\");\n}}\n",
            HOOKED_HEAD
        )
    );
}

#[test]
fn scenario_clone_dot() {
    let code = format!("{}void f(Instruction &OI) {{\n  auto *NI = OI.clone();\n}}\n", HEAD);
    let out = run(&code).unwrap();
    assert!(out.contains(
        "auto *NI = OI.clone(); RC->trackDebugLocDst(NI, &OI, ConstructKind::Cloning, 4, \"NI\", \"OI\");"
    ));
}

#[test]
fn scenario_clone_assignment() {
    let code = format!("{}void f(Instruction *OI) {{\n  NI = OI->clone();\n}}\n", HEAD);
    let out = run(&code).unwrap();
    assert!(out.contains(
        "{ NI = OI->clone(); RC->trackDebugLocDst(NI, OI, ConstructKind::Cloning, 4, \"NI\", \"OI\"); }"
    ));
}

#[test]
fn scenario_clone_without_destination() {
    let code = format!("{}void f(Instruction *OI) {{\n  OI->clone();\n}}\n", HEAD);
    let tree = parse(&code);
    let mut instrumenter = Instrumenter::new("test.cpp".to_string());
    let mut buf = code.clone();
    let err = instrumenter.instrument_tree(&tree, &mut buf).unwrap_err();
    assert!(matches!(err, InstrumentError::UnsupportedContext { .. }));
    assert_eq!(buf, code);
}

#[test]
fn scenario_move_before_two_args() {
    let code = format!("{}void f(Instruction *I) {{\n  I->moveBefore(BB, It);\n}}\n", HEAD);
    let out = run(&code).unwrap();
    assert_eq!(
        out,
        format!(
            "{}void f(Instruction *I) {{\n  {{ RC->trackDebugLocDst(I, &BB, ConstructKind::Moving, 4, \"I\", \"&BB\"); I->moveBefore(BB, It); }}\n}}\n",
            HOOKED_HEAD
        )
    );
}

#[test]
fn scenario_move_after_one_arg() {
    let code = format!("{}void f(Instruction &I) {{\n  I.moveAfter(Pos);\n}}\n", HEAD);
    let out = run(&code).unwrap();
    assert!(out.contains(
        "{ RC->trackDebugLocDst(&I, Pos, ConstructKind::Moving, 4, \"I\", \"Pos\"); I.moveAfter(Pos); }"
    ));
}

#[test]
fn scenario_move_unknown_arity() {
    let code = format!("{}void f(Instruction *I) {{\n  I->moveBefore(A, B, C);\n}}\n", HEAD);
    assert!(matches!(run(&code), Err(InstrumentError::UnsupportedArity { .. })));
}

#[test]
fn scenario_creating_declaration_wins() {
    let code = format!(
        "{}void f(Value *X, Value *Y) {{\n  Instruction *I = (J = BinaryOperator::Create(Op, X, Y));\n}}\n",
        HEAD
    );
    let out = run(&code).unwrap();
    assert_eq!(
        out,
        format!(
            "{}void f(Value *X, Value *Y) {{\n  Instruction *I = (J = BinaryOperator::Create(Op, X, Y)); RC->trackDebugLocDst(I, nullptr, ConstructKind::Creating, 4, \"I\", \"\");\n}}\n",
            HOOKED_HEAD
        )
    );
}

#[test]
fn scenario_creating_return() {
    let code = format!(
        "{}Value *f(Value *X, Value *Y) {{\n  return BinaryOperator::Create(Op, X, Y);\n}}\n",
        HEAD
    );
    let out = run(&code).unwrap();
    assert!(out.contains(
        "{ auto *V = BinaryOperator::Create(Op, X, Y); RC->trackDebugLocDst(V, nullptr, ConstructKind::Creating, 4, \"\", \"\"); return V; }"
    ));
}

#[test]
fn scenario_creating_statement() {
    let code = format!("{}void f(Value *X) {{\n  CastInst::Create(Op, X, Ty);\n}}\n", HEAD);
    let out = run(&code).unwrap();
    assert!(out.contains(
        "  Instruction *I = CastInst::Create(Op, X, Ty); RC->trackDebugLocDst(I, nullptr, ConstructKind::Creating, 4, \"\", \"\");\n"
    ));
}

#[test]
fn scenario_new_declaration() {
    let code = format!(
        "{}void f(Value *P) {{\n  LoadInst *L = new LoadInst(Ty, P, \"l\", Pos);\n}}\n",
        HEAD
    );
    let out = run(&code).unwrap();
    assert!(out.contains(
        "LoadInst *L = new LoadInst(Ty, P, \"l\", Pos); RC->trackDebugLocDst(L, nullptr, ConstructKind::Creating, 4, \"L\", \"\");"
    ));
}

#[test]
fn scenario_new_return() {
    let code = format!("{}Value *f(Value *P) {{\n  return new FreezeInst(P);\n}}\n", HEAD);
    let out = run(&code).unwrap();
    assert!(out.contains(
        "{ Value *V = new FreezeInst(P); RC->trackDebugLocDst(V, nullptr, ConstructKind::Creating, 4, \"\", \"\"); return V; }"
    ));
}

#[test]
fn scenario_new_unsupported_place() {
    let code = format!("{}void f(Value *P) {{\n  g(new FreezeInst(P));\n}}\n", HEAD);
    let tree = parse(&code);
    let mut instrumenter = Instrumenter::new("test.cpp".to_string());
    let mut buf = code.clone();
    instrumenter.instrument_tree(&tree, &mut buf).unwrap();
    assert_eq!(instrumenter.warnings().len(), 1);
    assert!(matches!(instrumenter.warnings()[0], Warning::UnsupportedNew { .. }));
    assert!(!buf.contains("FreezeInst(P); RC->"));
}

#[test]
fn scenario_replace_all_uses() {
    let code = format!("{}void f(Value *Old, Value *New) {{\n  Old->replaceAllUsesWith(New);\n}}\n", HEAD);
    let out = run(&code).unwrap();
    assert!(out.contains(
        "  { Value *DebugLocSrc = Old; Value *DebugLocDst = New; DebugLocSrc->replaceAllUsesWith(DebugLocDst); RC->trackDebugLocSrc(DebugLocDst, DebugLocSrc, 4, \"New\", \"Old\"); }\n"
    ));
}

#[test]
fn scenario_replace_all_uses_dot() {
    let code = format!("{}void f(Value &Old, Value *New) {{\n  Old.replaceAllUsesWith(New);\n}}\n", HEAD);
    let out = run(&code).unwrap();
    assert!(out.contains("{ Value *DebugLocSrc = &Old; Value *DebugLocDst = New;"));
}

#[test]
fn scenario_replace_uses_of() {
    let code = format!("{}void f(Instruction *I) {{\n  I->replaceUsesOfWith(A, B);\n}}\n", HEAD);
    let out = run(&code).unwrap();
    assert!(out.contains(
        "  { Value *DebugLocSrc = A; Value *DebugLocDst = B; I->replaceUsesOfWith(DebugLocSrc, DebugLocDst); RC->trackDebugLocSrc(DebugLocDst, DebugLocSrc, 4, \"A\", \"B\"); }\n"
    ));
}

#[test]
fn scenario_replace_uses_of_in_condition() {
    let code = format!("{}void f(Instruction *I) {{\n  if (I->replaceUsesOfWith(A, B)) {{}}\n}}\n", HEAD);
    assert!(matches!(run(&code), Err(InstrumentError::UnsupportedContext { .. })));
}

#[test]
fn scenario_set_debug_loc() {
    let code = format!("{}void f(Instruction *I, Instruction *J) {{\n  I->setDebugLoc(J->getDebugLoc());\n}}\n", HEAD);
    let out = run(&code).unwrap();
    assert!(out.contains(
        "  { I->setDebugLoc(J->getDebugLoc()); RC->trackDebugLocPreserving(I, nullptr, 4, \"I\", \"nullptr\"); }\n"
    ));
}

#[test]
fn scenario_merged_location() {
    let code = format!(
        "{}void f(Instruction *I, Instruction *A, Instruction *B) {{\n  I->applyMergedLocation(A->getDebugLoc(), B->getDebugLoc());\n}}\n",
        HEAD
    );
    let out = run(&code).unwrap();
    assert!(out.contains(
        "  I->applyMergedLocation(A->getDebugLoc(), B->getDebugLoc()); RC->trackDebugLocMerging(I, A, B, 4, \"\", \"A\", \"B\");\n"
    ));
}

#[test]
fn scenario_merged_location_unknown_origin() {
    let code = format!(
        "{}void f(Instruction *I, Instruction &A, DebugLoc L) {{\n  I->applyMergedLocation(L, A.getDebugLoc());\n}}\n",
        HEAD
    );
    let out = run(&code).unwrap();
    assert!(out.contains(
        "  I->applyMergedLocation(L, A.getDebugLoc()); RC->trackDebugLocMerging(I, nullptr, A, 4, \"\", \"nullptr\", \"A\");\n"
    ));
}

#[test]
fn scenario_drop_location() {
    let code = format!("{}void f(Instruction &I) {{\n  I.dropLocation();\n}}\n", HEAD);
    let out = run(&code).unwrap();
    assert!(out.contains(
        "  { I.dropLocation(); RC->trackDebugLocDropping(&I, 4, \"I\"); }\n"
    ));
}

#[test]
fn scenario_insert_before_iterator() {
    let code = format!("{}void f(Instruction *I) {{\n  I->insertBefore(It);\n}}\n", HEAD);
    let out = run(&code).unwrap();
    assert!(out.contains(
        "  { RC->trackInsertion(I, &*It, 4, \"I\", \"&*It\"); I->insertBefore(It); }\n"
    ));
}

#[test]
fn scenario_insert_before_block() {
    let code = format!("{}void f(Instruction &I) {{\n  I.insertBefore(BB, It);\n}}\n", HEAD);
    let out = run(&code).unwrap();
    assert!(out.contains(
        "  { RC->trackInsertion(&I, &It, 4, \"I\", \"&It\"); I.insertBefore(BB, It); }\n"
    ));
}

#[test]
fn scenario_insert_after() {
    let code = format!("{}void f(Instruction *I) {{\n  I->insertAfter(Pos);\n}}\n", HEAD);
    let out = run(&code).unwrap();
    assert!(out.contains(
        "  { RC->trackInsertion(I, Pos, 4, \"I\", \"Pos\"); I->insertAfter(Pos); }\n"
    ));
}

#[test]
fn scenario_anchors_kept() {
    let code = format!("{}void f() {{}}\n", HEAD);
    let out = run(&code).unwrap();
    assert!(out.contains(&format!("{}#include \"a.h\"\n", Hook::header_include())));
    assert!(out.contains(&format!("using namespace llvm;\n{}", Hook::global_var_decl())));
}

#[test]
fn scenario_no_include() {
    let code = "using namespace llvm;\nvoid f() {}\n";
    assert_eq!(run(code), Err(InstrumentError::NoHeaderInclude));
}

#[test]
fn scenario_no_using() {
    let code = "#include \"a.h\"\nvoid f() {}\n";
    assert_eq!(run(code), Err(InstrumentError::NoUsingDeclaration));
}

#[test]
fn scenario_entry_without_parameters() {
    let code = format!("{}PreservedAnalyses FooPass::run() {{\n  return PreservedAnalyses::all();\n}}\n", HEAD);
    assert!(matches!(run(&code), Err(InstrumentError::NoPassParameter { .. })));
}

#[test]
fn scenario_entry_unknown_unit() {
    let code = format!("{}PreservedAnalyses FooPass::run(Module &M) {{\n  return PreservedAnalyses::all();\n}}\n", HEAD);
    let tree = parse(&code);
    let mut instrumenter = Instrumenter::new("test.cpp".to_string());
    let mut buf = code.clone();
    instrumenter.instrument_tree(&tree, &mut buf).unwrap();
    assert_eq!(buf, format!("{}PreservedAnalyses FooPass::run(Module &M) {{\n  return PreservedAnalyses::all();\n}}\n", HOOKED_HEAD));
    assert!(matches!(instrumenter.warnings()[0], Warning::UnknownPassTarget { .. }));
}

#[test]
fn scenario_tree_of_other_text() {
    let tree = parse(&format!("{}void f() {{}}\n", HEAD));
    let mut instrumenter = Instrumenter::new("test.cpp".to_string());
    let mut buf = "short".to_string();
    assert_eq!(instrumenter.instrument_tree(&tree, &mut buf), Err(InstrumentError::TreeMismatch));
    assert_eq!(buf, "short");
}

#[test]
fn scenario_rerun_is_skipped() {
    let code = "#include \"llvm/IR/Function.h\"\nusing namespace llvm;\nPreservedAnalyses FooPass::run(Function &F, FunctionAnalysisManager &AM) {\n  return PreservedAnalyses::all();\n}\n";
    let first = instrument_source(&parse(code), code, "test.cpp".to_string()).unwrap();
    let out = match first {
        Outcome::Instrumented { code, .. } => code,
        _ => panic!("the first run instruments"),
    };
    let second = instrument_source(&parse(&out), &out, "test.cpp".to_string()).unwrap();
    assert!(matches!(second, Outcome::AlreadyInstrumented));
}

#[test]
fn scenario_output_without_entry_fails_check() {
    let code = format!("{}void f(Instruction *OI) {{\n  auto *NI = OI->clone();\n}}\n", HEAD);
    let outcome = instrument_source(&parse(&code), &code, "test.cpp".to_string()).unwrap();
    assert!(matches!(
        outcome,
        Outcome::FailedCheck { missing: disan::hook::Marker::StartCheck, .. }
    ));
}

#[test]
fn scenario_nested_rewrites_conflict() {
    let code = format!(
        "{}Value *f(Value *X, Instruction *Y) {{\n  return BinaryOperator::Create(Op, X, Y->moveAfter(Z));\n}}\n",
        HEAD
    );
    assert_eq!(run(&code), Err(InstrumentError::ConflictingEdits));
}

#[test]
fn scenario_declarator_without_name() {
    let code = "#include x\nusing y;\nf\n";
    let mut tree = SyntaxTree::new();
    let root = tree.add_node(None, "translation_unit".to_string(), None, 0, 22, 1).unwrap();
    tree.add_node(Some(root), "preproc_include".to_string(), None, 0, 11, 1).unwrap();
    tree.add_node(Some(root), "using_declaration".to_string(), None, 11, 19, 2).unwrap();
    let def = tree.add_node(Some(root), "function_definition".to_string(), None, 20, 21, 3).unwrap();
    tree.add_node(Some(def), "function_declarator".to_string(), Some("declarator".to_string()), 20, 21, 3)
        .unwrap();
    let mut instrumenter = Instrumenter::new("test.cpp".to_string());
    let mut buf = code.to_string();
    assert_eq!(
        instrumenter.instrument_tree(&tree, &mut buf),
        Err(InstrumentError::MissingNode { node: def })
    );
    assert_eq!(buf, code);
}

#[test]
fn scenario_alias_declaration_anchor() {
    let code = "#include \"a.h\"\nusing Inst = Instruction;\nvoid f() {}\n";
    let out = run(code).unwrap();
    assert_eq!(
        out,
        format!(
            "{}#include \"a.h\"\nusing Inst = Instruction;\n{}void f() {{}}\n",
            Hook::header_include(),
            Hook::global_var_decl()
        )
    );
}
