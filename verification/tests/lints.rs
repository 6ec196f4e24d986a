use std::collections::HashSet;

use soroban_cost_linter::hir::{BinOpKind, Body, Expr, ExprKind, Node, Pat, Res, SourceSpan, Ty};
use soroban_cost_linter::lint::{is_lint_name, lint_metadata, Diagnostic, Level, Lint, LintCategory};
use soroban_cost_linter::loops::{
    depends_on_loop_state, enclosing_loop, enclosing_loop_or_closure, BindingCollector,
    ExprContext, LocalReadCollector,
};
use soroban_cost_linter::passes::containers::{
    BytesAppendInLoop, InefficientBytesConcat, MapInsertInLoop,
};
use soroban_cost_linter::passes::env::RedundantEnvClone;
use soroban_cost_linter::passes::host::{HostInLoop, UnnecessaryHostFunctionCall};
use soroban_cost_linter::passes::recursion::DeepContractRecursion;
use soroban_cost_linter::passes::storage::{SorobanStorageInLoop, StorageWriteWithoutRead};
use soroban_cost_linter::passes::symbols::{is_valid_short_symbol, SymbolNewForShortLiteral};
use soroban_cost_linter::passes::{register_lints, LatePass, LintStore};
use soroban_cost_linter::paths::{
    is_bytes_type, match_soroban_def_path, matches_any_path, soroban_host_types,
    soroban_storage_types,
};

fn span(id: u64) -> SourceSpan {
    SourceSpan { id }
}

fn plain() -> Ty {
    Ty { references: 0, adt: None }
}

fn ty(path: &str) -> Ty {
    Ty { references: 0, adt: Some(path.to_string()) }
}

fn expr(kind: ExprKind, ty: Ty) -> Expr {
    Expr { kind, ty, span: span(0), snippet: None }
}

fn local(id: u64, ty: Ty) -> Expr {
    expr(ExprKind::Path(Res::Local(id)), ty)
}

fn item(id: u64, path: &str) -> Expr {
    expr(ExprKind::Path(Res::Def { id, path: path.to_string() }), plain())
}

fn literal(text: &str) -> Expr {
    let mut made = expr(ExprKind::Str(text.to_string()), plain());
    made.snippet = Some(format!("\"{text}\""));
    made
}

fn method(receiver: Expr, name: &str, args: Vec<Expr>, id: u64) -> Expr {
    let kind = ExprKind::MethodCall {
        method: name.to_string(),
        definition: None,
        receiver: Box::new(receiver),
        args,
        call_span: span(id + 1000),
    };
    Expr { kind, ty: plain(), span: span(id), snippet: None }
}

fn call(callee: Expr, args: Vec<Expr>, id: u64) -> Expr {
    let kind = ExprKind::Call { callee: Box::new(callee), args };
    Expr { kind, ty: plain(), span: span(id), snippet: None }
}

fn block(parts: Vec<Expr>) -> Expr {
    expr(ExprKind::Other(parts.into_iter().map(Node::Expr).collect()), plain())
}

fn binding(id: u64) -> Node {
    Node::Pat(Pat { binding: Some(id), parts: vec![] })
}

fn a_loop(parts: Vec<Node>) -> Expr {
    expr(ExprKind::Loop(parts), plain())
}

fn body(value: Expr) -> Body {
    Body { params: vec![], value }
}

fn cx<'a>(enclosing: Option<&'a Expr>, mutated: Option<&'a HashSet<u64>>) -> ExprContext<'a> {
    ExprContext { enclosing, mutated, receiver_used_after: false }
}

const INSTANCE: &str = "soroban_sdk::storage::Instance";

/// `env.storage().instance().<name>(args)`
fn storage_call(name: &str, args: Vec<Expr>) -> Expr {
    let mut storage = method(local(1, ty("soroban_sdk::Env")), "storage", vec![], 10);
    storage.ty = ty("soroban_sdk::storage::Storage");
    let mut instance = method(storage, "instance", vec![], 11);
    instance.ty = ty(INSTANCE);
    instance.snippet = Some("env.storage().instance()".to_string());
    method(instance, name, args, 12)
}

#[test]
fn paths_match_by_their_ends() {
    assert!(match_soroban_def_path("soroban_sdk::Env", &["soroban_sdk", "Env"]));
    assert!(match_soroban_def_path("my_soroban_sdk::Env", &["soroban_sdk", "Env"]));
    assert!(match_soroban_def_path("anything", &[]));
    assert!(!match_soroban_def_path("soroban_sdk::env::Env", &["soroban_sdk", "Env"]));
    assert!(!match_soroban_def_path("Env", &["soroban_sdk", "Env"]));
    assert!(matches_any_path(INSTANCE, &soroban_storage_types()));
    assert!(!matches_any_path(INSTANCE, &soroban_host_types()));
    assert!(matches_any_path("soroban_sdk::crypto::bls12_381::Bls12_381", &soroban_host_types()));
}

#[test]
fn a_storage_chain_in_a_loop_is_reported_once() {
    let chain = storage_call("set", vec![local(2, plain()), local(3, plain())]);
    let around = a_loop(vec![]);
    let context = cx(Some(&around), None);
    let reports: Vec<Diagnostic> = chain
        .walk()
        .into_iter()
        .filter_map(|e| SorobanStorageInLoop.check_expr(&context, e))
        .collect();
    assert_eq!(reports.len(), 1);
    assert_eq!(reports[0].lint, Lint::SorobanStorageInLoop);
    assert_eq!(reports[0].span.id, 12);
    assert_eq!(reports[0].message, "storage operation inside a loop");
    assert_eq!(
        reports[0].help,
        "move storage operations out of the loop or accumulate mutations in memory first"
    );
    assert!(UnnecessaryHostFunctionCall.check_expr(&context, &chain).is_none());
}

#[test]
fn storage_reads_get_their_own_advice() {
    let around = a_loop(vec![]);
    let context = cx(Some(&around), None);
    for name in ["get", "has"] {
        let report = SorobanStorageInLoop
            .check_expr(&context, &storage_call(name, vec![local(2, plain())]))
            .unwrap();
        assert_eq!(
            report.help,
            "if the read is loop-invariant, hoist it out of the loop; otherwise batch where possible"
        );
    }
    assert!(SorobanStorageInLoop
        .check_expr(&context, &storage_call("remove", vec![]))
        .is_none());
}

#[test]
fn storage_outside_of_a_loop_is_not_reported() {
    let chain = storage_call("get", vec![]);
    assert!(SorobanStorageInLoop.check_expr(&cx(None, None), &chain).is_none());
    let closure = expr(ExprKind::Closure, plain());
    assert!(SorobanStorageInLoop.check_expr(&cx(Some(&closure), None), &chain).is_none());
}

#[test]
fn redundant_clones_are_reported() {
    let clone = || method(local(1, ty("soroban_sdk::Env")), "clone", vec![], 5);
    let report = RedundantEnvClone.check_expr(&cx(None, None), &clone()).unwrap();
    assert_eq!(report.lint, Lint::RedundantEnvClone);
    assert_eq!(report.span.id, 5);
    assert_eq!(report.message, "redundant clone on Env object");
    assert_eq!(report.help, "pass Env by reference or value instead of cloning");
    assert!(report.replacement.is_none());

    let used = ExprContext { enclosing: None, mutated: None, receiver_used_after: true };
    assert!(RedundantEnvClone.check_expr(&used, &clone()).is_none());
    let reference = Ty { references: 1, adt: Some("soroban_sdk::Env".to_string()) };
    let of_reference = method(local(1, reference), "clone", vec![], 5);
    assert!(RedundantEnvClone.check_expr(&cx(None, None), &of_reference).is_none());
    let of_call = method(call(item(1, "f"), vec![], 3), "clone", vec![], 5);
    assert!(RedundantEnvClone.check_expr(&cx(None, None), &of_call).is_none());
    let mut of_value = call(item(1, "f"), vec![], 3);
    of_value.ty = ty("soroban_sdk::Env");
    let of_value = method(of_value, "clone", vec![], 5);
    assert!(RedundantEnvClone.check_expr(&cx(None, None), &of_value).is_none());
    let of_other = method(local(1, ty("soroban_sdk::Address")), "clone", vec![], 5);
    assert!(RedundantEnvClone.check_expr(&cx(None, None), &of_other).is_none());
    let other = method(local(1, ty("soroban_sdk::Env")), "ledger", vec![], 5);
    assert!(RedundantEnvClone.check_expr(&cx(None, None), &other).is_none());
}

fn timestamp(receiver: Expr) -> Expr {
    let mut ledger = method(receiver, "ledger", vec![], 20);
    ledger.ty = ty("soroban_sdk::ledger::Ledger");
    method(ledger, "timestamp", vec![], 21)
}

#[test]
fn unchanged_host_calls_are_reported() {
    let none = HashSet::new();
    let around = a_loop(vec![binding(7)]);
    let host_call = timestamp(local(1, ty("soroban_sdk::Env")));
    let report = UnnecessaryHostFunctionCall
        .check_expr(&cx(Some(&around), Some(&none)), &host_call)
        .unwrap();
    assert_eq!(report.lint, Lint::UnnecessaryHostFunctionCall);
    assert_eq!(report.span.id, 21);
    assert_eq!(report.message, "unnecessary host function call inside loop");
    assert_eq!(report.help, "call this function outside the loop and reuse the result");

    let closure = expr(ExprKind::Closure, plain());
    let in_closure = cx(Some(&closure), Some(&none));
    assert!(UnnecessaryHostFunctionCall.check_expr(&in_closure, &host_call).is_some());
    assert!(UnnecessaryHostFunctionCall.check_expr(&cx(None, Some(&none)), &host_call).is_none());
}

#[test]
fn host_calls_that_depend_on_the_loop_are_not_reported() {
    let none = HashSet::new();
    let mutated: HashSet<u64> = [9].into_iter().collect();
    let around = a_loop(vec![binding(7)]);
    let by_binding = timestamp(local(7, plain()));
    let by_mutation = timestamp(local(9, plain()));
    let pass = UnnecessaryHostFunctionCall;
    assert!(pass.check_expr(&cx(Some(&around), Some(&none)), &by_binding).is_none());
    assert!(pass.check_expr(&cx(Some(&around), Some(&none)), &by_mutation).is_some());
    assert!(pass.check_expr(&cx(Some(&around), Some(&mutated)), &by_mutation).is_none());
    let free = timestamp(local(1, plain()));
    assert!(pass.check_expr(&cx(Some(&around), None), &free).is_none());
}

#[test]
fn constant_env_methods_count_as_host_calls() {
    let none = HashSet::new();
    let around = a_loop(vec![]);
    let env = |name: &str| method(local(1, ty("soroban_sdk::Env")), name, vec![], 4);
    let pass = UnnecessaryHostFunctionCall;
    let context = cx(Some(&around), Some(&none));
    assert!(pass.check_expr(&context, &env("current_contract_address")).is_some());
    assert!(pass.check_expr(&context, &env("invoke_contract")).is_none());
    assert!(pass.check_expr(&context, &env("ledger")).is_none());
}

#[test]
fn the_host_object_in_a_loop_is_reported() {
    let around = a_loop(vec![]);
    let use_of = method(local(1, ty("soroban_env_host::host::Host")), "budget", vec![], 8);
    let report = HostInLoop.check_expr(&cx(Some(&around), None), &use_of).unwrap();
    assert_eq!(report.lint, Lint::HostInLoop);
    assert_eq!(report.span.id, 8);
    assert_eq!(report.message, "use of Host object inside a loop");
    assert_eq!(report.help, "consider moving the Host usage outside the loop if possible");
    assert!(HostInLoop.check_expr(&cx(None, None), &use_of).is_none());
    let other = method(local(1, ty("soroban_sdk::Env")), "budget", vec![], 8);
    assert!(HostInLoop.check_expr(&cx(Some(&around), None), &other).is_none());
}

#[test]
fn loop_dependence_looks_into_the_whole_call() {
    let nested = Pat {
        binding: None,
        parts: vec![binding(30), Node::Expr(a_loop(vec![binding(31)]))],
    };
    let around = a_loop(vec![Node::Pat(nested), Node::Expr(block(vec![local(32, plain())]))]);
    let none = HashSet::new();
    let reads = |id: u64| method(local(1, plain()), "m", vec![block(vec![local(id, plain())])], 2);
    assert!(depends_on_loop_state(Some(&none), &around, &reads(30)));
    assert!(depends_on_loop_state(Some(&none), &around, &reads(31)));
    assert!(!depends_on_loop_state(Some(&none), &around, &reads(32)));
    assert!(depends_on_loop_state(None, &around, &reads(32)));

    let mut bound = BindingCollector::new();
    bound.visit_expr(&around);
    assert_eq!(bound.bindings, [30, 31].into_iter().collect::<HashSet<u64>>());
    let mut read = LocalReadCollector::new();
    read.visit_expr(&reads(32));
    assert_eq!(read.reads, vec![1, 32]);
}

#[test]
fn closures_are_no_loops() {
    let closure = expr(ExprKind::Closure, plain());
    let around = a_loop(vec![]);
    let other = block(vec![]);
    assert!(enclosing_loop(Some(&around)).is_some());
    assert!(enclosing_loop(Some(&closure)).is_none());
    assert!(enclosing_loop(None).is_none());
    assert!(enclosing_loop_or_closure(Some(&around)).is_some());
    assert!(enclosing_loop_or_closure(Some(&closure)).is_some());
    assert!(enclosing_loop_or_closure(Some(&other)).is_none());
    assert!(enclosing_loop_or_closure(None).is_none());
}

#[test]
fn short_symbols_are_recognized() {
    for text in ["a", "Z_9", "abcdefghi", "_"] {
        assert!(is_valid_short_symbol(text));
    }
    for text in ["", "abcdefghij", "a-b", "a b", "é", "ééééé"] {
        assert!(!is_valid_short_symbol(text));
    }
}

fn symbol_new(args: Vec<Expr>) -> Expr {
    call(item(4, "soroban_sdk::Symbol::new"), args, 40)
}

#[test]
fn short_literals_are_reported_with_their_replacement() {
    let short = symbol_new(vec![local(1, plain()), literal("abc")]);
    let report = SymbolNewForShortLiteral.check_expr(&short).unwrap();
    assert_eq!(report.lint, Lint::SymbolNewForShortLiteral);
    assert_eq!(report.span.id, 40);
    assert_eq!(
        report.message,
        "Symbol::new called with a short literal that could use symbol_short! macro"
    );
    assert_eq!(report.help, "use symbol_short! macro for compile-time symbol creation");
    assert_eq!(report.replacement.as_deref(), Some("symbol_short!(\"abc\")"));

    let mut bare = literal("abc");
    bare.snippet = None;
    let report = SymbolNewForShortLiteral
        .check_expr(&symbol_new(vec![local(1, plain()), bare]))
        .unwrap();
    assert!(report.replacement.is_none());
}

#[test]
fn other_symbols_are_not_reported() {
    let pass = SymbolNewForShortLiteral;
    assert!(pass.check_expr(&symbol_new(vec![local(1, plain()), literal("abcdefghij")])).is_none());
    assert!(pass.check_expr(&symbol_new(vec![local(1, plain()), local(2, plain())])).is_none());
    assert!(pass.check_expr(&symbol_new(vec![literal("abc")])).is_none());
    let three = vec![local(1, plain()), literal("abc"), literal("abc")];
    assert!(pass.check_expr(&symbol_new(three)).is_none());
    let other = call(item(4, "soroban_sdk::String::new"), vec![local(1, plain()), literal("a")], 1);
    assert!(pass.check_expr(&other).is_none());
    let by_local = call(local(4, plain()), vec![local(1, plain()), literal("a")], 1);
    assert!(pass.check_expr(&by_local).is_none());
}

#[test]
fn growing_containers_in_a_loop_is_reported() {
    let around = a_loop(vec![]);
    let context = cx(Some(&around), None);
    let grow = |path: &str, name: &str| method(local(1, ty(path)), name, vec![], 6);
    for name in ["append", "push_back", "insert", "extend_from_array"] {
        for path in ["soroban_sdk::Bytes", "soroban_sdk::Vec", "soroban_sdk::Map"] {
            let report = BytesAppendInLoop.check_expr(&context, &grow(path, name)).unwrap();
            assert_eq!(report.lint, Lint::BytesAppendInLoop);
            assert_eq!(report.message, "repeatedly growing SDK container inside a loop");
            assert_eq!(
                report.help,
                "accumulate values in native Rust collections first, then batch host \
                 operations or convert to SDK containers once after the loop; \
                 pre-size where practical"
            );
        }
    }
    assert!(BytesAppendInLoop.check_expr(&context, &grow("soroban_sdk::Vec", "get")).is_none());
    assert!(BytesAppendInLoop.check_expr(&context, &grow("std::vec::Vec", "append")).is_none());
    let outside = grow("soroban_sdk::Vec", "append");
    assert!(BytesAppendInLoop.check_expr(&cx(None, None), &outside).is_none());
}

#[test]
fn map_insertions_are_reported_by_both_lints() {
    let around = a_loop(vec![]);
    let context = cx(Some(&around), None);
    let insert = |path: &str| method(local(1, ty(path)), "insert", vec![], 6);
    let report = MapInsertInLoop.check_expr(&context, &insert("soroban_sdk::Map")).unwrap();
    assert_eq!(report.lint, Lint::MapInsertInLoop);
    assert_eq!(report.span.id, 6);
    assert_eq!(report.message, "Map::insert inside a loop is expensive");
    assert_eq!(report.help, "accumulate mutations in memory first and write once after the loop");
    assert!(BytesAppendInLoop.check_expr(&context, &insert("soroban_sdk::Map")).is_some());
    assert!(MapInsertInLoop.check_expr(&context, &insert("soroban_sdk::Vec")).is_none());
    assert!(MapInsertInLoop.check_expr(&cx(None, None), &insert("soroban_sdk::Map")).is_none());
    let get = method(local(1, ty("soroban_sdk::Map")), "get", vec![], 6);
    assert!(MapInsertInLoop.check_expr(&context, &get).is_none());
}

fn sum(op: BinOpKind, left: Ty, right: Ty) -> Expr {
    let kind = ExprKind::Binary {
        op,
        left: Box::new(local(1, left)),
        right: Box::new(local(2, right)),
    };
    Expr { kind, ty: plain(), span: span(50), snippet: None }
}

#[test]
fn added_bytes_in_a_loop_are_reported() {
    let around = a_loop(vec![]);
    let context = cx(Some(&around), None);
    let bytes = || ty("soroban_sdk::Bytes");
    let pass = InefficientBytesConcat;
    let report = pass.check_expr(&context, &sum(BinOpKind::Add, bytes(), plain())).unwrap();
    assert_eq!(report.lint, Lint::InefficientBytesConcat);
    assert_eq!(report.span.id, 50);
    assert_eq!(report.message, "inefficient bytes concatenation in a loop");
    assert_eq!(
        report.help,
        "use a Vec<u8> buffer to accumulate bytes and convert to Bytes after the loop"
    );
    assert!(pass.check_expr(&context, &sum(BinOpKind::Add, plain(), bytes())).is_some());
    assert!(pass.check_expr(&context, &sum(BinOpKind::Other, bytes(), bytes())).is_none());
    assert!(pass.check_expr(&context, &sum(BinOpKind::Add, plain(), plain())).is_none());
    assert!(pass.check_expr(&cx(None, None), &sum(BinOpKind::Add, bytes(), bytes())).is_none());
    let reference = Ty { references: 1, adt: Some("soroban_sdk::Bytes".to_string()) };
    assert!(!is_bytes_type(&reference));
    assert!(pass.check_expr(&context, &sum(BinOpKind::Add, reference, plain())).is_none());
}

fn key(text: &str) -> Expr {
    let mut made = local(60, plain());
    made.snippet = Some(text.to_string());
    made
}

#[test]
fn writes_without_reads_are_reported() {
    let function = body(block(vec![
        storage_call("has", vec![key("&A")]),
        storage_call("set", vec![key("&A"), key("&1")]),
        a_loop(vec![Node::Expr(storage_call("set", vec![key("&B"), key("&2")]))]),
        storage_call("set", vec![key("&C")]),
        storage_call("get", vec![key("&D")]),
        storage_call("set", vec![key("&D"), key("&3")]),
        storage_call("get", vec![]),
    ]));
    let reports = StorageWriteWithoutRead.check_fn(&function);
    assert_eq!(reports.len(), 1);
    assert_eq!(reports[0].lint, Lint::StorageWriteWithoutRead);
    assert_eq!(reports[0].span.id, 1012);
    assert_eq!(reports[0].message, "storage write without a corresponding read");
    assert_eq!(
        reports[0].help,
        "consider reading the value before writing or using `.has()` to check existence"
    );
}

#[test]
fn reads_after_the_write_count_too() {
    let function = body(block(vec![
        storage_call("set", vec![key("&A"), key("&1")]),
        storage_call("get", vec![key("&A")]),
    ]));
    assert!(StorageWriteWithoutRead.check_fn(&function).is_empty());
    let other_storage = {
        let mut read = storage_call("get", vec![key("&A")]);
        if let ExprKind::MethodCall { receiver, .. } = &mut read.kind {
            receiver.snippet = None;
        }
        read
    };
    let function = body(block(vec![
        storage_call("set", vec![key("&A"), key("&1")]),
        other_storage,
        storage_call("set", vec![key("&A"), key("&2")]),
    ]));
    assert_eq!(StorageWriteWithoutRead.check_fn(&function).len(), 2);
}

#[test]
fn direct_recursion_is_reported_at_the_first_call() {
    // fn factorial(n: u32) -> u32 { if n <= 1 { 1 } else { n * factorial(n - 1) } }
    let factorial = body(block(vec![
        call(item(2, "contract::other"), vec![], 70),
        block(vec![call(item(1, "contract::factorial"), vec![local(3, plain())], 71)]),
        call(item(1, "contract::factorial"), vec![], 72),
    ]));
    let report = DeepContractRecursion.check_fn(1, &factorial).unwrap();
    assert_eq!(report.lint, Lint::DeepContractRecursion);
    assert_eq!(report.span.id, 71);
    assert_eq!(report.message, "direct recursion detected in contract function");
    assert_eq!(
        report.help,
        "avoid recursion in Soroban contract functions — the Wasm call stack is \
         limited and each recursive call consumes CPU budget; \
         consider using an iterative loop instead"
    );
    assert!(DeepContractRecursion.check_fn(5, &factorial).is_none());
}

#[test]
fn a_call_counts_before_those_in_its_arguments() {
    let inner = call(item(1, "f"), vec![], 81);
    let outer = body(call(item(1, "f"), vec![inner], 80));
    assert_eq!(DeepContractRecursion.check_fn(1, &outer).unwrap().span.id, 80);
    let as_value = body(item(1, "f"));
    assert!(DeepContractRecursion.check_fn(1, &as_value).is_none());
}

#[test]
fn a_method_that_calls_itself_is_reported() {
    // fn count_down(&self, n: u32) { self.step(n).count_down(n - 1) }
    let mut step = method(local(3, plain()), "step", vec![], 90);
    if let ExprKind::MethodCall { definition, .. } = &mut step.kind {
        *definition = Some(2);
    }
    let mut again = method(step, "count_down", vec![], 91);
    if let ExprKind::MethodCall { definition, .. } = &mut again.kind {
        *definition = Some(1);
    }
    let count_down = body(block(vec![again]));
    assert_eq!(DeepContractRecursion.check_fn(1, &count_down).unwrap().span.id, 91);
    assert_eq!(DeepContractRecursion.check_fn(2, &count_down).unwrap().span.id, 90);
    assert!(DeepContractRecursion.check_fn(3, &count_down).is_none());
    let unknown = body(method(local(3, plain()), "count_down", vec![], 92));
    assert!(DeepContractRecursion.check_fn(1, &unknown).is_none());
}

#[test]
fn all_lints_are_registered() {
    let mut store = LintStore::new();
    register_lints(&mut store);
    let metadata = lint_metadata();
    assert_eq!(store.lints.len(), 10);
    assert_eq!(store.late_passes.len(), 10);
    for (lint, entry) in store.lints.iter().zip(&metadata) {
        assert_eq!(*lint, entry.lint);
        assert!(is_lint_name(lint.name()));
        assert_eq!(lint.default_level(), Level::Warn);
    }
    assert_eq!(metadata[0].lint.name(), "soroban_storage_in_loop");
    assert_eq!(metadata[4].category, LintCategory::SymbolOperations);
    assert_eq!(Lint::MapInsertInLoop.description(), "Map::insert called inside a loop");
    assert!(!is_lint_name("SOROBAN_STORAGE_IN_LOOP"));
    assert!(!is_lint_name(""));
}

#[test]
fn passes_run_where_they_apply() {
    let around = a_loop(vec![]);
    let chain = storage_call("set", vec![key("&A"), key("&1")]);
    let mut store = LintStore::new();
    register_lints(&mut store);
    let on_expr: Vec<Lint> = store
        .late_passes
        .iter()
        .filter_map(|pass| pass.check_expr(&cx(Some(&around), None), &chain))
        .map(|report| report.lint)
        .collect();
    assert_eq!(on_expr, vec![Lint::SorobanStorageInLoop]);
    let function = body(block(vec![chain, call(item(9, "f"), vec![], 3)]));
    let on_fn: Vec<Lint> = store
        .late_passes
        .iter()
        .flat_map(|pass| pass.check_fn(9, &function))
        .map(|report| report.lint)
        .collect();
    assert_eq!(on_fn, vec![Lint::StorageWriteWithoutRead, Lint::DeepContractRecursion]);
    assert!(matches!(store.late_passes[3], LatePass::HostInLoop(_)));
}
