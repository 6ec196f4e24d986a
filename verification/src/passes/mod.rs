//! The passes, one for each lint, and their registration.

use vstd::prelude::*;

use crate::hir::{Body, Expr, ExprKind};
use crate::lint::{all_reported, lint_metadata, metadata, reported, Diagnostic, DiagnosticView, Lint};
use crate::loops::{loop_around, loop_or_closure_around, ExprContext};
use crate::paths::{env_type, host_types, path_matches, storage_types};
use crate::text::{ends_with, join};

pub mod containers;
pub mod env;
pub mod host;
pub mod recursion;
pub mod storage;
pub mod symbols;

use containers::{BytesAppendInLoop, InefficientBytesConcat, MapInsertInLoop};
use env::RedundantEnvClone;
use host::{HostInLoop, UnnecessaryHostFunctionCall};
use recursion::DeepContractRecursion;
use storage::{SorobanStorageInLoop, StorageWriteWithoutRead};
use symbols::SymbolNewForShortLiteral;

verus! {

/// A pass over the functions and expressions of a contract.
#[derive(Clone, Copy)]
pub enum LatePass {
    SorobanStorageInLoop(SorobanStorageInLoop),
    RedundantEnvClone(RedundantEnvClone),
    UnnecessaryHostFunctionCall(UnnecessaryHostFunctionCall),
    HostInLoop(HostInLoop),
    SymbolNewForShortLiteral(SymbolNewForShortLiteral),
    StorageWriteWithoutRead(StorageWriteWithoutRead),
    InefficientBytesConcat(InefficientBytesConcat),
    MapInsertInLoop(MapInsertInLoop),
    BytesAppendInLoop(BytesAppendInLoop),
    DeepContractRecursion(DeepContractRecursion),
}

impl LatePass {
    /// The lint that the pass is for.
    pub open spec fn for_lint(self) -> Lint {
        match self {
            LatePass::SorobanStorageInLoop(_) => Lint::SorobanStorageInLoop,
            LatePass::RedundantEnvClone(_) => Lint::RedundantEnvClone,
            LatePass::UnnecessaryHostFunctionCall(_) => Lint::UnnecessaryHostFunctionCall,
            LatePass::HostInLoop(_) => Lint::HostInLoop,
            LatePass::SymbolNewForShortLiteral(_) => Lint::SymbolNewForShortLiteral,
            LatePass::StorageWriteWithoutRead(_) => Lint::StorageWriteWithoutRead,
            LatePass::InefficientBytesConcat(_) => Lint::InefficientBytesConcat,
            LatePass::MapInsertInLoop(_) => Lint::MapInsertInLoop,
            LatePass::BytesAppendInLoop(_) => Lint::BytesAppendInLoop,
            LatePass::DeepContractRecursion(_) => Lint::DeepContractRecursion,
        }
    }

    /// What the pass reports on an expression.
    pub open spec fn on_expr(self, cx: ExprContext, expr: Expr) -> Option<DiagnosticView> {
        match self {
            LatePass::SorobanStorageInLoop(_) => SorobanStorageInLoop::finding(cx, expr),
            LatePass::RedundantEnvClone(_) => RedundantEnvClone::finding(cx, expr),
            LatePass::UnnecessaryHostFunctionCall(_) => UnnecessaryHostFunctionCall::finding(
                cx,
                expr,
            ),
            LatePass::HostInLoop(_) => HostInLoop::finding(cx, expr),
            LatePass::SymbolNewForShortLiteral(_) => SymbolNewForShortLiteral::finding(expr),
            LatePass::StorageWriteWithoutRead(_) => None,
            LatePass::InefficientBytesConcat(_) => InefficientBytesConcat::finding(cx, expr),
            LatePass::MapInsertInLoop(_) => MapInsertInLoop::finding(cx, expr),
            LatePass::BytesAppendInLoop(_) => BytesAppendInLoop::finding(cx, expr),
            LatePass::DeepContractRecursion(_) => None,
        }
    }

    /// What the pass reports on the function `function`.
    pub open spec fn on_fn(self, function: u64, body: Body) -> Seq<DiagnosticView> {
        match self {
            LatePass::StorageWriteWithoutRead(_) => StorageWriteWithoutRead::findings(body),
            LatePass::DeepContractRecursion(_) => {
                match DeepContractRecursion::finding(function, body) {
                    Some(report) => seq![report],
                    None => Seq::empty(),
                }
            },
            _ => Seq::empty(),
        }
    }

    /// Runs the pass on an expression.
    pub fn check_expr(&self, cx: &ExprContext, expr: &Expr) -> (found: Option<Diagnostic>)
        ensures
            reported(found) == self.on_expr(*cx, *expr),
    {
        match self {
            LatePass::SorobanStorageInLoop(pass) => pass.check_expr(cx, expr),
            LatePass::RedundantEnvClone(pass) => pass.check_expr(cx, expr),
            LatePass::UnnecessaryHostFunctionCall(pass) => pass.check_expr(cx, expr),
            LatePass::HostInLoop(pass) => pass.check_expr(cx, expr),
            LatePass::SymbolNewForShortLiteral(pass) => pass.check_expr(expr),
            LatePass::StorageWriteWithoutRead(_) => None,
            LatePass::InefficientBytesConcat(pass) => pass.check_expr(cx, expr),
            LatePass::MapInsertInLoop(pass) => pass.check_expr(cx, expr),
            LatePass::BytesAppendInLoop(pass) => pass.check_expr(cx, expr),
            LatePass::DeepContractRecursion(_) => None,
        }
    }

    /// Runs the pass on the function `function`.
    pub fn check_fn(&self, function: u64, body: &Body) -> (found: Vec<Diagnostic>)
        ensures
            all_reported(found@) == self.on_fn(function, *body),
    {
        match self {
            LatePass::StorageWriteWithoutRead(pass) => pass.check_fn(body),
            LatePass::DeepContractRecursion(pass) => {
                let mut found: Vec<Diagnostic> = Vec::new();
                if let Some(diagnostic) = pass.check_fn(function, body) {
                    found.push(diagnostic);
                }
                assert(all_reported(found@) =~= self.on_fn(function, *body));
                found
            },
            _ => {
                let found: Vec<Diagnostic> = Vec::new();
                assert(all_reported(found@) =~= self.on_fn(function, *body));
                found
            },
        }
    }
}

/// The lints and passes that are registered with the compiler.
pub struct LintStore {
    pub lints: Vec<Lint>,
    pub late_passes: Vec<LatePass>,
}

/// The lints of the metadata.
pub open spec fn metadata_lints() -> Seq<Lint> {
    metadata().map_values(|entry: crate::lint::LintMetadata| entry.lint)
}

/// All passes, in the order in which they are registered.
pub open spec fn all_passes() -> Seq<LatePass> {
    seq![
        LatePass::SorobanStorageInLoop(SorobanStorageInLoop),
        LatePass::RedundantEnvClone(RedundantEnvClone),
        LatePass::UnnecessaryHostFunctionCall(UnnecessaryHostFunctionCall),
        LatePass::HostInLoop(HostInLoop),
        LatePass::SymbolNewForShortLiteral(SymbolNewForShortLiteral),
        LatePass::StorageWriteWithoutRead(StorageWriteWithoutRead),
        LatePass::InefficientBytesConcat(InefficientBytesConcat),
        LatePass::MapInsertInLoop(MapInsertInLoop),
        LatePass::BytesAppendInLoop(BytesAppendInLoop),
        LatePass::DeepContractRecursion(DeepContractRecursion),
    ]
}

impl LintStore {
    pub fn new() -> (store: LintStore)
        ensures
            store.lints@ == Seq::<Lint>::empty(),
            store.late_passes@ == Seq::<LatePass>::empty(),
    {
        LintStore { lints: Vec::new(), late_passes: Vec::new() }
    }
}

/// Registers all lints and their passes. A lint can be registered once only.
pub fn register_lints(store: &mut LintStore)
    requires
        forall|lint: Lint| metadata_lints().contains(lint) ==> !old(store).lints@.contains(lint),
    ensures
        final(store).lints@ == old(store).lints@ + metadata_lints(),
        final(store).late_passes@ == old(store).late_passes@ + all_passes(),
{
    let list = lint_metadata();
    for i in 0..list.len()
        invariant
            list@ == metadata(),
            store.lints@ == old(store).lints@ + metadata_lints().take(i as int),
            store.late_passes@ == old(store).late_passes@,
    {
        store.lints.push(list[i].lint);
        assert(metadata_lints()[i as int] == list@[i as int].lint);
        assert(store.lints@ =~= old(store).lints@ + metadata_lints().take(i + 1));
    }
    assert(metadata_lints().take(list@.len() as int) =~= metadata_lints());
    store.late_passes.push(LatePass::SorobanStorageInLoop(SorobanStorageInLoop));
    store.late_passes.push(LatePass::RedundantEnvClone(RedundantEnvClone));
    store.late_passes.push(LatePass::UnnecessaryHostFunctionCall(UnnecessaryHostFunctionCall));
    store.late_passes.push(LatePass::HostInLoop(HostInLoop));
    store.late_passes.push(LatePass::SymbolNewForShortLiteral(SymbolNewForShortLiteral));
    store.late_passes.push(LatePass::StorageWriteWithoutRead(StorageWriteWithoutRead));
    store.late_passes.push(LatePass::InefficientBytesConcat(InefficientBytesConcat));
    store.late_passes.push(LatePass::MapInsertInLoop(MapInsertInLoop));
    store.late_passes.push(LatePass::BytesAppendInLoop(BytesAppendInLoop));
    store.late_passes.push(LatePass::DeepContractRecursion(DeepContractRecursion));
    assert(store.late_passes@ =~= old(store).late_passes@ + all_passes());
}

/// Registered lints and passes belong together: there is one pass for each lint
/// of the metadata, in the same order.
pub proof fn passes_follow_the_metadata()
    ensures
        all_passes().len() == metadata().len(),
        forall|i: int|
            0 <= i < all_passes().len() ==> (#[trigger] all_passes()[i]).for_lint()
                == metadata()[i].lint,
{
}

/// A pass reports under the lint that it is for, and no other.
pub proof fn passes_report_their_own_lint(
    pass: LatePass,
    cx: ExprContext,
    expr: Expr,
    function: u64,
    body: Body,
)
    ensures
        pass.on_expr(cx, expr) matches Some(report) ==> report.lint == pass.for_lint(),
        forall|i: int|
            0 <= i < pass.on_fn(function, body).len() ==> (#[trigger] pass.on_fn(
                function,
                body,
            )[i]).lint == pass.for_lint(),
{
    let writes = storage::storage_writes(body.exprs());
    let reads = storage::storage_reads(body.exprs());
    storage::reports_are_the_unread_writes(writes, reads);
    let reports = storage::unread_writes(writes, reads);
    assert forall|i: int| 0 <= i < reports.len() implies (#[trigger] reports[i]).lint
        == Lint::StorageWriteWithoutRead by {
        assert(reports.contains(reports[i]));
    }
}

/// A joined path ends with its last segment.
proof fn joined_ends_with_last(full: Seq<char>, segments: Seq<Seq<char>>)
    requires
        segments.len() > 0,
        path_matches(full, segments),
    ensures
        ends_with(full, segments.last()),
{
    let joined = join(segments, "::"@);
    let last = segments.last();
    if segments.len() > 1 {
        let front = join(segments.drop_last(), "::"@) + "::"@;
        assert(joined.subrange(joined.len() - last.len(), joined.len() as int) =~= last);
        assert(full.subrange(full.len() - last.len(), full.len() as int) =~= last);
    }
}

/// Two endings of one text agree, counted from the end.
proof fn endings_agree(full: Seq<char>, left: Seq<char>, right: Seq<char>, back: int)
    requires
        ends_with(full, left),
        ends_with(full, right),
        0 < back <= left.len(),
        back <= right.len(),
    ensures
        left[left.len() - back] == right[right.len() - back],
{
    assert(left[left.len() - back] == full[full.len() - back]);
    assert(right[right.len() - back] == full[full.len() - back]);
}

/// No type is both a storage type and a type on which calls into the host are
/// looked for, so no path stands for both.
proof fn storage_types_are_no_host_types(full: Seq<char>, i: int, segments: Seq<Seq<char>>)
    requires
        0 <= i < storage_types().len(),
        path_matches(full, storage_types()[i]),
        host_types().contains(segments) || segments == env_type(),
    ensures
        !path_matches(full, segments),
{
    reveal_strlit("Storage");
    reveal_strlit("Instance");
    reveal_strlit("Persistent");
    reveal_strlit("Temporary");
    reveal_strlit("Ledger");
    reveal_strlit("Crypto");
    reveal_strlit("CryptoHazmat");
    reveal_strlit("Bls12_381");
    reveal_strlit("Bn254");
    reveal_strlit("Prng");
    reveal_strlit("Events");
    reveal_strlit("Deployer");
    reveal_strlit("DeployerWithAddress");
    reveal_strlit("DeployerWithAsset");
    reveal_strlit("Env");
    if path_matches(full, segments) {
        let left = storage_types()[i].last();
        let right = segments.last();
        joined_ends_with_last(full, storage_types()[i]);
        joined_ends_with_last(full, segments);
        endings_agree(full, left, right, 1);
        endings_agree(full, left, right, 2);
    }
}

/// A storage operation in a loop is reported as such, and not as an unnecessary
/// host function call too.
pub proof fn storage_operations_are_no_host_calls(cx: ExprContext, expr: Expr)
    requires
        SorobanStorageInLoop::finding(cx, expr) is Some,
    ensures
        UnnecessaryHostFunctionCall::finding(cx, expr) is None,
{
    match expr.kind {
        ExprKind::MethodCall { method, receiver, args, .. } => {
            let full = receiver.ty.adt->0@;
            let i = choose|i: int|
                0 <= i < storage_types().len() && path_matches(full, #[trigger] storage_types()[i]);
            assert forall|j: int| 0 <= j < host_types().len() implies !path_matches(
                full,
                #[trigger] host_types()[j],
            ) by {
                storage_types_are_no_host_types(full, i, host_types()[j]);
            }
            storage_types_are_no_host_types(full, i, env_type());
        },
        _ => {},
    }
}

/// Outside of a loop, and in a closure that stands in one, nothing that is about
/// loops is reported but unnecessary host function calls; those are reported in
/// a loop or in a closure that is called repeatedly, and nowhere else.
pub proof fn loop_lints_need_a_loop(pass: LatePass, cx: ExprContext, expr: Expr)
    requires
        !(pass is RedundantEnvClone) && !(pass is SymbolNewForShortLiteral),
        pass.on_expr(cx, expr) is Some,
    ensures
        loop_or_closure_around(cx.enclosing) is Some,
        !(pass is UnnecessaryHostFunctionCall) ==> loop_around(cx.enclosing) is Some,
{
}

/// A pass reports on an expression or on a function what the lint that it runs
/// reports, and nothing besides.
pub proof fn passes_run_their_lints(
    pass: LatePass,
    cx: ExprContext,
    expr: Expr,
    function: u64,
    body: Body,
)
    ensures
        pass.on_expr(cx, expr) == match pass.for_lint() {
            Lint::SorobanStorageInLoop => SorobanStorageInLoop::finding(cx, expr),
            Lint::RedundantEnvClone => RedundantEnvClone::finding(cx, expr),
            Lint::UnnecessaryHostFunctionCall => UnnecessaryHostFunctionCall::finding(cx, expr),
            Lint::HostInLoop => HostInLoop::finding(cx, expr),
            Lint::SymbolNewForShortLiteral => SymbolNewForShortLiteral::finding(expr),
            Lint::InefficientBytesConcat => InefficientBytesConcat::finding(cx, expr),
            Lint::MapInsertInLoop => MapInsertInLoop::finding(cx, expr),
            Lint::BytesAppendInLoop => BytesAppendInLoop::finding(cx, expr),
            Lint::StorageWriteWithoutRead | Lint::DeepContractRecursion => None,
        },
        pass.for_lint() == Lint::StorageWriteWithoutRead ==> pass.on_fn(function, body)
            == StorageWriteWithoutRead::findings(body),
        pass.for_lint() == Lint::DeepContractRecursion ==> match DeepContractRecursion::finding(
            function,
            body,
        ) {
            Some(report) => pass.on_fn(function, body) == seq![report],
            None => pass.on_fn(function, body).len() == 0,
        },
        pass.for_lint() != Lint::StorageWriteWithoutRead && pass.for_lint()
            != Lint::DeepContractRecursion ==> pass.on_fn(function, body).len() == 0,
{
}

/// Each lint of the metadata is registered, under its own pass, in one order.
pub proof fn all_lints_have_their_pass(lint: Lint)
    ensures
        metadata_lints().contains(lint),
        metadata_lints().len() == 10,
        exists|i: int|
            {
                &&& 0 <= i < all_passes().len()
                &&& (#[trigger] all_passes()[i]).for_lint() == lint
                &&& metadata_lints()[i] == lint
            },
{
    crate::lint::every_lint_has_metadata(lint);
    let i = choose|i: int| 0 <= i < metadata().len() && (#[trigger] metadata()[i]).lint == lint;
    assert(metadata_lints()[i] == lint);
    passes_follow_the_metadata();
    assert(all_passes()[i].for_lint() == lint);
}

} // verus!
