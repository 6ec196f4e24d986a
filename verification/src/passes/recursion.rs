//! Lints on recursion.

use vstd::prelude::*;

use crate::hir::{
    bodies_hold_what_is_reached, reached, Body, Expr, ExprKind, Node, Res, SourceSpan,
};
use crate::lint::{reported, Diagnostic, DiagnosticView, Lint};

verus! {

/// Reports functions that call themselves.
#[derive(Clone, Copy)]
pub struct DeepContractRecursion;

/// Whether `expr` is a call of the function `function`, by its path or as a
/// method.
pub open spec fn calls(expr: Expr, function: u64) -> bool {
    match expr.kind {
        ExprKind::Call { callee, args } => callee.definition() == Some(function),
        ExprKind::MethodCall { definition, .. } => definition == Some(function),
        _ => false,
    }
}

fn is_call(expr: &Expr, function: u64) -> (found: bool)
    ensures
        found == calls(*expr, function),
{
    match &expr.kind {
        ExprKind::Call { callee, .. } => match &callee.kind {
            ExprKind::Path(Res::Def { id, .. }) => *id == function,
            _ => false,
        },
        ExprKind::MethodCall { definition, .. } => match definition {
            Some(id) => *id == function,
            None => false,
        },
        _ => false,
    }
}

/// The place of the first of `exprs` from `from` on that is a call of `function`.
pub open spec fn first_call(exprs: Seq<Expr>, function: u64, from: int) -> Option<SourceSpan>
    decreases exprs.len() - from,
{
    if from < 0 || from >= exprs.len() {
        None
    } else if calls(exprs[from], function) {
        Some(exprs[from].span)
    } else {
        first_call(exprs, function, from + 1)
    }
}

/// Finds the first call of a function.
struct RecursionFinder {
    function: u64,
    span: Option<SourceSpan>,
}

impl RecursionFinder {
    fn visit_body(&mut self, body: &Body)
        requires
            old(self).span is None,
        ensures
            final(self).function == old(self).function,
            final(self).span == first_call(body.exprs(), old(self).function, 0),
    {
        let exprs = body.walk();
        for i in 0..exprs.len()
            invariant
                exprs@.unref() == body.exprs(),
                self.function == old(self).function,
                self.span is None,
                first_call(body.exprs(), self.function, 0) == first_call(
                    body.exprs(),
                    self.function,
                    i as int,
                ),
        {
            let expr = exprs[i];
            assert(*expr == body.exprs()[i as int]) by {
                assert(exprs@.unref()[i as int] == *exprs@[i as int]);
            }
            if is_call(expr, self.function) {
                self.span = Some(expr.span);
                return ;
            }
        }
    }
}

impl DeepContractRecursion {
    /// What is reported on the function `function`: the first call of itself in
    /// its body. A call of another function that calls `function` in turn is not
    /// reported, and neither is one in a closure.
    pub open spec fn finding(function: u64, body: Body) -> Option<DiagnosticView> {
        match first_call(body.exprs(), function, 0) {
            Some(span) => Some(
                DiagnosticView {
                    lint: Lint::DeepContractRecursion,
                    span,
                    message: "direct recursion detected in contract function"@,
                    help: "avoid recursion in Soroban contract functions — the Wasm call stack is limited and each recursive call consumes CPU budget; consider using an iterative loop instead"@,
                    replacement: None,
                },
            ),
            None => None,
        }
    }

    pub fn check_fn(&self, function: u64, body: &Body) -> (found: Option<Diagnostic>)
        ensures
            reported(found) == Self::finding(function, *body),
    {
        let mut finder = RecursionFinder { function, span: None };
        finder.visit_body(body);
        match finder.span {
            Some(span) => Some(
                Diagnostic {
                    lint: Lint::DeepContractRecursion,
                    span,
                    message: "direct recursion detected in contract function",
                    help: "avoid recursion in Soroban contract functions — the Wasm call stack is limited and each recursive call consumes CPU budget; consider using an iterative loop instead",
                    replacement: None,
                },
            ),
            None => None,
        }
    }
}

proof fn first_call_is_first(exprs: Seq<Expr>, function: u64, from: int)
    requires
        0 <= from,
    ensures
        match first_call(exprs, function, from) {
            Some(span) => exists|i: int|
                {
                    &&& from <= i < exprs.len()
                    &&& calls(#[trigger] exprs[i], function)
                    &&& span == exprs[i].span
                    &&& forall|j: int| from <= j < i ==> !calls(#[trigger] exprs[j], function)
                },
            None => forall|i: int|
                from <= i < exprs.len() ==> !calls(#[trigger] exprs[i], function),
        },
    decreases exprs.len() - from,
{
    if from < exprs.len() {
        if calls(exprs[from], function) {
            assert(exprs[from].span == first_call(exprs, function, from)->0);
        } else {
            first_call_is_first(exprs, function, from + 1);
        }
    }
}

/// A function is reported exactly where a call of itself stands in its body, and
/// what is reported is the first such call.
pub proof fn direct_recursion_is_reported(function: u64, body: Body)
    ensures
        DeepContractRecursion::finding(function, body) is Some <==> exists|i: int|
            0 <= i < body.exprs().len() && calls(#[trigger] body.exprs()[i], function),
        DeepContractRecursion::finding(function, body) matches Some(report) ==> exists|i: int|
            {
                &&& 0 <= i < body.exprs().len()
                &&& calls(#[trigger] body.exprs()[i], function)
                &&& report.span == body.exprs()[i].span
                &&& forall|j: int| 0 <= j < i ==> !calls(#[trigger] body.exprs()[j], function)
            },
{
    first_call_is_first(body.exprs(), function, 0);
}

/// An expression calls a function exactly where it is a call of a path that leads
/// to the function, or a call of a method that is the function.
pub proof fn calls_are_by_path_or_as_method(expr: Expr, function: u64)
    ensures
        calls(expr, function) <==> {
            ||| expr.kind matches ExprKind::Call { callee, .. } && callee.kind
                matches ExprKind::Path(Res::Def { id, .. }) && id == function
            ||| expr.kind matches ExprKind::MethodCall { definition: Some(id), .. } && id == function
        },
{
}

/// A function that calls itself anywhere in its body, however deep, is reported;
/// the report is on a call of itself and says so.
pub proof fn recursion_at_any_depth_is_reported(
    function: u64,
    body: Body,
    call: Expr,
    steps: nat,
)
    requires
        calls(call, function),
        reached(Node::Expr(body.value), Node::Expr(call), steps),
    ensures
        DeepContractRecursion::finding(function, body) matches Some(report) && {
            &&& report.lint == Lint::DeepContractRecursion
            &&& report.message == "direct recursion detected in contract function"@
            &&& report.help
                == "avoid recursion in Soroban contract functions — the Wasm call stack is limited and each recursive call consumes CPU budget; consider using an iterative loop instead"@
            &&& report.replacement is None
        },
{
    bodies_hold_what_is_reached(body, call);
    let i = choose|i: int| 0 <= i < body.exprs().len() && body.exprs()[i] == call;
    assert(calls(body.exprs()[i], function));
    direct_recursion_is_reported(function, body);
}

} // verus!
