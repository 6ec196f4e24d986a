//! Lints on calls into the host.

use vstd::prelude::*;

use crate::hir::{Expr, ExprKind, Ty};
use crate::lint::{reported, Diagnostic, DiagnosticView, Lint};
use crate::loops::{
    depends_on_loop_state, enclosing_loop, enclosing_loop_or_closure, loop_around, loop_dependent,
    loop_or_closure_around, names_changed, set_view, ExprContext,
};
use crate::paths::{
    env_host_method, env_type, host_object_type, host_types, is_env_host_method, peeled_type_in,
    peeled_type_is, soroban_host_types,
};
use crate::text::str_texts;

verus! {

/// Reports host function calls that a loop repeats with unchanged inputs.
#[derive(Clone, Copy)]
pub struct UnnecessaryHostFunctionCall;

/// Whether calling `method` on a value of type `ty` calls into the host.
pub open spec fn host_function(ty: Ty, method: Seq<char>) -> bool {
    ||| peeled_type_in(ty, host_types())
    ||| peeled_type_is(ty, env_type()) && env_host_method(method)
}

impl UnnecessaryHostFunctionCall {
    /// What is reported on `expr`: a host function call in a loop, or in a
    /// closure that is called repeatedly, that reads nothing that the loop
    /// changes.
    pub open spec fn finding(cx: ExprContext, expr: Expr) -> Option<DiagnosticView> {
        match (expr.kind, loop_or_closure_around(cx.enclosing)) {
            (ExprKind::MethodCall { method, receiver, args, .. }, Some(loop_expr)) => {
                if host_function(receiver.ty, method@) && !loop_dependent(
                    set_view(cx.mutated),
                    loop_expr,
                    expr,
                ) {
                    Some(
                        DiagnosticView {
                            lint: Lint::UnnecessaryHostFunctionCall,
                            span: expr.span,
                            message: "unnecessary host function call inside loop"@,
                            help: "call this function outside the loop and reuse the result"@,
                            replacement: None,
                        },
                    )
                } else {
                    None
                }
            },
            _ => None,
        }
    }

    pub fn check_expr(&self, cx: &ExprContext, expr: &Expr) -> (found: Option<Diagnostic>)
        ensures
            reported(found) == Self::finding(*cx, *expr),
    {
        match &expr.kind {
            ExprKind::MethodCall { method, receiver, .. } => {
                let is_host_function = receiver.ty.is_one_of(&soroban_host_types()) || (
                receiver.ty.is_env() && is_env_host_method(method.as_str()));
                if !is_host_function {
                    return None;
                }
                match enclosing_loop_or_closure(cx.enclosing) {
                    Some(loop_expr) => {
                        if depends_on_loop_state(cx.mutated, loop_expr, expr) {
                            return None;
                        }
                        Some(
                            Diagnostic {
                                lint: Lint::UnnecessaryHostFunctionCall,
                                span: expr.span,
                                message: "unnecessary host function call inside loop",
                                help: "call this function outside the loop and reuse the result",
                                replacement: None,
                            },
                        )
                    },
                    None => None,
                }
            },
            _ => None,
        }
    }
}

/// Reports uses of the host object in a loop.
#[derive(Clone, Copy)]
pub struct HostInLoop;

impl HostInLoop {
    /// What is reported on `expr`: a method call on the host object, inside a
    /// loop.
    pub open spec fn finding(cx: ExprContext, expr: Expr) -> Option<DiagnosticView> {
        match expr.kind {
            ExprKind::MethodCall { method, receiver, args, .. } => {
                if peeled_type_is(receiver.ty, host_object_type()) && loop_around(
                    cx.enclosing,
                ) is Some {
                    Some(
                        DiagnosticView {
                            lint: Lint::HostInLoop,
                            span: expr.span,
                            message: "use of Host object inside a loop"@,
                            help: "consider moving the Host usage outside the loop if possible"@,
                            replacement: None,
                        },
                    )
                } else {
                    None
                }
            },
            _ => None,
        }
    }

    pub fn check_expr(&self, cx: &ExprContext, expr: &Expr) -> (found: Option<Diagnostic>)
        ensures
            reported(found) == Self::finding(*cx, *expr),
    {
        match &expr.kind {
            ExprKind::MethodCall { receiver, .. } => {
                let segments: [&str; 2] = ["host", "Host"];
                assert(str_texts(segments@) =~= host_object_type());
                if receiver.ty.is_item(&segments) && enclosing_loop(cx.enclosing).is_some() {
                    Some(
                        Diagnostic {
                            lint: Lint::HostInLoop,
                            span: expr.span,
                            message: "use of Host object inside a loop",
                            help: "consider moving the Host usage outside the loop if possible",
                            replacement: None,
                        },
                    )
                } else {
                    None
                }
            },
            _ => None,
        }
    }
}

/// Where the analysis of mutations has no verdict, no host function call is
/// reported as unnecessary.
pub proof fn no_verdict_no_report(cx: ExprContext, expr: Expr)
    requires
        cx.mutated is None,
    ensures
        UnnecessaryHostFunctionCall::finding(cx, expr) is None,
{
}

/// A call that reads a variable that the loop around it binds, or that is
/// mutated in it, is not reported as unnecessary.
pub proof fn loop_state_is_respected(cx: ExprContext, expr: Expr, i: int)
    requires
        cx.enclosing is Some,
        0 <= i < expr.exprs().len(),
        expr.exprs()[i].local() is Some,
        ({
            let id = expr.exprs()[i].local()->0;
            ||| cx.enclosing->0.bindings().contains(id)
            ||| cx.mutated is Some && cx.mutated->0@.contains(id)
        }),
    ensures
        UnnecessaryHostFunctionCall::finding(cx, expr) is None,
{
    match set_view(cx.mutated) {
        Some(ids) => {
            assert(names_changed(expr.exprs()[i], *cx.enclosing->0, ids));
        },
        None => {},
    }
}

/// A method call is reported exactly where it calls into the host, on a type that
/// gives access to it or as `current_contract_address` on `Env`, in a loop or a
/// closure that is called repeatedly, and does not depend on what that changes.
pub proof fn repeated_host_calls_are_reported(cx: ExprContext, expr: Expr)
    ensures
        UnnecessaryHostFunctionCall::finding(cx, expr) is Some <==> ({
            &&& expr.kind matches ExprKind::MethodCall { method, receiver, .. }
            &&& peeled_type_in(receiver.ty, host_types()) || (peeled_type_is(
                receiver.ty,
                env_type(),
            ) && method@ == "current_contract_address"@)
            &&& cx.enclosing matches Some(around)
            &&& around.kind is Loop || around.kind is Closure
            &&& !loop_dependent(set_view(cx.mutated), *around, expr)
        }),
        UnnecessaryHostFunctionCall::finding(cx, expr) matches Some(report) ==> {
            &&& report.lint == Lint::UnnecessaryHostFunctionCall
            &&& report.span == expr.span
            &&& report.message == "unnecessary host function call inside loop"@
            &&& report.help == "call this function outside the loop and reuse the result"@
            &&& report.replacement is None
        },
{
}

/// A method call is reported exactly where its receiver is the host object and the
/// nearest thing around it that repeats is a loop.
pub proof fn uses_of_the_host_in_loops_are_reported(cx: ExprContext, expr: Expr)
    ensures
        HostInLoop::finding(cx, expr) is Some <==> ({
            &&& expr.kind matches ExprKind::MethodCall { method, receiver, .. }
            &&& peeled_type_is(receiver.ty, host_object_type())
            &&& cx.enclosing matches Some(around)
            &&& around.kind is Loop
        }),
        HostInLoop::finding(cx, expr) matches Some(report) ==> {
            &&& report.lint == Lint::HostInLoop
            &&& report.span == expr.span
            &&& report.message == "use of Host object inside a loop"@
            &&& report.help == "consider moving the Host usage outside the loop if possible"@
            &&& report.replacement is None
        },
{
}

} // verus!
