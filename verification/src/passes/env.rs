//! Lints on the contract environment.

use vstd::prelude::*;

use crate::hir::{Expr, ExprKind, Res};
use crate::lint::{reported, Diagnostic, DiagnosticView, Lint};
use crate::loops::ExprContext;
use crate::paths::{env_type, peeled_type_is};
use crate::text::same_text;

verus! {

/// Reports clones of an `Env` that is not needed afterwards.
#[derive(Clone, Copy)]
pub struct RedundantEnvClone;

impl RedundantEnvClone {
    /// What is reported on `expr`: `clone` called on a local variable that is an
    /// `Env` and is not used after the call. A clone of a reference makes an
    /// owned `Env` and is needed; of a receiver that is no local variable it is
    /// not known whether it is used again.
    pub open spec fn finding(cx: ExprContext, expr: Expr) -> Option<DiagnosticView> {
        match expr.kind {
            ExprKind::MethodCall { method, receiver, args, .. } => {
                if method@ == "clone"@ && peeled_type_is(receiver.ty, env_type())
                    && receiver.ty.references == 0 && receiver.local() is Some
                    && !cx.receiver_used_after {
                    Some(
                        DiagnosticView {
                            lint: Lint::RedundantEnvClone,
                            span: expr.span,
                            message: "redundant clone on Env object"@,
                            help: "pass Env by reference or value instead of cloning"@,
                            replacement: None,
                        },
                    )
                } else {
                    None
                }
            },
            _ => None,
        }
    }

    pub fn check_expr(&self, cx: &ExprContext, expr: &Expr) -> (found: Option<Diagnostic>)
        ensures
            reported(found) == Self::finding(*cx, *expr),
    {
        match &expr.kind {
            ExprKind::MethodCall { method, receiver, .. } => {
                if !same_text(method.as_str(), "clone") || !receiver.ty.is_env() {
                    return None;
                }
                if receiver.ty.references > 0 {
                    return None;
                }
                match &receiver.kind {
                    ExprKind::Path(Res::Local(_)) => {
                        if cx.receiver_used_after {
                            return None;
                        }
                    },
                    _ => {
                        return None;
                    },
                }
                Some(
                    Diagnostic {
                        lint: Lint::RedundantEnvClone,
                        span: expr.span,
                        message: "redundant clone on Env object",
                        help: "pass Env by reference or value instead of cloning",
                        replacement: None,
                    },
                )
            },
            _ => None,
        }
    }
}

/// A clone that may be needed is not reported: one of a reference, one of a
/// variable that is used afterwards, and one of anything but a local variable.
pub proof fn needed_clones_are_not_reported(cx: ExprContext, expr: Expr)
    requires
        expr.kind is MethodCall,
        ({
            let receiver = *expr.kind->MethodCall_receiver;
            receiver.ty.references > 0 || cx.receiver_used_after || receiver.local() is None
        }),
    ensures
        RedundantEnvClone::finding(cx, expr) is None,
{
}

/// A method call is reported exactly where it is `clone` on a local variable whose
/// type is `Env` itself and which is not used after the call.
pub proof fn clones_of_unused_envs_are_reported(cx: ExprContext, expr: Expr)
    ensures
        RedundantEnvClone::finding(cx, expr) is Some <==> ({
            &&& expr.kind matches ExprKind::MethodCall { method, receiver, .. }
            &&& method@ == "clone"@
            &&& peeled_type_is(receiver.ty, env_type())
            &&& receiver.ty.references == 0
            &&& receiver.kind matches ExprKind::Path(Res::Local(_))
            &&& !cx.receiver_used_after
        }),
        RedundantEnvClone::finding(cx, expr) matches Some(report) ==> {
            &&& report.lint == Lint::RedundantEnvClone
            &&& report.span == expr.span
            &&& report.message == "redundant clone on Env object"@
            &&& report.help == "pass Env by reference or value instead of cloning"@
            &&& report.replacement is None
        },
{
}

} // verus!
