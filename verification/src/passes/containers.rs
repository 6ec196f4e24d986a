//! Lints on the containers of the SDK.

use vstd::prelude::*;

use crate::hir::{BinOpKind, Expr, ExprKind};
use crate::lint::{reported, Diagnostic, DiagnosticView, Lint};
use crate::loops::{enclosing_loop, loop_around, ExprContext};
use crate::paths::{
    append_method, bytes_itself, container_types, is_append_method, is_bytes_type, map_type,
    peeled_type_in, peeled_type_is, soroban_container_types,
};
use crate::text::{same_text, str_texts};

verus! {

/// Reports containers that are grown in a loop.
#[derive(Clone, Copy)]
pub struct BytesAppendInLoop;

impl BytesAppendInLoop {
    /// What is reported on `expr`: a call of a method that grows a container of
    /// the SDK, inside a loop.
    pub open spec fn finding(cx: ExprContext, expr: Expr) -> Option<DiagnosticView> {
        match expr.kind {
            ExprKind::MethodCall { method, receiver, args, .. } => {
                if append_method(method@) && peeled_type_in(receiver.ty, container_types())
                    && loop_around(cx.enclosing) is Some {
                    Some(
                        DiagnosticView {
                            lint: Lint::BytesAppendInLoop,
                            span: expr.span,
                            message: "repeatedly growing SDK container inside a loop"@,
                            help: "accumulate values in native Rust collections first, then batch host operations or convert to SDK containers once after the loop; pre-size where practical"@,
                            replacement: None,
                        },
                    )
                } else {
                    None
                }
            },
            _ => None,
        }
    }

    pub fn check_expr(&self, cx: &ExprContext, expr: &Expr) -> (found: Option<Diagnostic>)
        ensures
            reported(found) == Self::finding(*cx, *expr),
    {
        match &expr.kind {
            ExprKind::MethodCall { method, receiver, .. } => {
                if !is_append_method(method.as_str()) {
                    return None;
                }
                if receiver.ty.is_one_of(&soroban_container_types()) && enclosing_loop(
                    cx.enclosing,
                ).is_some() {
                    Some(
                        Diagnostic {
                            lint: Lint::BytesAppendInLoop,
                            span: expr.span,
                            message: "repeatedly growing SDK container inside a loop",
                            help: "accumulate values in native Rust collections first, then batch host operations or convert to SDK containers once after the loop; pre-size where practical",
                            replacement: None,
                        },
                    )
                } else {
                    None
                }
            },
            _ => None,
        }
    }
}

/// Reports byte strings that are concatenated with `+` in a loop.
#[derive(Clone, Copy)]
pub struct InefficientBytesConcat;

impl InefficientBytesConcat {
    /// What is reported on `expr`: an addition inside a loop of which either
    /// side is the SDK's `Bytes`.
    pub open spec fn finding(cx: ExprContext, expr: Expr) -> Option<DiagnosticView> {
        match expr.kind {
            ExprKind::Binary { op, left, right } => {
                if op == BinOpKind::Add && (bytes_itself(left.ty) || bytes_itself(right.ty))
                    && loop_around(cx.enclosing) is Some {
                    Some(
                        DiagnosticView {
                            lint: Lint::InefficientBytesConcat,
                            span: expr.span,
                            message: "inefficient bytes concatenation in a loop"@,
                            help: "use a Vec<u8> buffer to accumulate bytes and convert to Bytes after the loop"@,
                            replacement: None,
                        },
                    )
                } else {
                    None
                }
            },
            _ => None,
        }
    }

    pub fn check_expr(&self, cx: &ExprContext, expr: &Expr) -> (found: Option<Diagnostic>)
        ensures
            reported(found) == Self::finding(*cx, *expr),
    {
        match &expr.kind {
            ExprKind::Binary { op, left, right } => {
                let is_add = match op {
                    BinOpKind::Add => true,
                    BinOpKind::Other => false,
                };
                if !is_add {
                    return None;
                }
                let is_bytes = is_bytes_type(&left.ty) || is_bytes_type(&right.ty);
                let is_in_loop = enclosing_loop(cx.enclosing).is_some();
                if is_bytes && is_in_loop {
                    Some(
                        Diagnostic {
                            lint: Lint::InefficientBytesConcat,
                            span: expr.span,
                            message: "inefficient bytes concatenation in a loop",
                            help: "use a Vec<u8> buffer to accumulate bytes and convert to Bytes after the loop",
                            replacement: None,
                        },
                    )
                } else {
                    None
                }
            },
            _ => None,
        }
    }
}

/// Reports insertions into the SDK's `Map` in a loop.
#[derive(Clone, Copy)]
pub struct MapInsertInLoop;

impl MapInsertInLoop {
    /// What is reported on `expr`: `insert` called on the SDK's `Map`, inside a
    /// loop.
    pub open spec fn finding(cx: ExprContext, expr: Expr) -> Option<DiagnosticView> {
        match expr.kind {
            ExprKind::MethodCall { method, receiver, args, .. } => {
                if method@ == "insert"@ && peeled_type_is(receiver.ty, map_type()) && loop_around(
                    cx.enclosing,
                ) is Some {
                    Some(
                        DiagnosticView {
                            lint: Lint::MapInsertInLoop,
                            span: expr.span,
                            message: "Map::insert inside a loop is expensive"@,
                            help: "accumulate mutations in memory first and write once after the loop"@,
                            replacement: None,
                        },
                    )
                } else {
                    None
                }
            },
            _ => None,
        }
    }

    pub fn check_expr(&self, cx: &ExprContext, expr: &Expr) -> (found: Option<Diagnostic>)
        ensures
            reported(found) == Self::finding(*cx, *expr),
    {
        match &expr.kind {
            ExprKind::MethodCall { method, receiver, .. } => {
                if !same_text(method.as_str(), "insert") {
                    return None;
                }
                let segments: [&str; 2] = ["soroban_sdk", "Map"];
                assert(str_texts(segments@) =~= map_type());
                if receiver.ty.is_item(&segments) && enclosing_loop(cx.enclosing).is_some() {
                    Some(
                        Diagnostic {
                            lint: Lint::MapInsertInLoop,
                            span: expr.span,
                            message: "Map::insert inside a loop is expensive",
                            help: "accumulate mutations in memory first and write once after the loop",
                            replacement: None,
                        },
                    )
                } else {
                    None
                }
            },
            _ => None,
        }
    }
}

/// An insertion into a map is one of the ways to grow a container: wherever the
/// former is reported, the latter is reported too, at the same place.
pub proof fn map_insertions_grow_a_container(cx: ExprContext, expr: Expr)
    requires
        MapInsertInLoop::finding(cx, expr) is Some,
    ensures
        BytesAppendInLoop::finding(cx, expr) is Some,
        BytesAppendInLoop::finding(cx, expr)->0.span == MapInsertInLoop::finding(cx, expr)->0.span,
{
    assert(container_types()[2] == map_type());
}

/// A method call is reported exactly where it is one of these four, on a container
/// type, and the nearest thing around it that repeats is a loop.
pub proof fn growing_containers_in_loops_is_reported(cx: ExprContext, expr: Expr)
    ensures
        BytesAppendInLoop::finding(cx, expr) is Some <==> ({
            &&& expr.kind matches ExprKind::MethodCall { method, receiver, .. }
            &&& {
                ||| method@ == "append"@
                ||| method@ == "push_back"@
                ||| method@ == "insert"@
                ||| method@ == "extend_from_array"@
            }
            &&& peeled_type_in(receiver.ty, container_types())
            &&& cx.enclosing matches Some(around)
            &&& around.kind is Loop
        }),
        BytesAppendInLoop::finding(cx, expr) matches Some(report) ==> {
            &&& report.lint == Lint::BytesAppendInLoop
            &&& report.span == expr.span
            &&& report.message == "repeatedly growing SDK container inside a loop"@
            &&& report.help
                == "accumulate values in native Rust collections first, then batch host operations or convert to SDK containers once after the loop; pre-size where practical"@
            &&& report.replacement is None
        },
{
}

/// A binary expression is reported exactly where it is an addition with `Bytes` on
/// either side and the nearest thing around it that repeats is a loop.
pub proof fn adding_bytes_in_loops_is_reported(cx: ExprContext, expr: Expr)
    ensures
        InefficientBytesConcat::finding(cx, expr) is Some <==> ({
            &&& expr.kind matches ExprKind::Binary { op, left, right }
            &&& op == BinOpKind::Add
            &&& bytes_itself(left.ty) || bytes_itself(right.ty)
            &&& cx.enclosing matches Some(around)
            &&& around.kind is Loop
        }),
        InefficientBytesConcat::finding(cx, expr) matches Some(report) ==> {
            &&& report.lint == Lint::InefficientBytesConcat
            &&& report.span == expr.span
            &&& report.message == "inefficient bytes concatenation in a loop"@
            &&& report.help
                == "use a Vec<u8> buffer to accumulate bytes and convert to Bytes after the loop"@
            &&& report.replacement is None
        },
{
}

/// A method call is reported exactly where it is `insert` on the SDK's `Map` and
/// the nearest thing around it that repeats is a loop.
pub proof fn insertions_into_maps_in_loops_are_reported(cx: ExprContext, expr: Expr)
    ensures
        MapInsertInLoop::finding(cx, expr) is Some <==> ({
            &&& expr.kind matches ExprKind::MethodCall { method, receiver, .. }
            &&& method@ == "insert"@
            &&& peeled_type_is(receiver.ty, map_type())
            &&& cx.enclosing matches Some(around)
            &&& around.kind is Loop
        }),
        MapInsertInLoop::finding(cx, expr) matches Some(report) ==> {
            &&& report.lint == Lint::MapInsertInLoop
            &&& report.span == expr.span
            &&& report.message == "Map::insert inside a loop is expensive"@
            &&& report.help == "accumulate mutations in memory first and write once after the loop"@
            &&& report.replacement is None
        },
{
}

} // verus!
