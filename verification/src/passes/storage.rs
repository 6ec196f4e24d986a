//! Lints on storage accesses.

use vstd::prelude::*;

use crate::hir::{list_exprs, Body, Expr, ExprKind, SourceSpan};
use crate::lint::{all_reported, reported, Diagnostic, DiagnosticView, Lint};
use crate::loops::{enclosing_loop, loop_around, ExprContext};
use crate::paths::{peeled_type_in, soroban_storage_types, storage_types};
use crate::text::same_text;

verus! {

/// Reports storage operations inside a loop.
#[derive(Clone, Copy)]
pub struct SorobanStorageInLoop;

/// Whether `method` of a storage type reads from the storage.
pub open spec fn read_method(method: Seq<char>) -> bool {
    method == "get"@ || method == "has"@
}

/// Whether `method` of a storage type writes to the storage.
pub open spec fn write_method(method: Seq<char>) -> bool {
    method == "set"@
}

/// What to do about a storage operation in a loop. Writes can be buffered and
/// flushed once after the loop; a read cannot be accumulated, but a
/// loop-invariant one can be hoisted.
pub open spec fn storage_advice(method: Seq<char>) -> Seq<char> {
    if read_method(method) {
        "if the read is loop-invariant, hoist it out of the loop; otherwise batch where possible"@
    } else {
        "move storage operations out of the loop or accumulate mutations in memory first"@
    }
}

impl SorobanStorageInLoop {
    /// What is reported on `expr`: a call of `get`, `has` or `set` on a storage
    /// type, inside a loop. The calls that lead to the storage (`storage`,
    /// `instance`, ...) are not reported, so that a chain of calls is reported
    /// once, for the operation that crosses the host boundary.
    pub open spec fn finding(cx: ExprContext, expr: Expr) -> Option<DiagnosticView> {
        match expr.kind {
            ExprKind::MethodCall { method, receiver, args, .. } => {
                if (read_method(method@) || write_method(method@)) && peeled_type_in(
                    receiver.ty,
                    storage_types(),
                ) && loop_around(cx.enclosing) is Some {
                    Some(
                        DiagnosticView {
                            lint: Lint::SorobanStorageInLoop,
                            span: expr.span,
                            message: "storage operation inside a loop"@,
                            help: storage_advice(method@),
                            replacement: None,
                        },
                    )
                } else {
                    None
                }
            },
            _ => None,
        }
    }

    pub fn check_expr(&self, cx: &ExprContext, expr: &Expr) -> (found: Option<Diagnostic>)
        ensures
            reported(found) == Self::finding(*cx, *expr),
    {
        match &expr.kind {
            ExprKind::MethodCall { method, receiver, .. } => {
                let is_read = same_text(method.as_str(), "get") || same_text(method.as_str(), "has");
                let is_terminal = is_read || same_text(method.as_str(), "set");
                if is_terminal && receiver.ty.is_one_of(&soroban_storage_types())
                    && enclosing_loop(cx.enclosing).is_some() {
                    let help = if is_read {
                        "if the read is loop-invariant, hoist it out of the loop; otherwise batch where possible"
                    } else {
                        "move storage operations out of the loop or accumulate mutations in memory first"
                    };
                    Some(
                        Diagnostic {
                            lint: Lint::SorobanStorageInLoop,
                            span: expr.span,
                            message: "storage operation inside a loop",
                            help,
                            replacement: None,
                        },
                    )
                } else {
                    None
                }
            },
            _ => None,
        }
    }
}

/// Reports storage writes in functions that do not read what they write.
#[derive(Clone, Copy)]
pub struct StorageWriteWithoutRead;

/// The source text of an expression, empty where there is none.
pub open spec fn snippet_text(expr: Expr) -> Seq<char> {
    match expr.snippet {
        Some(snippet) => snippet@,
        None => Seq::empty(),
    }
}

/// The storage and the key, as they are written, that `expr` reads, if it is a
/// read.
pub open spec fn storage_read(expr: Expr) -> Option<(Seq<char>, Seq<char>)> {
    match expr.kind {
        ExprKind::MethodCall { method, receiver, args, .. } => {
            if peeled_type_in(receiver.ty, storage_types()) && read_method(method@) && args@.len()
                > 0 {
                Some((snippet_text(*receiver), snippet_text(args@[0])))
            } else {
                None
            }
        },
        _ => None,
    }
}

/// The storage and the key, as they are written, that `expr` writes, and the
/// place of the call, if it is a write.
pub open spec fn storage_write(expr: Expr) -> Option<(Seq<char>, Seq<char>, SourceSpan)> {
    match expr.kind {
        ExprKind::MethodCall { method, receiver, args, call_span, .. } => {
            if peeled_type_in(receiver.ty, storage_types()) && write_method(method@) && args@.len()
                >= 2 {
                Some((snippet_text(*receiver), snippet_text(args@[0]), call_span))
            } else {
                None
            }
        },
        _ => None,
    }
}

/// What `exprs` read from storages, in order.
pub open spec fn storage_reads(exprs: Seq<Expr>) -> Seq<(Seq<char>, Seq<char>)>
    decreases exprs.len(),
{
    if exprs.len() == 0 {
        Seq::empty()
    } else {
        match storage_read(exprs.last()) {
            Some(read) => storage_reads(exprs.drop_last()).push(read),
            None => storage_reads(exprs.drop_last()),
        }
    }
}

/// What `exprs` write to storages, in order.
pub open spec fn storage_writes(exprs: Seq<Expr>) -> Seq<(Seq<char>, Seq<char>, SourceSpan)>
    decreases exprs.len(),
{
    if exprs.len() == 0 {
        Seq::empty()
    } else {
        match storage_write(exprs.last()) {
            Some(write) => storage_writes(exprs.drop_last()).push(write),
            None => storage_writes(exprs.drop_last()),
        }
    }
}

/// The report on a write that is not read.
pub open spec fn unread_write(span: SourceSpan) -> DiagnosticView {
    DiagnosticView {
        lint: Lint::StorageWriteWithoutRead,
        span,
        message: "storage write without a corresponding read"@,
        help: "consider reading the value before writing or using `.has()` to check existence"@,
        replacement: None,
    }
}

/// The reports on those of `writes` that are not among `reads`, in order.
pub open spec fn unread_writes(
    writes: Seq<(Seq<char>, Seq<char>, SourceSpan)>,
    reads: Seq<(Seq<char>, Seq<char>)>,
) -> Seq<DiagnosticView>
    decreases writes.len(),
{
    if writes.len() == 0 {
        Seq::empty()
    } else {
        let earlier = unread_writes(writes.drop_last(), reads);
        let (receiver, key, span) = writes.last();
        if reads.contains((receiver, key)) {
            earlier
        } else {
            earlier.push(unread_write(span))
        }
    }
}

/// The texts of a storage and a key.
pub open spec fn access_view(access: (String, String)) -> (Seq<char>, Seq<char>) {
    (access.0@, access.1@)
}

/// The texts of a storage and a key, and the place of the call.
pub open spec fn write_view(write: (String, String, SourceSpan)) -> (
    Seq<char>,
    Seq<char>,
    SourceSpan,
) {
    (write.0@, write.1@, write.2)
}

fn snippet_of(expr: &Expr) -> (snippet: String)
    ensures
        snippet@ == snippet_text(*expr),
{
    match &expr.snippet {
        Some(snippet) => snippet.clone(),
        None => String::new(),
    }
}

/// Collects the reads from storages.
struct ReadVisitor {
    reads: Vec<(String, String)>,
}

impl ReadVisitor {
    spec fn accesses(self) -> Seq<(Seq<char>, Seq<char>)> {
        self.reads@.map_values(|access: (String, String)| access_view(access))
    }

    fn visit_body(&mut self, body: &Body)
        requires
            old(self).reads@.len() == 0,
        ensures
            final(self).accesses() == storage_reads(body.exprs()),
    {
        let exprs = body.walk();
        assert(self.accesses() =~= Seq::empty());
        for i in 0..exprs.len()
            invariant
                exprs@.unref() == body.exprs(),
                self.accesses() == storage_reads(body.exprs().take(i as int)),
        {
            let expr = exprs[i];
            let ghost before = self.accesses();
            proof {
                let seen = body.exprs().take(i + 1);
                assert(seen.last() == *expr) by {
                    assert(exprs@.unref()[i as int] == *exprs@[i as int]);
                }
                assert(seen.drop_last() =~= body.exprs().take(i as int));
            }
            if let ExprKind::MethodCall { method, receiver, args, .. } = &expr.kind {
                let is_storage = receiver.ty.is_one_of(&soroban_storage_types());
                if is_storage && (same_text(method.as_str(), "get") || same_text(
                    method.as_str(),
                    "has",
                )) && args.len() > 0 {
                    let receiver_snippet = snippet_of(receiver);
                    let key_snippet = snippet_of(&args[0]);
                    self.reads.push((receiver_snippet, key_snippet));
                    assert(self.accesses() =~= before.push(storage_read(*expr)->0));
                }
            }
        }
        assert(body.exprs().take(exprs@.len() as int) =~= body.exprs());
    }
}

/// Collects the writes to storages.
struct WriteVisitor {
    writes: Vec<(String, String, SourceSpan)>,
}

impl WriteVisitor {
    spec fn accesses(self) -> Seq<(Seq<char>, Seq<char>, SourceSpan)> {
        self.writes@.map_values(|write: (String, String, SourceSpan)| write_view(write))
    }

    fn visit_body(&mut self, body: &Body)
        requires
            old(self).writes@.len() == 0,
        ensures
            final(self).accesses() == storage_writes(body.exprs()),
    {
        let exprs = body.walk();
        assert(self.accesses() =~= Seq::empty());
        for i in 0..exprs.len()
            invariant
                exprs@.unref() == body.exprs(),
                self.accesses() == storage_writes(body.exprs().take(i as int)),
        {
            let expr = exprs[i];
            let ghost before = self.accesses();
            proof {
                let seen = body.exprs().take(i + 1);
                assert(seen.last() == *expr) by {
                    assert(exprs@.unref()[i as int] == *exprs@[i as int]);
                }
                assert(seen.drop_last() =~= body.exprs().take(i as int));
            }
            if let ExprKind::MethodCall { method, receiver, args, call_span, .. } = &expr.kind {
                let is_storage = receiver.ty.is_one_of(&soroban_storage_types());
                if is_storage && same_text(method.as_str(), "set") && args.len() >= 2 {
                    let receiver_snippet = snippet_of(receiver);
                    let key_snippet = snippet_of(&args[0]);
                    self.writes.push((receiver_snippet, key_snippet, *call_span));
                    assert(self.accesses() =~= before.push(storage_write(*expr)->0));
                }
            }
        }
        assert(body.exprs().take(exprs@.len() as int) =~= body.exprs());
    }
}

fn has_read(reads: &Vec<(String, String)>, receiver: &str, key: &str) -> (found: bool)
    ensures
        found == reads@.map_values(|access: (String, String)| access_view(access)).contains(
            (receiver@, key@),
        ),
{
    let ghost views = reads@.map_values(|access: (String, String)| access_view(access));
    for i in 0..reads.len()
        invariant
            views == reads@.map_values(|access: (String, String)| access_view(access)),
            forall|j: int| 0 <= j < i ==> views[j] != (receiver@, key@),
    {
        assert(views[i as int] == access_view(reads@[i as int]));
        if same_text(reads[i].0.as_str(), receiver) && same_text(reads[i].1.as_str(), key) {
            assert(views[i as int] == (receiver@, key@));
            return true;
        }
    }
    false
}

impl StorageWriteWithoutRead {
    /// What is reported on a function: each write (`set`) to a storage whose
    /// storage and key, as they are written, no read (`get` or `has`) in the
    /// function has.
    pub open spec fn findings(body: Body) -> Seq<DiagnosticView> {
        unread_writes(storage_writes(body.exprs()), storage_reads(body.exprs()))
    }

    pub fn check_fn(&self, body: &Body) -> (found: Vec<Diagnostic>)
        ensures
            all_reported(found@) == Self::findings(*body),
    {
        let mut read_visitor = ReadVisitor { reads: Vec::new() };
        read_visitor.visit_body(body);
        let mut write_visitor = WriteVisitor { writes: Vec::new() };
        write_visitor.visit_body(body);
        let ghost writes = storage_writes(body.exprs());
        let ghost reads = storage_reads(body.exprs());
        let mut found: Vec<Diagnostic> = Vec::new();
        assert(all_reported(found@) =~= Seq::empty());
        for i in 0..write_visitor.writes.len()
            invariant
                write_visitor.accesses() == writes,
                read_visitor.accesses() == reads,
                all_reported(found@) == unread_writes(writes.take(i as int), reads),
        {
            let write = &write_visitor.writes[i];
            let ghost before = all_reported(found@);
            proof {
                assert(writes[i as int] == write_view(write_visitor.writes@[i as int]));
                let seen = writes.take(i + 1);
                assert(seen.last() == write_view(*write));
                assert(seen.drop_last() =~= writes.take(i as int));
            }
            if !has_read(&read_visitor.reads, write.0.as_str(), write.1.as_str()) {
                found.push(
                    Diagnostic {
                        lint: Lint::StorageWriteWithoutRead,
                        span: write.2,
                        message: "storage write without a corresponding read",
                        help: "consider reading the value before writing or using `.has()` to check existence",
                        replacement: None,
                    },
                );
                assert(all_reported(found@) =~= before.push(unread_write(write.2)));
            }
        }
        assert(writes.take(write_visitor.writes@.len() as int) =~= writes);
        found
    }
}

/// A write is reported exactly where no read has its storage and its key: each
/// report is on such a write, and each such write has its report.
pub proof fn reports_are_the_unread_writes(
    writes: Seq<(Seq<char>, Seq<char>, SourceSpan)>,
    reads: Seq<(Seq<char>, Seq<char>)>,
)
    ensures
        forall|report: DiagnosticView| #[trigger]
            unread_writes(writes, reads).contains(report) <==> exists|i: int|
                0 <= i < writes.len() && !reads.contains((writes[i].0, writes[i].1)) && report
                    == unread_write((#[trigger] writes[i]).2),
    decreases writes.len(),
{
    if writes.len() > 0 {
        let front = writes.drop_last();
        reports_are_the_unread_writes(front, reads);
        let all = unread_writes(writes, reads);
        let earlier = unread_writes(front, reads);
        let last = writes.last();
        assert forall|report: DiagnosticView| #[trigger] all.contains(report) implies exists|i: int|
            0 <= i < writes.len() && !reads.contains((writes[i].0, writes[i].1)) && report
                == unread_write((#[trigger] writes[i]).2) by {
            if earlier.contains(report) {
                let i = choose|i: int|
                    0 <= i < front.len() && !reads.contains((front[i].0, front[i].1)) && report
                        == unread_write((#[trigger] front[i]).2);
                assert(writes[i] == front[i]);
            } else {
                let k = choose|k: int| 0 <= k < all.len() && all[k] == report;
                assert(k == earlier.len()) by {
                    if k < earlier.len() {
                        assert(earlier[k] == report);
                    }
                }
                assert(writes[writes.len() - 1] == last);
            }
        }
        assert forall|report: DiagnosticView|
            (exists|i: int|
                0 <= i < writes.len() && !reads.contains((writes[i].0, writes[i].1)) && report
                    == unread_write((#[trigger] writes[i]).2)) implies #[trigger] all.contains(
            report,
        ) by {
            let i = choose|i: int|
                0 <= i < writes.len() && !reads.contains((writes[i].0, writes[i].1)) && report
                    == unread_write((#[trigger] writes[i]).2);
            if i < front.len() {
                assert(front[i] == writes[i]);
                assert(earlier.contains(report));
                let k = choose|k: int| 0 <= k < earlier.len() && earlier[k] == report;
                assert(all[k] == report);
            } else {
                assert(all[all.len() - 1] == report);
            }
        }
    }
}

/// Whether `expr` is an operation on a storage.
pub open spec fn storage_operation(expr: Expr) -> bool {
    match expr.kind {
        ExprKind::MethodCall { method, receiver, args, .. } => {
            &&& read_method(method@) || write_method(method@)
            &&& peeled_type_in(receiver.ty, storage_types())
        },
        _ => false,
    }
}

/// Whether `expr` is a chain of calls that leads to a storage, such as
/// `env.storage().instance()`: calls without arguments, none of them an
/// operation, on what a path names.
pub open spec fn accessor_chain(expr: Expr) -> bool
    decreases expr,
{
    match expr.kind {
        ExprKind::Path(_) => true,
        ExprKind::MethodCall { method, receiver, args, .. } => {
            &&& !read_method(method@) && !write_method(method@)
            &&& args@.len() == 0
            &&& accessor_chain(*receiver)
        },
        _ => false,
    }
}

proof fn accessors_are_no_operations(expr: Expr)
    requires
        accessor_chain(expr),
    ensures
        forall|i: int| 0 <= i < expr.exprs().len() ==> !storage_operation(#[trigger] expr.exprs()[i]),
    decreases expr,
{
    match expr.kind {
        ExprKind::MethodCall { method, receiver, args, .. } => {
            accessors_are_no_operations(*receiver);
            assert(list_exprs(args@) =~= Seq::empty());
            assert(expr.exprs() =~= seq![expr] + receiver.exprs());
        },
        _ => {
            assert(expr.exprs() =~= seq![expr]);
        },
    }
}

/// A chain of calls such as `env.storage().instance().set(&key, &value)` gives
/// exactly one report: in a loop the operation at its end is reported, and of
/// the other expressions in it none is, in whatever surroundings.
pub proof fn chains_are_reported_once(expr: Expr)
    requires
        storage_operation(expr),
        accessor_chain(*expr.kind->MethodCall_receiver),
        forall|i: int|
            0 <= i < list_exprs(expr.kind->MethodCall_args@).len() ==> !storage_operation(
                #[trigger] list_exprs(expr.kind->MethodCall_args@)[i],
            ),
    ensures
        expr.exprs()[0] == expr,
        forall|cx: ExprContext|
            loop_around(cx.enclosing) is Some <==> #[trigger] SorobanStorageInLoop::finding(
                cx,
                expr,
            ) is Some,
        forall|cx: ExprContext, i: int|
            1 <= i < expr.exprs().len() ==> #[trigger] SorobanStorageInLoop::finding(
                cx,
                expr.exprs()[i],
            ) is None,
{
    let receiver = *expr.kind->MethodCall_receiver;
    let args = expr.kind->MethodCall_args@;
    accessors_are_no_operations(receiver);
    assert(expr.exprs() =~= seq![expr] + (receiver.exprs() + list_exprs(args)));
    assert forall|i: int| 1 <= i < expr.exprs().len() implies !storage_operation(
        #[trigger] expr.exprs()[i],
    ) by {
        let at = i - 1;
        if at < receiver.exprs().len() {
            assert(expr.exprs()[i] == receiver.exprs()[at]);
        } else {
            assert(expr.exprs()[i] == list_exprs(args)[at - receiver.exprs().len()]);
        }
    }
}

/// A method call is reported exactly where it is `get`, `has` or `set` on a storage
/// type and the nearest thing around it that repeats is a loop. Reads and writes
/// get different advice.
pub proof fn storage_operations_in_loops_are_reported(cx: ExprContext, expr: Expr)
    ensures
        SorobanStorageInLoop::finding(cx, expr) is Some <==> ({
            &&& expr.kind matches ExprKind::MethodCall { method, receiver, .. }
            &&& method@ == "get"@ || method@ == "has"@ || method@ == "set"@
            &&& peeled_type_in(receiver.ty, storage_types())
            &&& cx.enclosing matches Some(around)
            &&& around.kind is Loop
        }),
        SorobanStorageInLoop::finding(cx, expr) matches Some(report) ==> {
            &&& report.lint == Lint::SorobanStorageInLoop
            &&& report.span == expr.span
            &&& report.message == "storage operation inside a loop"@
            &&& expr.kind->MethodCall_method@ == "set"@ ==> report.help
                == "move storage operations out of the loop or accumulate mutations in memory first"@
            &&& expr.kind->MethodCall_method@ != "set"@ ==> report.help
                == "if the read is loop-invariant, hoist it out of the loop; otherwise batch where possible"@
            &&& report.replacement is None
        },
{
    reveal_strlit("get");
    reveal_strlit("has");
    reveal_strlit("set");
    assert("get"@[0] != "set"@[0]);
    assert("has"@[0] != "set"@[0]);
}

/// What is read is what a call of `get` or of `has` with an argument, on a storage
/// type, is written with: its receiver and its first argument. Nothing else is a
/// read, and every such call is one.
pub proof fn reads_are_calls_of_get_and_has(exprs: Seq<Expr>, storage: Seq<char>, key: Seq<char>)
    ensures
        storage_reads(exprs).contains((storage, key)) <==> exists|i: int|
                {
                    &&& 0 <= i < exprs.len()
                    &&& (#[trigger] exprs[i]).kind matches ExprKind::MethodCall { method, receiver, args, .. }
                    &&& method@ == "get"@ || method@ == "has"@
                    &&& args@.len() > 0
                    &&& peeled_type_in(receiver.ty, storage_types())
                    &&& storage == snippet_text(*receiver)
                    &&& key == snippet_text(args@[0])
                },
    decreases exprs.len(),
{
    if exprs.len() > 0 {
        let front = exprs.drop_last();
        let x: (Seq<char>, Seq<char>) = (storage, key);
        let all = storage_reads(exprs);
        let earlier = storage_reads(front);
        reads_are_calls_of_get_and_has(front, storage, key);
        if earlier.contains(x) {
            let k = choose|k: int| 0 <= k < earlier.len() && earlier[k] == x;
            assert(all[k] == x);
            let i = choose|i: int| 0 <= i < front.len() && storage_read(#[trigger] front[i]) == Some(x);
            assert(exprs[i] == front[i]);
        }
        if storage_read(exprs.last()) == Some(x) {
            assert(all[all.len() - 1] == x);
            assert(storage_read(exprs[exprs.len() - 1]) == Some(x));
        }
        if all.contains(x) && !earlier.contains(x) {
            let k = choose|k: int| 0 <= k < all.len() && all[k] == x;
            if k < earlier.len() {
                assert(earlier[k] == x);
            }
            assert(storage_read(exprs.last()) == Some(x));
        }
        assert forall|i: int| 0 <= i < exprs.len() && storage_read(#[trigger] exprs[i]) == Some(
            x,
        ) implies all.contains(x) by {
            if i < front.len() {
                assert(storage_read(front[i]) == Some(x));
            }
        }
    }
}

/// What is written is what a call of `set` with two arguments or more, on a storage
/// type, is written with: its receiver and its first argument. Nothing else is a
/// write, and every such call is one.
pub proof fn writes_are_calls_of_set(exprs: Seq<Expr>, storage: Seq<char>, key: Seq<char>, span: SourceSpan)
    ensures
        storage_writes(exprs).contains((storage, key, span)) <==> exists|i: int|
                {
                    &&& 0 <= i < exprs.len()
                    &&& (#[trigger] exprs[i]).kind matches ExprKind::MethodCall { method, receiver, args, call_span, .. }
                    &&& method@ == "set"@
                    &&& args@.len() >= 2
                    &&& peeled_type_in(receiver.ty, storage_types())
                    &&& storage == snippet_text(*receiver)
                    &&& key == snippet_text(args@[0])
                    &&& span == call_span
                },
    decreases exprs.len(),
{
    if exprs.len() > 0 {
        let front = exprs.drop_last();
        let x: (Seq<char>, Seq<char>, SourceSpan) = (storage, key, span);
        let all = storage_writes(exprs);
        let earlier = storage_writes(front);
        writes_are_calls_of_set(front, storage, key, span);
        if earlier.contains(x) {
            let k = choose|k: int| 0 <= k < earlier.len() && earlier[k] == x;
            assert(all[k] == x);
            let i = choose|i: int| 0 <= i < front.len() && storage_write(#[trigger] front[i]) == Some(x);
            assert(exprs[i] == front[i]);
        }
        if storage_write(exprs.last()) == Some(x) {
            assert(all[all.len() - 1] == x);
            assert(storage_write(exprs[exprs.len() - 1]) == Some(x));
        }
        if all.contains(x) && !earlier.contains(x) {
            let k = choose|k: int| 0 <= k < all.len() && all[k] == x;
            if k < earlier.len() {
                assert(earlier[k] == x);
            }
            assert(storage_write(exprs.last()) == Some(x));
        }
        assert forall|i: int| 0 <= i < exprs.len() && storage_write(#[trigger] exprs[i]) == Some(
            x,
        ) implies all.contains(x) by {
            if i < front.len() {
                assert(storage_write(front[i]) == Some(x));
            }
        }
    }
}

/// Reads and writes come in the order of the expressions, at most one for each,
/// and reports in the order of the writes, at most one for each.
pub proof fn accesses_stand_in_order(
    exprs: Seq<Expr>,
    writes: Seq<(Seq<char>, Seq<char>, SourceSpan)>,
    reads: Seq<(Seq<char>, Seq<char>)>,
)
    ensures
        exprs.len() == 0 ==> storage_reads(exprs).len() == 0 && storage_writes(exprs).len() == 0,
        exprs.len() > 0 ==> {
            let (earlier, later) = (storage_reads(exprs.drop_last()), storage_reads(exprs));
            &&& earlier.len() <= later.len() <= earlier.len() + 1
            &&& later.take(earlier.len() as int) == earlier
        },
        exprs.len() > 0 ==> {
            let (earlier, later) = (storage_writes(exprs.drop_last()), storage_writes(exprs));
            &&& earlier.len() <= later.len() <= earlier.len() + 1
            &&& later.take(earlier.len() as int) == earlier
            &&& later.len() > earlier.len() <==> storage_writes(seq![exprs.last()]).len() == 1
        },
        writes.len() == 0 ==> unread_writes(writes, reads).len() == 0,
        writes.len() > 0 ==> {
            let earlier = unread_writes(writes.drop_last(), reads);
            let later = unread_writes(writes, reads);
            let (receiver, key, span) = writes.last();
            if reads.contains((receiver, key)) {
                later == earlier
            } else {
                &&& later.len() == earlier.len() + 1
                &&& later.take(earlier.len() as int) == earlier
                &&& later.last() == unread_write(span)
            }
        },
{
    if exprs.len() > 0 {
        let one = seq![exprs.last()];
        assert(one.drop_last() =~= Seq::empty());
        assert(storage_writes(one.drop_last()).len() == 0);
        assert(one.last() == exprs.last());
        assert(storage_reads(exprs).take(storage_reads(exprs.drop_last()).len() as int)
            =~= storage_reads(exprs.drop_last()));
        assert(storage_writes(exprs).take(storage_writes(exprs.drop_last()).len() as int)
            =~= storage_writes(exprs.drop_last()));
    }
    if writes.len() > 0 {
        let earlier = unread_writes(writes.drop_last(), reads);
        assert(unread_writes(writes, reads).take(earlier.len() as int) =~= earlier);
    }
}

/// What a report on an unread write says.
pub proof fn unread_writes_are_reported_so(span: SourceSpan)
    ensures
        unread_write(span).lint == Lint::StorageWriteWithoutRead,
        unread_write(span).span == span,
        unread_write(span).message == "storage write without a corresponding read"@,
        unread_write(span).help
            == "consider reading the value before writing or using `.has()` to check existence"@,
        unread_write(span).replacement is None,
{
}

/// The text of an expression is its source text, and empty where there is none.
pub proof fn snippets_are_source_texts(expr: Expr)
    ensures
        match expr.snippet {
            Some(text) => snippet_text(expr) == text@,
            None => snippet_text(expr).len() == 0,
        },
{
}

spec fn unread_at(exprs: Seq<Expr>, w: int, report: DiagnosticView) -> bool {
    match storage_write(exprs[w]) {
        Some((storage, key, span)) => {
            &&& report == unread_write(span)
            &&& !exists|r: int|
                0 <= r < exprs.len() && storage_read(#[trigger] exprs[r]) == Some((storage, key))
        },
        None => false,
    }
}

/// A function is reported for a write exactly where a call of `set` with two
/// arguments or more, on a storage type, stands in its body, and no call of `get`
/// or of `has` with an argument, on a storage type, whose receiver and first
/// argument are written in the same way.
pub proof fn writes_without_a_read_are_reported(body: Body, report: DiagnosticView)
    ensures
        StorageWriteWithoutRead::findings(body).contains(report) <==> exists|w: int|
            {
                &&& 0 <= w < body.exprs().len()
                &&& (#[trigger] body.exprs()[w]).kind matches ExprKind::MethodCall {
                    method,
                    receiver,
                    args,
                    call_span,
                    ..
                }
                &&& method@ == "set"@
                &&& args@.len() >= 2
                &&& peeled_type_in(receiver.ty, storage_types())
                &&& report == unread_write(call_span)
                &&& !exists|r: int|
                    {
                        &&& 0 <= r < body.exprs().len()
                        &&& (#[trigger] body.exprs()[r]).kind matches ExprKind::MethodCall {
                            method: read,
                            receiver: from,
                            args: with,
                            ..
                        }
                        &&& read@ == "get"@ || read@ == "has"@
                        &&& with@.len() > 0
                        &&& peeled_type_in(from.ty, storage_types())
                        &&& snippet_text(*from) == snippet_text(*receiver)
                        &&& snippet_text(with@[0]) == snippet_text(args@[0])
                    }
            },
{
    let exprs = body.exprs();
    let writes = storage_writes(exprs);
    let reads = storage_reads(exprs);
    reports_are_the_unread_writes(writes, reads);
    if StorageWriteWithoutRead::findings(body).contains(report) {
        let i = choose|i: int|
            0 <= i < writes.len() && !reads.contains((writes[i].0, writes[i].1)) && report
                == unread_write((#[trigger] writes[i]).2);
        let (storage, key, span) = writes[i];
        assert(writes.contains((storage, key, span)));
        writes_are_calls_of_set(exprs, storage, key, span);
        reads_are_calls_of_get_and_has(exprs, storage, key);
    }
    assert forall|w: int|
        #![trigger exprs[w]]
        0 <= w < exprs.len() && unread_at(exprs, w, report) implies StorageWriteWithoutRead::findings(
        body,
    ).contains(report) by {
        let (storage, key, span) = storage_write(exprs[w])->0;
        writes_are_calls_of_set(exprs, storage, key, span);
        reads_are_calls_of_get_and_has(exprs, storage, key);
        assert(writes.contains((storage, key, span)));
        let i = choose|i: int| 0 <= i < writes.len() && writes[i] == (storage, key, span);
        assert(report == unread_write(writes[i].2));
    }
}

} // verus!
