//! Repeated work: the loop that an expression stands in, and whether the
//! expression depends on what that loop changes.

use std::collections::HashSet;

use vstd::prelude::*;

use crate::hir::{
    found_bindings_are_reached, found_exprs_are_reached, list_bindings, nodes_bindings, reached,
    reached_bindings_are_found, reached_exprs_are_found, Expr, ExprKind, Node, Pat, Res,
};

verus! {

broadcast use vstd::std_specs::hash::group_hash_axioms;

/// What the compiler knows of an expression and its surroundings.
pub struct ExprContext<'a> {
    /// The nearest loop around the expression, or the nearest closure around it
    /// that is called more than once, whichever is nearer.
    pub enclosing: Option<&'a Expr>,
    /// The variables that are mutated in `enclosing`, where the analysis of
    /// mutations has a verdict.
    pub mutated: Option<&'a HashSet<u64>>,
    /// Whether the local variable that the receiver of the expression names is
    /// used after the expression.
    pub receiver_used_after: bool,
}

/// The loop that is around the expression.
pub open spec fn loop_around(enclosing: Option<&Expr>) -> Option<Expr> {
    match enclosing {
        Some(expr) if expr.kind is Loop => Some(*expr),
        _ => None,
    }
}

/// The loop or closure that is around the expression.
pub open spec fn loop_or_closure_around(enclosing: Option<&Expr>) -> Option<Expr> {
    match enclosing {
        Some(expr) if expr.kind is Loop || expr.kind is Closure => Some(*expr),
        _ => None,
    }
}

/// The local variables that `exprs` name, in order.
pub open spec fn locals_named(exprs: Seq<Expr>) -> Seq<u64>
    decreases exprs.len(),
{
    if exprs.len() == 0 {
        Seq::empty()
    } else {
        match exprs.last().local() {
            Some(id) => locals_named(exprs.drop_last()).push(id),
            None => locals_named(exprs.drop_last()),
        }
    }
}

/// The variables in a set that there may be.
pub open spec fn set_view(ids: Option<&HashSet<u64>>) -> Option<Set<u64>> {
    match ids {
        Some(ids) => Some(ids@),
        None => None,
    }
}

/// Whether `expr` is the name of a variable that `loop_expr` binds or that is in
/// `mutated`.
pub open spec fn names_changed(expr: Expr, loop_expr: Expr, mutated: Set<u64>) -> bool {
    match expr.local() {
        Some(id) => loop_expr.bindings().contains(id) || mutated.contains(id),
        None => false,
    }
}

/// Whether `call` reads a variable that `loop_expr` binds or that is in
/// `mutated`. Without a verdict on the mutations, it is taken to.
pub open spec fn loop_dependent(mutated: Option<Set<u64>>, loop_expr: Expr, call: Expr) -> bool {
    match mutated {
        Some(ids) => exists|i: int|
            0 <= i < call.exprs().len() && names_changed(
                #[trigger] call.exprs()[i],
                loop_expr,
                ids,
            ),
        None => true,
    }
}

/// Collects the variables that the patterns in the visited parts bind, e.g. the
/// loop variable of a `for` loop or a per-iteration `let`.
pub struct BindingCollector {
    pub bindings: HashSet<u64>,
}

impl BindingCollector {
    pub fn new() -> (collector: BindingCollector)
        ensures
            collector.bindings@ == Set::<u64>::empty(),
    {
        BindingCollector { bindings: HashSet::new() }
    }

    /// Adds the variables that are bound in `expr`.
    pub fn visit_expr(&mut self, expr: &Expr)
        ensures
            final(self).bindings@ == old(self).bindings@.union(expr.bindings().to_set()),
        decreases expr,
    {
        match &expr.kind {
            ExprKind::MethodCall { receiver, args, .. } => {
                self.visit_expr(receiver);
                self.visit_list(args);
            },
            ExprKind::Call { callee, args } => {
                self.visit_expr(callee);
                self.visit_list(args);
            },
            ExprKind::Binary { left, right, .. } => {
                self.visit_expr(left);
                self.visit_expr(right);
            },
            ExprKind::Loop(parts) => self.visit_nodes(parts),
            ExprKind::Other(parts) => self.visit_nodes(parts),
            _ => {},
        }
        proof {
            match &expr.kind {
                ExprKind::MethodCall { receiver, args, .. } => {
                    set_of_concatenation(receiver.bindings(), list_bindings(args@));
                },
                ExprKind::Call { callee, args } => {
                    set_of_concatenation(callee.bindings(), list_bindings(args@));
                },
                ExprKind::Binary { left, right, .. } => {
                    set_of_concatenation(left.bindings(), right.bindings());
                },
                _ => {},
            }
            assert(self.bindings@ =~= old(self).bindings@.union(expr.bindings().to_set()));
        }
    }

    fn visit_list(&mut self, list: &Vec<Expr>)
        ensures
            final(self).bindings@ == old(self).bindings@.union(list_bindings(list@).to_set()),
        decreases list,
    {
        assert(self.bindings@ =~= self.bindings@.union(list_bindings(list@.take(0)).to_set()));
        for i in 0..list.len()
            invariant
                self.bindings@ == old(self).bindings@.union(
                    list_bindings(list@.take(i as int)).to_set(),
                ),
        {
            self.visit_expr(&list[i]);
            proof {
                let seen = list@.take(i + 1);
                assert(seen.drop_last() =~= list@.take(i as int));
                set_of_concatenation(list_bindings(seen.drop_last()), seen.last().bindings());
                assert(self.bindings@ =~= old(self).bindings@.union(list_bindings(seen).to_set()));
            }
        }
        assert(list@.take(list@.len() as int) =~= list@);
    }

    fn visit_nodes(&mut self, list: &Vec<Node>)
        ensures
            final(self).bindings@ == old(self).bindings@.union(nodes_bindings(list@).to_set()),
        decreases list,
    {
        assert(self.bindings@ =~= self.bindings@.union(nodes_bindings(list@.take(0)).to_set()));
        for i in 0..list.len()
            invariant
                self.bindings@ == old(self).bindings@.union(
                    nodes_bindings(list@.take(i as int)).to_set(),
                ),
        {
            self.visit_node(&list[i]);
            proof {
                let seen = list@.take(i + 1);
                assert(seen.drop_last() =~= list@.take(i as int));
                set_of_concatenation(nodes_bindings(seen.drop_last()), seen.last().bindings());
                assert(self.bindings@ =~= old(self).bindings@.union(nodes_bindings(seen).to_set()));
            }
        }
        assert(list@.take(list@.len() as int) =~= list@);
    }

    fn visit_node(&mut self, node: &Node)
        ensures
            final(self).bindings@ == old(self).bindings@.union(node.bindings().to_set()),
        decreases node,
    {
        match node {
            Node::Expr(expr) => self.visit_expr(expr),
            Node::Pat(pat) => self.visit_pat(pat),
        }
    }

    /// Adds the variables that `pat` binds.
    pub fn visit_pat(&mut self, pat: &Pat)
        ensures
            final(self).bindings@ == old(self).bindings@.union(pat.bindings().to_set()),
        decreases pat,
    {
        let ghost own = match pat.binding {
            Some(id) => seq![id],
            None => Seq::empty(),
        };
        if let Some(id) = pat.binding {
            self.bindings.insert(id);
            assert(own[0] == id);
        }
        assert(self.bindings@ =~= old(self).bindings@.union(own.to_set()));
        self.visit_nodes(&pat.parts);
        proof {
            set_of_concatenation(own, nodes_bindings(pat.parts@));
            assert(self.bindings@ =~= old(self).bindings@.union(pat.bindings().to_set()));
        }
    }
}

/// Collects the local variables that the visited expressions read.
pub struct LocalReadCollector {
    pub reads: Vec<u64>,
}

impl LocalReadCollector {
    pub fn new() -> (collector: LocalReadCollector)
        ensures
            collector.reads@ == Seq::<u64>::empty(),
    {
        LocalReadCollector { reads: Vec::new() }
    }

    /// Adds the local variables that are read in `expr`, in the order of the
    /// expressions in it.
    pub fn visit_expr(&mut self, expr: &Expr)
        ensures
            final(self).reads@ == old(self).reads@ + locals_named(expr.exprs()),
    {
        let exprs = expr.walk();
        assert(exprs@.unref() == expr.exprs());
        assert(self.reads@ + Seq::<u64>::empty() =~= self.reads@);
        for i in 0..exprs.len()
            invariant
                exprs@.unref() == expr.exprs(),
                self.reads@ == old(self).reads@ + locals_named(expr.exprs().take(i as int)),
        {
            proof {
                let seen = expr.exprs().take(i + 1);
                assert(*exprs@[i as int] == exprs@.unref()[i as int]);
                assert(seen.drop_last() =~= expr.exprs().take(i as int));
                assert(seen.last() == *exprs@[i as int]);
            }
            if let ExprKind::Path(Res::Local(id)) = &exprs[i].kind {
                self.reads.push(*id);
            }
            assert(self.reads@ =~= old(self).reads@ + locals_named(expr.exprs().take(i + 1)));
        }
        assert(expr.exprs().take(exprs@.len() as int) =~= expr.exprs());
    }
}

/// Whether `call`, receiver chain and arguments included, reads anything that
/// changes from iteration to iteration of `loop_expr`.
///
/// Such a call is doing real per-iteration work, so hoisting it out of the loop
/// would change behaviour and it must not be reported. The answer errs towards
/// "depends": without a verdict on the mutations, the call is treated as
/// loop-dependent and stays unreported.
///
/// Bindings inside a closure body nested in the loop are not seen.
pub fn depends_on_loop_state(
    mutated: Option<&HashSet<u64>>,
    loop_expr: &Expr,
    call: &Expr,
) -> (depends: bool)
    ensures
        depends == loop_dependent(set_view(mutated), *loop_expr, *call),
{
    let changed = match mutated {
        Some(changed) => changed,
        None => {
            return true;
        },
    };
    let mut bound = BindingCollector::new();
    bound.visit_expr(loop_expr);
    assert(bound.bindings@ =~= loop_expr.bindings().to_set());
    let mut read = LocalReadCollector::new();
    read.visit_expr(call);
    assert(read.reads@ =~= locals_named(call.exprs()));
    for i in 0..read.reads.len()
        invariant
            mutated == Some(changed),
            read.reads@ == locals_named(call.exprs()),
            bound.bindings@ == loop_expr.bindings().to_set(),
            forall|j: int|
                0 <= j < i ==> !loop_expr.bindings().contains(#[trigger] read.reads@[j])
                    && !changed@.contains(read.reads@[j]),
    {
        let id: u64 = read.reads[i];
        if bound.bindings.contains(&id) || changed.contains(&id) {
            proof {
                named_locals_are_in(call.exprs());
                assert(locals_named(call.exprs()).contains(id));
                let k = choose|k: int|
                    0 <= k < call.exprs().len() && (#[trigger] call.exprs()[k]).local() == Some(id);
                assert(names_changed(call.exprs()[k], *loop_expr, changed@));
            }
            return true;
        }
    }
    proof {
        named_locals_are_in(call.exprs());
        assert forall|i: int| 0 <= i < call.exprs().len() implies !names_changed(
            #[trigger] call.exprs()[i],
            *loop_expr,
            changed@,
        ) by {
            if let Some(id) = call.exprs()[i].local() {
                assert(locals_named(call.exprs()).contains(id));
            }
        }
    }
    false
}

/// The loop that is directly around an expression.
///
/// An expression inside a closure that a loop calls counts as outside: the
/// closure may well be defined elsewhere.
pub fn enclosing_loop<'a>(enclosing: Option<&'a Expr>) -> (found: Option<&'a Expr>)
    ensures
        match found {
            Some(expr) => loop_around(enclosing) == Some(*expr),
            None => loop_around(enclosing) is None,
        },
{
    match enclosing {
        Some(expr) => match &expr.kind {
            ExprKind::Loop(_) => Some(expr),
            _ => None,
        },
        None => None,
    }
}

/// The nearest thing around an expression that runs more than once: a loop or a
/// closure that is called repeatedly.
pub fn enclosing_loop_or_closure<'a>(enclosing: Option<&'a Expr>) -> (found: Option<&'a Expr>)
    ensures
        match found {
            Some(expr) => loop_or_closure_around(enclosing) == Some(*expr),
            None => loop_or_closure_around(enclosing) is None,
        },
{
    match enclosing {
        Some(expr) => match &expr.kind {
            ExprKind::Loop(_) | ExprKind::Closure => Some(expr),
            _ => None,
        },
        None => None,
    }
}

/// The elements of two sequences, one after the other, are those of either.
proof fn set_of_concatenation<T>(left: Seq<T>, right: Seq<T>)
    ensures
        (left + right).to_set() == left.to_set().union(right.to_set()),
{
    let both = left + right;
    assert forall|x: T| both.to_set().contains(x) <==> #[trigger] left.to_set().union(
        right.to_set(),
    ).contains(x) by {
        if left.contains(x) {
            let i = choose|i: int| 0 <= i < left.len() && left[i] == x;
            assert(both[i] == x);
        }
        if right.contains(x) {
            let i = choose|i: int| 0 <= i < right.len() && right[i] == x;
            assert(both[left.len() + i] == x);
        }
    }
    assert(both.to_set() =~= left.to_set().union(right.to_set()));
}

/// The locals that a list of expressions names are exactly those that one of
/// its members is the name of.
proof fn named_locals_are_in(exprs: Seq<Expr>)
    ensures
        forall|id: u64| #[trigger]
            locals_named(exprs).contains(id) ==> exists|i: int|
                0 <= i < exprs.len() && (#[trigger] exprs[i]).local() == Some(id),
        forall|i: int|
            0 <= i < exprs.len() ==> match (#[trigger] exprs[i]).local() {
                Some(id) => locals_named(exprs).contains(id),
                None => true,
            },
    decreases exprs.len(),
{
    if exprs.len() > 0 {
        let front = exprs.drop_last();
        named_locals_are_in(front);
        let named = locals_named(exprs);
        assert forall|id: u64| #[trigger] named.contains(id) implies exists|i: int|
            0 <= i < exprs.len() && (#[trigger] exprs[i]).local() == Some(id) by {
            if exprs.last().local() == Some(id) {
                assert(exprs[exprs.len() - 1].local() == Some(id));
            } else {
                let k = choose|k: int| 0 <= k < named.len() && named[k] == id;
                assert(locals_named(front)[k] == id);
                assert(locals_named(front).contains(id));
                let i = choose|i: int|
                    0 <= i < front.len() && (#[trigger] front[i]).local() == Some(id);
                assert(exprs[i] == front[i]);
            }
        }
        assert forall|i: int| 0 <= i < exprs.len() implies match (#[trigger] exprs[i]).local() {
            Some(id) => named.contains(id),
            None => true,
        } by {
            if let Some(id) = exprs[i].local() {
                if i == exprs.len() - 1 {
                    assert(named[named.len() - 1] == id);
                } else {
                    assert(front[i] == exprs[i]);
                    let k = choose|k: int|
                        0 <= k < locals_named(front).len() && locals_named(front)[k] == id;
                    assert(named[k] == id);
                }
            }
        }
    }
}

/// Whatever a loop is found around, the wider search finds the same.
pub proof fn loop_is_loop_or_closure(enclosing: Option<&Expr>)
    requires
        loop_around(enclosing) is Some,
    ensures
        loop_or_closure_around(enclosing) == loop_around(enclosing),
{
}

/// A loop is found exactly where the nearest thing around is one; a closure that
/// is called repeatedly is found by the wider search only. What is found is what
/// is around.
pub proof fn loops_are_found_where_they_are(enclosing: Option<&Expr>)
    ensures
        match enclosing {
            Some(around) => {
                &&& loop_around(enclosing) == if around.kind is Loop {
                    Some(*around)
                } else {
                    None
                }
                &&& loop_or_closure_around(enclosing) == if around.kind is Loop
                    || around.kind is Closure {
                    Some(*around)
                } else {
                    None
                }
            },
            None => loop_around(enclosing) is None && loop_or_closure_around(enclosing) is None,
        },
{
}

/// A call depends on the loop exactly where there is no verdict on the mutations,
/// or where a name of a local variable can be reached from the call that is
/// mutated, or that a pattern binds which can be reached from the loop.
pub proof fn dependence_is_reading_what_changes(
    mutated: Option<&HashSet<u64>>,
    loop_expr: Expr,
    call: Expr,
)
    ensures
        loop_dependent(set_view(mutated), loop_expr, call) <==> match mutated {
            None => true,
            Some(ids) => exists|name: Expr, steps: nat|
                {
                    &&& #[trigger] reached(Node::Expr(call), Node::Expr(name), steps)
                    &&& name.kind matches ExprKind::Path(Res::Local(id))
                    &&& {
                        ||| ids@.contains(id)
                        ||| exists|pat: Pat, deep: nat| #[trigger]
                            reached(Node::Expr(loop_expr), Node::Pat(pat), deep) && pat.binding
                                == Some(id)
                    }
                },
        },
{
    if let Some(ids) = mutated {
        if loop_dependent(set_view(mutated), loop_expr, call) {
            let i = choose|i: int|
                0 <= i < call.exprs().len() && names_changed(
                    #[trigger] call.exprs()[i],
                    loop_expr,
                    ids@,
                );
            let name = call.exprs()[i];
            let id = name.local()->0;
            assert(Node::Expr(call).exprs().contains(name));
            found_exprs_are_reached(Node::Expr(call), name);
            let steps = choose|steps: nat| reached(Node::Expr(call), Node::Expr(name), steps);
            if !ids@.contains(id) {
                assert(Node::Expr(loop_expr).bindings().contains(id));
                found_bindings_are_reached(Node::Expr(loop_expr), id);
            }
            assert(reached(Node::Expr(call), Node::Expr(name), steps));
            assert(name.kind == ExprKind::Path(Res::Local(id)));
        }
        if exists|name: Expr, steps: nat|
            {
                &&& #[trigger] reached(Node::Expr(call), Node::Expr(name), steps)
                &&& name.kind matches ExprKind::Path(Res::Local(id))
                &&& {
                    ||| ids@.contains(id)
                    ||| exists|pat: Pat, deep: nat| #[trigger]
                        reached(Node::Expr(loop_expr), Node::Pat(pat), deep) && pat.binding == Some(
                            id,
                        )
                }
            } {
            let (name, steps) = choose|name: Expr, steps: nat|
                {
                    &&& #[trigger] reached(Node::Expr(call), Node::Expr(name), steps)
                    &&& name.kind matches ExprKind::Path(Res::Local(id))
                    &&& {
                        ||| ids@.contains(id)
                        ||| exists|pat: Pat, deep: nat| #[trigger]
                            reached(Node::Expr(loop_expr), Node::Pat(pat), deep) && pat.binding
                                == Some(id)
                    }
                };
            let id = name.local()->0;
            reached_exprs_are_found(Node::Expr(call), name, steps);
            assert(call.exprs().contains(name));
            let i = choose|i: int| 0 <= i < call.exprs().len() && call.exprs()[i] == name;
            if !ids@.contains(id) {
                let (pat, deep) = choose|pat: Pat, deep: nat| #[trigger]
                    reached(Node::Expr(loop_expr), Node::Pat(pat), deep) && pat.binding == Some(id);
                reached_bindings_are_found(Node::Expr(loop_expr), pat, id, deep);
                assert(loop_expr.bindings().contains(id));
            }
            assert(names_changed(call.exprs()[i], loop_expr, ids@));
        }
    }
}

/// The locals that expressions name are found in the order of the expressions,
/// once for each expression that is the name of one.
pub proof fn locals_are_named_in_order(exprs: Seq<Expr>)
    ensures
        exprs.len() == 0 ==> locals_named(exprs).len() == 0,
        exprs.len() > 0 ==> match exprs.last().kind {
            ExprKind::Path(Res::Local(id)) => locals_named(exprs) == locals_named(
                exprs.drop_last(),
            ) + seq![id],
            _ => locals_named(exprs) == locals_named(exprs.drop_last()),
        },
{
    if exprs.len() > 0 {
        if let ExprKind::Path(Res::Local(id)) = exprs.last().kind {
            assert(locals_named(exprs) =~= locals_named(exprs.drop_last()) + seq![id]);
        }
    }
}

} // verus!
