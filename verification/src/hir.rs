//! The expressions of a contract, with what the compiler knows of each of them.
//!
//! A tree holds the expressions and patterns of one function body, or of a part
//! of it. The body of a closure is a body of its own and no part of the tree.

use vstd::prelude::*;

verus! {

/// A place in the sources, by its number in the compiler's table of places.
#[derive(Clone, Copy, PartialEq, Eq, Structural)]
pub struct SourceSpan {
    pub id: u64,
}

/// A type: the path of the struct, enum or union that it is, if it is one, and
/// the number of references around that.
pub struct Ty {
    pub references: usize,
    pub adt: Option<String>,
}

/// What a path leads to. Locals and definitions are numbered by the compiler.
pub enum Res {
    /// A local variable.
    Local(u64),
    /// A function or another item, with its full path.
    Def { id: u64, path: String },
    /// Anything else.
    Other,
}

#[derive(Clone, Copy, PartialEq, Eq, Structural)]
pub enum BinOpKind {
    Add,
    Other,
}

/// An expression: its type, the place where it stands, and the source text of
/// that place, if there is one.
pub struct Expr {
    pub kind: ExprKind,
    pub ty: Ty,
    pub span: SourceSpan,
    pub snippet: Option<String>,
}

pub enum ExprKind {
    /// `receiver.method(args)`; `definition` is the method that is called, where
    /// it is known, and `call_span` the place of `method(args)`.
    MethodCall {
        method: String,
        definition: Option<u64>,
        receiver: Box<Expr>,
        args: Vec<Expr>,
        call_span: SourceSpan,
    },
    /// `callee(args)`.
    Call { callee: Box<Expr>, args: Vec<Expr> },
    /// `left op right`.
    Binary { op: BinOpKind, left: Box<Expr>, right: Box<Expr> },
    Path(Res),
    /// A string literal.
    Str(String),
    /// `for`, `while` or `loop`, with what stands in it, in order.
    Loop(Vec<Node>),
    Closure,
    /// Any other expression, with what stands in it, in order.
    Other(Vec<Node>),
}

/// A pattern: the variable that it binds itself, if it does, and its parts.
pub struct Pat {
    pub binding: Option<u64>,
    pub parts: Vec<Node>,
}

/// A part of an expression or of a pattern.
pub enum Node {
    Expr(Expr),
    Pat(Pat),
}

/// A function's body.
pub struct Body {
    pub params: Vec<Pat>,
    pub value: Expr,
}

impl Expr {
    /// The expression and all expressions in it: each before those in it, and
    /// in the order in which they stand.
    pub open spec fn exprs(self) -> Seq<Expr>
        decreases self,
    {
        seq![self] + match self.kind {
            ExprKind::MethodCall { method, receiver, args, .. } => receiver.exprs()
                + list_exprs(args@),
            ExprKind::Call { callee, args } => callee.exprs() + list_exprs(args@),
            ExprKind::Binary { op, left, right } => left.exprs() + right.exprs(),
            ExprKind::Loop(parts) => nodes_exprs(parts@),
            ExprKind::Other(parts) => nodes_exprs(parts@),
            _ => Seq::empty(),
        }
    }

    /// The variables that the patterns in the expression bind, in the order in
    /// which they stand.
    pub open spec fn bindings(self) -> Seq<u64>
        decreases self,
    {
        match self.kind {
            ExprKind::MethodCall { method, receiver, args, .. } => receiver.bindings()
                + list_bindings(args@),
            ExprKind::Call { callee, args } => callee.bindings() + list_bindings(args@),
            ExprKind::Binary { op, left, right } => left.bindings() + right.bindings(),
            ExprKind::Loop(parts) => nodes_bindings(parts@),
            ExprKind::Other(parts) => nodes_bindings(parts@),
            _ => Seq::empty(),
        }
    }

    /// The local variable that the expression is the name of, if it is one.
    pub open spec fn local(self) -> Option<u64> {
        match self.kind {
            ExprKind::Path(Res::Local(id)) => Some(id),
            _ => None,
        }
    }

    /// The item that the expression is the path of, if it is one.
    pub open spec fn definition(self) -> Option<u64> {
        match self.kind {
            ExprKind::Path(Res::Def { id, path }) => Some(id),
            _ => None,
        }
    }
}

impl Pat {
    /// The expressions in the pattern.
    pub open spec fn exprs(self) -> Seq<Expr>
        decreases self,
    {
        nodes_exprs(self.parts@)
    }

    /// The variables that the pattern binds.
    pub open spec fn bindings(self) -> Seq<u64>
        decreases self,
    {
        (match self.binding {
            Some(id) => seq![id],
            None => Seq::empty(),
        }) + nodes_bindings(self.parts@)
    }
}

impl Node {
    pub open spec fn exprs(self) -> Seq<Expr>
        decreases self,
    {
        match self {
            Node::Expr(expr) => expr.exprs(),
            Node::Pat(pat) => pat.exprs(),
        }
    }

    pub open spec fn bindings(self) -> Seq<u64>
        decreases self,
    {
        match self {
            Node::Expr(expr) => expr.bindings(),
            Node::Pat(pat) => pat.bindings(),
        }
    }
}

/// The expressions in a list of expressions.
pub open spec fn list_exprs(list: Seq<Expr>) -> Seq<Expr>
    decreases list,
{
    if list.len() == 0 {
        Seq::empty()
    } else {
        list_exprs(list.drop_last()) + list.last().exprs()
    }
}

/// The expressions in a list of parts.
pub open spec fn nodes_exprs(list: Seq<Node>) -> Seq<Expr>
    decreases list,
{
    if list.len() == 0 {
        Seq::empty()
    } else {
        nodes_exprs(list.drop_last()) + list.last().exprs()
    }
}

/// The expressions in a list of patterns.
pub open spec fn pats_exprs(list: Seq<Pat>) -> Seq<Expr>
    decreases list,
{
    if list.len() == 0 {
        Seq::empty()
    } else {
        pats_exprs(list.drop_last()) + list.last().exprs()
    }
}

/// The variables bound in a list of expressions.
pub open spec fn list_bindings(list: Seq<Expr>) -> Seq<u64>
    decreases list,
{
    if list.len() == 0 {
        Seq::empty()
    } else {
        list_bindings(list.drop_last()) + list.last().bindings()
    }
}

/// The variables bound in a list of parts.
pub open spec fn nodes_bindings(list: Seq<Node>) -> Seq<u64>
    decreases list,
{
    if list.len() == 0 {
        Seq::empty()
    } else {
        nodes_bindings(list.drop_last()) + list.last().bindings()
    }
}

impl Body {
    /// The expressions in the body: those in the parameters, then its value and
    /// all expressions in that.
    pub open spec fn exprs(self) -> Seq<Expr> {
        pats_exprs(self.params@) + self.value.exprs()
    }

    /// The expressions in the body, in the order of `exprs`.
    pub fn walk(&self) -> (found: Vec<&Expr>)
        ensures
            found@.unref() == self.exprs(),
    {
        let mut found: Vec<&Expr> = Vec::new();
        assert(found@.unref() =~= Seq::empty());
        for i in 0..self.params.len()
            invariant
                found@.unref() == pats_exprs(self.params@.take(i as int)),
        {
            walk_pat(&self.params[i], &mut found);
            proof {
                let seen = self.params@.take(i + 1);
                assert(seen.drop_last() =~= self.params@.take(i as int));
            }
        }
        assert(self.params@.take(self.params@.len() as int) =~= self.params@);
        walk_expr(&self.value, &mut found);
        found
    }
}

impl Expr {
    /// The expression and all expressions in it, in the order of `exprs`.
    pub fn walk(&self) -> (found: Vec<&Expr>)
        ensures
            found@.unref() == self.exprs(),
    {
        let mut found: Vec<&Expr> = Vec::new();
        walk_expr(self, &mut found);
        assert(found@.unref() =~= self.exprs());
        found
    }
}

fn walk_expr<'a>(expr: &'a Expr, found: &mut Vec<&'a Expr>)
    ensures
        final(found)@.unref() == old(found)@.unref() + expr.exprs(),
    decreases expr,
{
    let ghost before = found@.unref();
    found.push(expr);
    assert(found@.unref() =~= before.push(*expr));
    match &expr.kind {
        ExprKind::MethodCall { receiver, args, .. } => {
            walk_expr(receiver, found);
            walk_list(args, found);
        },
        ExprKind::Call { callee, args } => {
            walk_expr(callee, found);
            walk_list(args, found);
        },
        ExprKind::Binary { left, right, .. } => {
            walk_expr(left, found);
            walk_expr(right, found);
        },
        ExprKind::Loop(parts) => walk_nodes(parts, found),
        ExprKind::Other(parts) => walk_nodes(parts, found),
        _ => {},
    }
    assert(found@.unref() =~= before + expr.exprs());
}

fn walk_list<'a>(list: &'a Vec<Expr>, found: &mut Vec<&'a Expr>)
    ensures
        final(found)@.unref() == old(found)@.unref() + list_exprs(list@),
    decreases list,
{
    let ghost before = found@.unref();
    assert(before + Seq::<Expr>::empty() =~= before);
    for i in 0..list.len()
        invariant
            found@.unref() == before + list_exprs(list@.take(i as int)),
    {
        walk_expr(&list[i], found);
        proof {
            let seen = list@.take(i + 1);
            assert(seen.drop_last() =~= list@.take(i as int));
            assert(found@.unref() =~= before + list_exprs(seen));
        }
    }
    assert(list@.take(list@.len() as int) =~= list@);
}

fn walk_nodes<'a>(list: &'a Vec<Node>, found: &mut Vec<&'a Expr>)
    ensures
        final(found)@.unref() == old(found)@.unref() + nodes_exprs(list@),
    decreases list,
{
    let ghost before = found@.unref();
    assert(before + Seq::<Expr>::empty() =~= before);
    for i in 0..list.len()
        invariant
            found@.unref() == before + nodes_exprs(list@.take(i as int)),
    {
        walk_node(&list[i], found);
        proof {
            let seen = list@.take(i + 1);
            assert(seen.drop_last() =~= list@.take(i as int));
            assert(found@.unref() =~= before + nodes_exprs(seen));
        }
    }
    assert(list@.take(list@.len() as int) =~= list@);
}

fn walk_node<'a>(node: &'a Node, found: &mut Vec<&'a Expr>)
    ensures
        final(found)@.unref() == old(found)@.unref() + node.exprs(),
    decreases node,
{
    match node {
        Node::Expr(expr) => walk_expr(expr, found),
        Node::Pat(pat) => walk_pat(pat, found),
    }
}

fn walk_pat<'a>(pat: &'a Pat, found: &mut Vec<&'a Expr>)
    ensures
        final(found)@.unref() == old(found)@.unref() + pat.exprs(),
    decreases pat,
{
    walk_nodes(&pat.parts, found);
}

/// Whether `inner` stands directly in `outer`: as the receiver, the callee, an
/// argument or an operand, or among the parts of a loop, of another expression
/// or of a pattern.
pub open spec fn directly_in(inner: Node, outer: Node) -> bool {
    match outer {
        Node::Expr(expr) => match expr.kind {
            ExprKind::MethodCall { receiver, args, .. } => inner == Node::Expr(*receiver) || exists|
                i: int,
            |
                0 <= i < args@.len() && inner == Node::Expr(#[trigger] args@[i]),
            ExprKind::Call { callee, args } => inner == Node::Expr(*callee) || exists|i: int|
                0 <= i < args@.len() && inner == Node::Expr(#[trigger] args@[i]),
            ExprKind::Binary { op, left, right } => inner == Node::Expr(*left) || inner
                == Node::Expr(*right),
            ExprKind::Loop(parts) => parts@.contains(inner),
            ExprKind::Other(parts) => parts@.contains(inner),
            _ => false,
        },
        Node::Pat(pat) => pat.parts@.contains(inner),
    }
}

/// Whether one gets from `outer` to `inner` by going from a node to one directly
/// in it `steps` times.
pub open spec fn reached(outer: Node, inner: Node, steps: nat) -> bool
    decreases steps,
{
    if steps == 0 {
        outer == inner
    } else {
        exists|next: Node| #[trigger]
            directly_in(next, outer) && reached(next, inner, (steps - 1) as nat)
    }
}

proof fn either_holds_it<T>(left: Seq<T>, right: Seq<T>, x: T)
    ensures
        (left + right).contains(x) <==> left.contains(x) || right.contains(x),
{
    let both = left + right;
    if left.contains(x) {
        let i = choose|i: int| 0 <= i < left.len() && left[i] == x;
        assert(both[i] == x);
    }
    if right.contains(x) {
        let i = choose|i: int| 0 <= i < right.len() && right[i] == x;
        assert(both[left.len() + i] == x);
    }
    if both.contains(x) {
        let i = choose|i: int| 0 <= i < both.len() && both[i] == x;
        if i < left.len() {
            assert(left[i] == x);
        } else {
            assert(right[i - left.len()] == x);
        }
    }
}

proof fn list_exprs_by_member(list: Seq<Expr>, x: Expr)
    ensures
        list_exprs(list).contains(x) <==> exists|i: int|
            0 <= i < list.len() && (#[trigger] list[i]).exprs().contains(x),
    decreases list.len(),
{
    if list.len() > 0 {
        let front = list.drop_last();
        list_exprs_by_member(front, x);
        either_holds_it(list_exprs(front), list.last().exprs(), x);
        if list_exprs(front).contains(x) {
            let i = choose|i: int| 0 <= i < front.len() && (#[trigger] front[i]).exprs().contains(x);
            assert(list[i] == front[i]);
        }
        if list.last().exprs().contains(x) {
            assert(list[list.len() - 1].exprs().contains(x));
        }
        if exists|i: int| 0 <= i < list.len() && (#[trigger] list[i]).exprs().contains(x) {
            let i = choose|i: int| 0 <= i < list.len() && (#[trigger] list[i]).exprs().contains(x);
            if i < front.len() {
                assert(front[i].exprs().contains(x));
            }
        }
    }
}

proof fn nodes_exprs_by_member(list: Seq<Node>, x: Expr)
    ensures
        nodes_exprs(list).contains(x) <==> exists|i: int|
            0 <= i < list.len() && (#[trigger] list[i]).exprs().contains(x),
    decreases list.len(),
{
    if list.len() > 0 {
        let front = list.drop_last();
        nodes_exprs_by_member(front, x);
        either_holds_it(nodes_exprs(front), list.last().exprs(), x);
        if nodes_exprs(front).contains(x) {
            let i = choose|i: int| 0 <= i < front.len() && (#[trigger] front[i]).exprs().contains(x);
            assert(list[i] == front[i]);
        }
        if list.last().exprs().contains(x) {
            assert(list[list.len() - 1].exprs().contains(x));
        }
        if exists|i: int| 0 <= i < list.len() && (#[trigger] list[i]).exprs().contains(x) {
            let i = choose|i: int| 0 <= i < list.len() && (#[trigger] list[i]).exprs().contains(x);
            if i < front.len() {
                assert(front[i].exprs().contains(x));
            }
        }
    }
}

proof fn pats_exprs_by_member(list: Seq<Pat>, x: Expr)
    ensures
        pats_exprs(list).contains(x) <==> exists|i: int|
            0 <= i < list.len() && (#[trigger] list[i]).exprs().contains(x),
    decreases list.len(),
{
    if list.len() > 0 {
        let front = list.drop_last();
        pats_exprs_by_member(front, x);
        either_holds_it(pats_exprs(front), list.last().exprs(), x);
        if pats_exprs(front).contains(x) {
            let i = choose|i: int| 0 <= i < front.len() && (#[trigger] front[i]).exprs().contains(x);
            assert(list[i] == front[i]);
        }
        if list.last().exprs().contains(x) {
            assert(list[list.len() - 1].exprs().contains(x));
        }
        if exists|i: int| 0 <= i < list.len() && (#[trigger] list[i]).exprs().contains(x) {
            let i = choose|i: int| 0 <= i < list.len() && (#[trigger] list[i]).exprs().contains(x);
            if i < front.len() {
                assert(front[i].exprs().contains(x));
            }
        }
    }
}

proof fn list_bindings_by_member(list: Seq<Expr>, x: u64)
    ensures
        list_bindings(list).contains(x) <==> exists|i: int|
            0 <= i < list.len() && (#[trigger] list[i]).bindings().contains(x),
    decreases list.len(),
{
    if list.len() > 0 {
        let front = list.drop_last();
        list_bindings_by_member(front, x);
        either_holds_it(list_bindings(front), list.last().bindings(), x);
        if list_bindings(front).contains(x) {
            let i = choose|i: int| 0 <= i < front.len() && (#[trigger] front[i]).bindings().contains(x);
            assert(list[i] == front[i]);
        }
        if list.last().bindings().contains(x) {
            assert(list[list.len() - 1].bindings().contains(x));
        }
        if exists|i: int| 0 <= i < list.len() && (#[trigger] list[i]).bindings().contains(x) {
            let i = choose|i: int| 0 <= i < list.len() && (#[trigger] list[i]).bindings().contains(x);
            if i < front.len() {
                assert(front[i].bindings().contains(x));
            }
        }
    }
}

proof fn nodes_bindings_by_member(list: Seq<Node>, x: u64)
    ensures
        nodes_bindings(list).contains(x) <==> exists|i: int|
            0 <= i < list.len() && (#[trigger] list[i]).bindings().contains(x),
    decreases list.len(),
{
    if list.len() > 0 {
        let front = list.drop_last();
        nodes_bindings_by_member(front, x);
        either_holds_it(nodes_bindings(front), list.last().bindings(), x);
        if nodes_bindings(front).contains(x) {
            let i = choose|i: int| 0 <= i < front.len() && (#[trigger] front[i]).bindings().contains(x);
            assert(list[i] == front[i]);
        }
        if list.last().bindings().contains(x) {
            assert(list[list.len() - 1].bindings().contains(x));
        }
        if exists|i: int| 0 <= i < list.len() && (#[trigger] list[i]).bindings().contains(x) {
            let i = choose|i: int| 0 <= i < list.len() && (#[trigger] list[i]).bindings().contains(x);
            if i < front.len() {
                assert(front[i].bindings().contains(x));
            }
        }
    }
}

/// What is in a node is the node itself or is in a node directly in it.
proof fn exprs_come_from_parts(outer: Node, x: Expr)
    ensures
        outer.exprs().contains(x) <==> (outer is Expr && outer->Expr_0 == x) || exists|next: Node| #[trigger]
            directly_in(next, outer) && next.exprs().contains(x),
{
    match outer {
        Node::Expr(expr) => {
            match expr.kind {
                ExprKind::MethodCall { receiver, args, .. } => {
                    list_exprs_by_member(args@, x);
                    either_holds_it(receiver.exprs(), list_exprs(args@), x);
                    either_holds_it(seq![expr], receiver.exprs() + list_exprs(args@), x);
                    assert(seq![expr].contains(x) <==> expr == x) by {
                        assert(seq![expr][0] == expr);
                    }
                    if receiver.exprs().contains(x) {
                        assert(directly_in(Node::Expr(*receiver), outer));
                    }
                    if list_exprs(args@).contains(x) {
                        let i = choose|i: int|
                            0 <= i < args@.len() && (#[trigger] args@[i]).exprs().contains(x);
                        assert(directly_in(Node::Expr(args@[i]), outer));
                    }
                },
                ExprKind::Call { callee, args } => {
                    list_exprs_by_member(args@, x);
                    either_holds_it(callee.exprs(), list_exprs(args@), x);
                    either_holds_it(seq![expr], callee.exprs() + list_exprs(args@), x);
                    assert(seq![expr].contains(x) <==> expr == x) by {
                        assert(seq![expr][0] == expr);
                    }
                    if callee.exprs().contains(x) {
                        assert(directly_in(Node::Expr(*callee), outer));
                    }
                    if list_exprs(args@).contains(x) {
                        let i = choose|i: int|
                            0 <= i < args@.len() && (#[trigger] args@[i]).exprs().contains(x);
                        assert(directly_in(Node::Expr(args@[i]), outer));
                    }
                },
                ExprKind::Binary { op, left, right } => {
                    either_holds_it(left.exprs(), right.exprs(), x);
                    either_holds_it(seq![expr], left.exprs() + right.exprs(), x);
                    assert(seq![expr].contains(x) <==> expr == x) by {
                        assert(seq![expr][0] == expr);
                    }
                    assert(directly_in(Node::Expr(*left), outer));
                    assert(directly_in(Node::Expr(*right), outer));
                },
                ExprKind::Loop(parts) => {
                    nodes_exprs_by_member(parts@, x);
                    either_holds_it(seq![expr], nodes_exprs(parts@), x);
                    assert(seq![expr].contains(x) <==> expr == x) by {
                        assert(seq![expr][0] == expr);
                    }
                    if nodes_exprs(parts@).contains(x) {
                        let i = choose|i: int|
                            0 <= i < parts@.len() && (#[trigger] parts@[i]).exprs().contains(x);
                        assert(directly_in(parts@[i], outer));
                    }
                },
                ExprKind::Other(parts) => {
                    nodes_exprs_by_member(parts@, x);
                    either_holds_it(seq![expr], nodes_exprs(parts@), x);
                    assert(seq![expr].contains(x) <==> expr == x) by {
                        assert(seq![expr][0] == expr);
                    }
                    if nodes_exprs(parts@).contains(x) {
                        let i = choose|i: int|
                            0 <= i < parts@.len() && (#[trigger] parts@[i]).exprs().contains(x);
                        assert(directly_in(parts@[i], outer));
                    }
                },
                _ => {
                    either_holds_it(seq![expr], Seq::empty(), x);
                    assert(seq![expr].contains(x) <==> expr == x) by {
                        assert(seq![expr][0] == expr);
                    }
                },
            }
        },
        Node::Pat(pat) => {
            nodes_exprs_by_member(pat.parts@, x);
            
            if nodes_exprs(pat.parts@).contains(x) {
                let i = choose|i: int|
                    0 <= i < pat.parts@.len() && (#[trigger] pat.parts@[i]).exprs().contains(x);
                assert(directly_in(pat.parts@[i], outer));
            }
        },
    }
}

/// What is in a node is the node itself or is in a node directly in it.
proof fn bindings_come_from_parts(outer: Node, x: u64)
    ensures
        outer.bindings().contains(x) <==> (outer is Pat && outer->Pat_0.binding == Some(x)) || exists|next: Node| #[trigger]
            directly_in(next, outer) && next.bindings().contains(x),
{
    match outer {
        Node::Expr(expr) => {
            match expr.kind {
                ExprKind::MethodCall { receiver, args, .. } => {
                    list_bindings_by_member(args@, x);
                    either_holds_it(receiver.bindings(), list_bindings(args@), x);
                    
                    if receiver.bindings().contains(x) {
                        assert(directly_in(Node::Expr(*receiver), outer));
                    }
                    if list_bindings(args@).contains(x) {
                        let i = choose|i: int|
                            0 <= i < args@.len() && (#[trigger] args@[i]).bindings().contains(x);
                        assert(directly_in(Node::Expr(args@[i]), outer));
                    }
                },
                ExprKind::Call { callee, args } => {
                    list_bindings_by_member(args@, x);
                    either_holds_it(callee.bindings(), list_bindings(args@), x);
                    
                    if callee.bindings().contains(x) {
                        assert(directly_in(Node::Expr(*callee), outer));
                    }
                    if list_bindings(args@).contains(x) {
                        let i = choose|i: int|
                            0 <= i < args@.len() && (#[trigger] args@[i]).bindings().contains(x);
                        assert(directly_in(Node::Expr(args@[i]), outer));
                    }
                },
                ExprKind::Binary { op, left, right } => {
                    either_holds_it(left.bindings(), right.bindings(), x);
                    
                    assert(directly_in(Node::Expr(*left), outer));
                    assert(directly_in(Node::Expr(*right), outer));
                },
                ExprKind::Loop(parts) => {
                    nodes_bindings_by_member(parts@, x);
                    
                    if nodes_bindings(parts@).contains(x) {
                        let i = choose|i: int|
                            0 <= i < parts@.len() && (#[trigger] parts@[i]).bindings().contains(x);
                        assert(directly_in(parts@[i], outer));
                    }
                },
                ExprKind::Other(parts) => {
                    nodes_bindings_by_member(parts@, x);
                    
                    if nodes_bindings(parts@).contains(x) {
                        let i = choose|i: int|
                            0 <= i < parts@.len() && (#[trigger] parts@[i]).bindings().contains(x);
                        assert(directly_in(parts@[i], outer));
                    }
                },
                _ => {
                    
                },
            }
        },
        Node::Pat(pat) => {
            nodes_bindings_by_member(pat.parts@, x);
            let own = match pat.binding {
                Some(id) => seq![id],
                None => Seq::empty(),
            };
            either_holds_it(own, nodes_bindings(pat.parts@), x);
            if let Some(id) = pat.binding {
                assert(own[0] == id);
            }
            if nodes_bindings(pat.parts@).contains(x) {
                let i = choose|i: int|
                    0 <= i < pat.parts@.len() && (#[trigger] pat.parts@[i]).bindings().contains(x);
                assert(directly_in(pat.parts@[i], outer));
            }
        },
    }
}

/// Each direct part of an expression is among its expressions, with all that is
/// in it: the receiver and the arguments of a method call, the callee and the
/// arguments of a call, both operands of a binary expression, and the
/// expressions in the parts of any other.
pub proof fn parts_are_among_the_exprs(expr: Expr, inner: Expr)
    ensures
        expr.exprs().contains(expr),
        match expr.kind {
            ExprKind::MethodCall { receiver, args, .. } => {
                &&& receiver.exprs().contains(inner) ==> expr.exprs().contains(inner)
                &&& forall|i: int|
                    0 <= i < args@.len() && (#[trigger] args@[i]).exprs().contains(inner)
                        ==> expr.exprs().contains(inner)
            },
            ExprKind::Call { callee, args } => {
                &&& callee.exprs().contains(inner) ==> expr.exprs().contains(inner)
                &&& forall|i: int|
                    0 <= i < args@.len() && (#[trigger] args@[i]).exprs().contains(inner)
                        ==> expr.exprs().contains(inner)
            },
            ExprKind::Binary { op, left, right } => {
                &&& left.exprs().contains(inner) ==> expr.exprs().contains(inner)
                &&& right.exprs().contains(inner) ==> expr.exprs().contains(inner)
            },
            ExprKind::Loop(parts) => forall|i: int|
                0 <= i < parts@.len() && (#[trigger] parts@[i]).exprs().contains(inner)
                    ==> expr.exprs().contains(inner),
            ExprKind::Other(parts) => forall|i: int|
                0 <= i < parts@.len() && (#[trigger] parts@[i]).exprs().contains(inner)
                    ==> expr.exprs().contains(inner),
            _ => true,
        },
{
    let outer = Node::Expr(expr);
    exprs_come_from_parts(outer, expr);
    exprs_come_from_parts(outer, inner);
    match expr.kind {
        ExprKind::MethodCall { receiver, args, .. } => {
            assert(directly_in(Node::Expr(*receiver), outer));
            assert forall|i: int| 0 <= i < args@.len() && (#[trigger] args@[i]).exprs().contains(
                inner,
            ) implies expr.exprs().contains(inner) by {
                assert(directly_in(Node::Expr(args@[i]), outer));
            }
        },
        ExprKind::Call { callee, args } => {
            assert(directly_in(Node::Expr(*callee), outer));
            assert forall|i: int| 0 <= i < args@.len() && (#[trigger] args@[i]).exprs().contains(
                inner,
            ) implies expr.exprs().contains(inner) by {
                assert(directly_in(Node::Expr(args@[i]), outer));
            }
        },
        ExprKind::Binary { op, left, right } => {
            assert(directly_in(Node::Expr(*left), outer));
            assert(directly_in(Node::Expr(*right), outer));
        },
        ExprKind::Loop(parts) => {
            assert forall|i: int| 0 <= i < parts@.len() && (#[trigger] parts@[i]).exprs().contains(
                inner,
            ) implies expr.exprs().contains(inner) by {
                assert(directly_in(parts@[i], outer));
            }
        },
        ExprKind::Other(parts) => {
            assert forall|i: int| 0 <= i < parts@.len() && (#[trigger] parts@[i]).exprs().contains(
                inner,
            ) implies expr.exprs().contains(inner) by {
                assert(directly_in(parts@[i], outer));
            }
        },
        _ => {},
    }
}

/// Whatever expression can be reached from a node, at any depth, is among the
/// expressions of the node.
pub proof fn reached_exprs_are_found(outer: Node, inner: Expr, steps: nat)
    requires
        reached(outer, Node::Expr(inner), steps),
    ensures
        outer.exprs().contains(inner),
    decreases steps,
{
    exprs_come_from_parts(outer, inner);
    if steps > 0 {
        let next = choose|next: Node| #[trigger]
            directly_in(next, outer) && reached(next, Node::Expr(inner), (steps - 1) as nat);
        reached_exprs_are_found(next, inner, (steps - 1) as nat);
    }
}

/// A variable that a pattern at any depth of a node binds is among the variables
/// bound in the node.
pub proof fn reached_bindings_are_found(outer: Node, pat: Pat, id: u64, steps: nat)
    requires
        reached(outer, Node::Pat(pat), steps),
        pat.binding == Some(id),
    ensures
        outer.bindings().contains(id),
    decreases steps,
{
    bindings_come_from_parts(outer, id);
    if steps > 0 {
        let next = choose|next: Node| #[trigger]
            directly_in(next, outer) && reached(next, Node::Pat(pat), (steps - 1) as nat);
        reached_bindings_are_found(next, pat, id, (steps - 1) as nat);
    }
}

/// The number of nodes in a tree.
pub closed spec fn tree_size(node: Node) -> nat
    decreases node,
{
    match node {
        Node::Expr(expr) => expr_size(expr),
        Node::Pat(pat) => pat_size(pat),
    }
}

spec fn expr_size(expr: Expr) -> nat
    decreases expr,
{
    1 + match expr.kind {
        ExprKind::MethodCall { receiver, args, .. } => expr_size(*receiver) + list_size(args@),
        ExprKind::Call { callee, args } => expr_size(*callee) + list_size(args@),
        ExprKind::Binary { op, left, right } => expr_size(*left) + expr_size(*right),
        ExprKind::Loop(parts) => nodes_size(parts@),
        ExprKind::Other(parts) => nodes_size(parts@),
        _ => 0,
    }
}

spec fn pat_size(pat: Pat) -> nat
    decreases pat,
{
    1 + nodes_size(pat.parts@)
}

spec fn list_size(list: Seq<Expr>) -> nat
    decreases list,
{
    if list.len() == 0 {
        0
    } else {
        list_size(list.drop_last()) + expr_size(list.last())
    }
}

spec fn nodes_size(list: Seq<Node>) -> nat
    decreases list,
{
    if list.len() == 0 {
        0
    } else {
        nodes_size(list.drop_last()) + tree_size(list.last())
    }
}

proof fn members_are_smaller(list: Seq<Expr>, nodes: Seq<Node>, i: int)
    ensures
        0 <= i < list.len() ==> expr_size(list[i]) <= list_size(list),
        0 <= i < nodes.len() ==> tree_size(nodes[i]) <= nodes_size(nodes),
    decreases list.len() + nodes.len(),
{
    if 0 <= i < list.len() - 1 {
        assert(list.drop_last()[i] == list[i]);
        members_are_smaller(list.drop_last(), Seq::empty(), i);
    }
    if 0 <= i < nodes.len() - 1 {
        assert(nodes.drop_last()[i] == nodes[i]);
        members_are_smaller(Seq::empty(), nodes.drop_last(), i);
    }
}

proof fn parts_are_smaller(next: Node, outer: Node)
    requires
        directly_in(next, outer),
    ensures
        tree_size(next) < tree_size(outer),
{
    reveal_with_fuel(tree_size, 2);
    match outer {
        Node::Expr(expr) => match expr.kind {
            ExprKind::MethodCall { receiver, args, .. } => {
                if next != Node::Expr(*receiver) {
                    let i = choose|i: int|
                        0 <= i < args@.len() && next == Node::Expr(#[trigger] args@[i]);
                    members_are_smaller(args@, Seq::empty(), i);
                }
            },
            ExprKind::Call { callee, args } => {
                if next != Node::Expr(*callee) {
                    let i = choose|i: int|
                        0 <= i < args@.len() && next == Node::Expr(#[trigger] args@[i]);
                    members_are_smaller(args@, Seq::empty(), i);
                }
            },
            ExprKind::Loop(parts) => {
                let i = choose|i: int| 0 <= i < parts@.len() && parts@[i] == next;
                members_are_smaller(Seq::empty(), parts@, i);
            },
            ExprKind::Other(parts) => {
                let i = choose|i: int| 0 <= i < parts@.len() && parts@[i] == next;
                members_are_smaller(Seq::empty(), parts@, i);
            },
            _ => {},
        },
        Node::Pat(pat) => {
            let i = choose|i: int| 0 <= i < pat.parts@.len() && pat.parts@[i] == next;
            members_are_smaller(Seq::empty(), pat.parts@, i);
        },
    }
}

/// Among the expressions of a node are only such as can be reached from it.
pub proof fn found_exprs_are_reached(outer: Node, inner: Expr)
    requires
        outer.exprs().contains(inner),
    ensures
        exists|steps: nat| reached(outer, Node::Expr(inner), steps),
    decreases tree_size(outer),
{
    exprs_come_from_parts(outer, inner);
    if outer == Node::Expr(inner) {
        assert(reached(outer, Node::Expr(inner), 0));
    } else {
        let next = choose|next: Node| #[trigger]
            directly_in(next, outer) && next.exprs().contains(inner);
        parts_are_smaller(next, outer);
        found_exprs_are_reached(next, inner);
        let steps = choose|steps: nat| reached(next, Node::Expr(inner), steps);
        assert(reached(outer, Node::Expr(inner), steps + 1));
    }
}

/// Among the variables bound in a node are only such as a pattern binds that can
/// be reached from it.
pub proof fn found_bindings_are_reached(outer: Node, id: u64)
    requires
        outer.bindings().contains(id),
    ensures
        exists|pat: Pat, steps: nat| #[trigger]
            reached(outer, Node::Pat(pat), steps) && pat.binding == Some(id),
    decreases tree_size(outer),
{
    bindings_come_from_parts(outer, id);
    if outer is Pat && outer->Pat_0.binding == Some(id) {
        assert(reached(outer, Node::Pat(outer->Pat_0), 0));
    } else {
        let next = choose|next: Node| #[trigger]
            directly_in(next, outer) && next.bindings().contains(id);
        parts_are_smaller(next, outer);
        found_bindings_are_reached(next, id);
        let (pat, steps) = choose|pat: Pat, steps: nat| #[trigger]
            reached(next, Node::Pat(pat), steps) && pat.binding == Some(id);
        assert(reached(outer, Node::Pat(pat), steps + 1));
    }
}

/// The expressions of a list are those of its members, one after the other.
proof fn lists_of_lists(
    list: Seq<Expr>,
    nodes: Seq<Node>,
    pats: Seq<Pat>,
)
    ensures
        list.len() == 0 ==> list_exprs(list) == Seq::<Expr>::empty(),
        list.len() > 0 ==> list_exprs(list) == list[0].exprs() + list_exprs(list.skip(1)),
        nodes.len() == 0 ==> nodes_exprs(nodes) == Seq::<Expr>::empty(),
        nodes.len() > 0 ==> nodes_exprs(nodes) == nodes[0].exprs() + nodes_exprs(nodes.skip(1)),
        pats.len() == 0 ==> pats_exprs(pats) == Seq::<Expr>::empty(),
        pats.len() > 0 ==> pats_exprs(pats) == pats[0].exprs() + pats_exprs(pats.skip(1)),
    decreases list.len() + nodes.len() + pats.len(),
{
    if list.len() == 1 {
        assert(list.drop_last() =~= Seq::empty());
        assert(list.skip(1) =~= Seq::empty());
        assert(list_exprs(list) =~= list[0].exprs() + list_exprs(list.skip(1)));
    } else if list.len() > 1 {
        let front = list.drop_last();
        lists_of_lists(front, Seq::empty(), Seq::empty());
        assert(front.skip(1) =~= list.skip(1).drop_last());
        assert(list_exprs(list) =~= list[0].exprs() + list_exprs(list.skip(1)));
    }
    if nodes.len() == 1 {
        assert(nodes.drop_last() =~= Seq::empty());
        assert(nodes.skip(1) =~= Seq::empty());
        assert(nodes_exprs(nodes) =~= nodes[0].exprs() + nodes_exprs(nodes.skip(1)));
    } else if nodes.len() > 1 {
        let front = nodes.drop_last();
        lists_of_lists(Seq::empty(), front, Seq::empty());
        assert(front.skip(1) =~= nodes.skip(1).drop_last());
        assert(nodes_exprs(nodes) =~= nodes[0].exprs() + nodes_exprs(nodes.skip(1)));
    }
    if pats.len() == 1 {
        assert(pats.drop_last() =~= Seq::empty());
        assert(pats.skip(1) =~= Seq::empty());
        assert(pats_exprs(pats) =~= pats[0].exprs() + pats_exprs(pats.skip(1)));
    } else if pats.len() > 1 {
        let front = pats.drop_last();
        lists_of_lists(Seq::empty(), Seq::empty(), front);
        assert(front.skip(1) =~= pats.skip(1).drop_last());
        assert(pats_exprs(pats) =~= pats[0].exprs() + pats_exprs(pats.skip(1)));
    }
}

/// Expressions come in the order in which they stand, each once: an expression
/// before all that is in it, then, part by part from the first to the last, what
/// is in the part.
pub proof fn exprs_stand_in_order(expr: Expr, list: Seq<Expr>, nodes: Seq<Node>)
    ensures
        expr.exprs().first() == expr,
        match expr.kind {
            ExprKind::MethodCall { receiver, args, .. } => expr.exprs().skip(1) == receiver.exprs()
                + list_exprs(args@),
            ExprKind::Call { callee, args } => expr.exprs().skip(1) == callee.exprs() + list_exprs(
                args@,
            ),
            ExprKind::Binary { op, left, right } => expr.exprs().skip(1) == left.exprs()
                + right.exprs(),
            ExprKind::Loop(parts) => expr.exprs().skip(1) == nodes_exprs(parts@),
            ExprKind::Other(parts) => expr.exprs().skip(1) == nodes_exprs(parts@),
            ExprKind::Path(_) | ExprKind::Str(_) | ExprKind::Closure => expr.exprs().len() == 1,
        },
        list.len() == 0 ==> list_exprs(list).len() == 0,
        list.len() > 0 ==> list_exprs(list) == list[0].exprs() + list_exprs(list.skip(1)),
        nodes.len() == 0 ==> nodes_exprs(nodes).len() == 0,
        nodes.len() > 0 ==> nodes_exprs(nodes) == nodes[0].exprs() + nodes_exprs(nodes.skip(1)),
{
    lists_of_lists(list, nodes, Seq::empty());
    match expr.kind {
        ExprKind::MethodCall { receiver, args, .. } => {
            assert(expr.exprs().skip(1) =~= receiver.exprs() + list_exprs(args@));
        },
        ExprKind::Call { callee, args } => {
            assert(expr.exprs().skip(1) =~= callee.exprs() + list_exprs(args@));
        },
        ExprKind::Binary { op, left, right } => {
            assert(expr.exprs().skip(1) =~= left.exprs() + right.exprs());
        },
        ExprKind::Loop(parts) => {
            assert(expr.exprs().skip(1) =~= nodes_exprs(parts@));
        },
        ExprKind::Other(parts) => {
            assert(expr.exprs().skip(1) =~= nodes_exprs(parts@));
        },
        _ => {},
    }
}

/// The expressions of a body are those that can be reached from one of its
/// parameters or from its value.
pub proof fn bodies_hold_what_is_reached(body: Body, inner: Expr)
    ensures
        body.exprs().contains(inner) <==> {
            ||| exists|steps: nat| reached(Node::Expr(body.value), Node::Expr(inner), steps)
            ||| exists|i: int, steps: nat|
                0 <= i < body.params@.len() && #[trigger] reached(
                    Node::Pat(body.params@[i]),
                    Node::Expr(inner),
                    steps,
                )
        },
{
    either_holds_it(pats_exprs(body.params@), body.value.exprs(), inner);
    pats_exprs_by_member(body.params@, inner);
    if body.value.exprs().contains(inner) {
        assert(Node::Expr(body.value).exprs().contains(inner));
        found_exprs_are_reached(Node::Expr(body.value), inner);
    }
    if pats_exprs(body.params@).contains(inner) {
        let i = choose|i: int|
            0 <= i < body.params@.len() && (#[trigger] body.params@[i]).exprs().contains(inner);
        assert(Node::Pat(body.params@[i]).exprs().contains(inner));
        found_exprs_are_reached(Node::Pat(body.params@[i]), inner);
    }
    if exists|steps: nat| reached(Node::Expr(body.value), Node::Expr(inner), steps) {
        let steps = choose|steps: nat| reached(Node::Expr(body.value), Node::Expr(inner), steps);
        reached_exprs_are_found(Node::Expr(body.value), inner, steps);
        assert(body.value.exprs().contains(inner));
    }
    if exists|i: int, steps: nat|
        0 <= i < body.params@.len() && #[trigger] reached(
            Node::Pat(body.params@[i]),
            Node::Expr(inner),
            steps,
        ) {
        let (i, steps) = choose|i: int, steps: nat|
            0 <= i < body.params@.len() && #[trigger] reached(
                Node::Pat(body.params@[i]),
                Node::Expr(inner),
                steps,
            );
        reached_exprs_are_found(Node::Pat(body.params@[i]), inner, steps);
        assert(body.params@[i].exprs().contains(inner));
    }
}

/// In a body the parameters come first, from the first to the last, and then the
/// value.
pub proof fn bodies_stand_in_order(body: Body, pats: Seq<Pat>)
    ensures
        body.exprs() == pats_exprs(body.params@) + body.value.exprs(),
        pats.len() == 0 ==> pats_exprs(pats).len() == 0,
        pats.len() > 0 ==> pats_exprs(pats) == pats[0].exprs() + pats_exprs(pats.skip(1)),
{
    lists_of_lists(Seq::empty(), Seq::empty(), pats);
}

/// An expression is the name of a local variable, or the path of an item, only
/// where it is a path that leads there.
pub proof fn names_are_paths(expr: Expr, id: u64)
    ensures
        expr.local() == Some(id) <==> expr.kind == ExprKind::Path(Res::Local(id)),
        expr.definition() == Some(id) <==> (expr.kind matches ExprKind::Path(Res::Def {
            id: found,
            ..
        }) && found == id),
{
}

/// What a pattern binds is bound in it, and what is bound in a direct part of an
/// expression or of a pattern is bound in the whole; nothing else is.
pub proof fn parts_bind_for_the_whole(expr: Expr, pat: Pat, id: u64)
    ensures
        expr.bindings().contains(id) <==> match expr.kind {
            ExprKind::MethodCall { receiver, args, .. } => receiver.bindings().contains(id)
                || exists|i: int|
                0 <= i < args@.len() && (#[trigger] args@[i]).bindings().contains(id),
            ExprKind::Call { callee, args } => callee.bindings().contains(id) || exists|i: int|
                0 <= i < args@.len() && (#[trigger] args@[i]).bindings().contains(id),
            ExprKind::Binary { op, left, right } => left.bindings().contains(id)
                || right.bindings().contains(id),
            ExprKind::Loop(parts) => exists|i: int|
                0 <= i < parts@.len() && (#[trigger] parts@[i]).bindings().contains(id),
            ExprKind::Other(parts) => exists|i: int|
                0 <= i < parts@.len() && (#[trigger] parts@[i]).bindings().contains(id),
            ExprKind::Path(_) | ExprKind::Str(_) | ExprKind::Closure => false,
        },
        pat.bindings().contains(id) <==> pat.binding == Some(id) || exists|i: int|
            0 <= i < pat.parts@.len() && (#[trigger] pat.parts@[i]).bindings().contains(id),
        Node::Expr(expr).bindings() == expr.bindings(),
        Node::Pat(pat).bindings() == pat.bindings(),
        Node::Expr(expr).exprs() == expr.exprs(),
        Node::Pat(pat).exprs() == nodes_exprs(pat.parts@),
{
    match expr.kind {
        ExprKind::MethodCall { receiver, args, .. } => {
            list_bindings_by_member(args@, id);
            either_holds_it(receiver.bindings(), list_bindings(args@), id);
        },
        ExprKind::Call { callee, args } => {
            list_bindings_by_member(args@, id);
            either_holds_it(callee.bindings(), list_bindings(args@), id);
        },
        ExprKind::Binary { op, left, right } => {
            either_holds_it(left.bindings(), right.bindings(), id);
        },
        ExprKind::Loop(parts) => {
            nodes_bindings_by_member(parts@, id);
        },
        ExprKind::Other(parts) => {
            nodes_bindings_by_member(parts@, id);
        },
        _ => {},
    }
    nodes_bindings_by_member(pat.parts@, id);
    let own = match pat.binding {
        Some(found) => seq![found],
        None => Seq::empty(),
    };
    either_holds_it(own, nodes_bindings(pat.parts@), id);
    if let Some(found) = pat.binding {
        assert(own[0] == found);
    }
}

} // verus!
