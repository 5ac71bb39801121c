//! The reconditioning pass: a type-directed, structure-preserving rewrite
//! that replaces arithmetic operators with calls to safe wrapper functions
//! and bounds every unconditional loop, so that the output program is free
//! of undefined behaviour while behaving identically on defined executions.
//!
//! The whole rewrite is mirrored by spec functions over the mirror node
//! types (`rc_expr`, `rc_stmt`, ...); every executable method is proved to
//! compute exactly what its mirror function says.

use crate::ast::{
    deep_view_exprs, deep_view_postfixes, deep_view_stmts, lemma_deep_view_exprs, lemma_deep_view_exprs_cons,
    lemma_deep_view_postfixes, lemma_deep_view_stmts, lemma_deep_view_stmts_cons, AssignmentLhs, AssignmentLhsV,
    AssignmentOp, BinOp, Expr, ExprNode, ExprNodeV, ExprV, FnDecl, FnDeclV, Lit, Postfix,
    PostfixV, Program, ProgramV, Statement, StatementV,
};
use crate::naming::{arith_operand, safe_ident};
use crate::types::{DataType, DataTypeV, ScalarType};
use std::rc::Rc;
use vstd::prelude::*;

verus! {

/// The bound the emitted guards enforce: a reconditioned loop body runs at
/// most this many times. A policy constant; any finite value is sound.
pub const MAX_LOOP_ITERATIONS: u32 = 1;

/// The mathematical state of one pass: the next free loop-site index and
/// the set of safe-function identifiers requested so far.
pub ghost struct PassState {
    pub ctr: nat,
    pub fns: Set<Seq<char>>,
}

impl PassState {
    /// The state a fresh pass starts from.
    pub open spec fn init() -> PassState {
        PassState { ctr: 0, fns: Set::empty() }
    }

    /// Records one requested safe-function identifier.
    pub open spec fn note(self, id: Seq<char>) -> PassState {
        PassState { ctr: self.ctr, fns: self.fns.insert(id) }
    }

    /// Allocates one loop-site index.
    pub open spec fn next(self) -> PassState {
        PassState { ctr: self.ctr + 1, fns: self.fns }
    }
}

/// The wrapper-name part for an arithmetic operator; `None` for every
/// comparison, logical and bitwise operator, which are never rewritten.
pub open spec fn arith_op_name(op: BinOp) -> Option<Seq<char>> {
    match op {
        BinOp::Plus => Some("PLUS"@),
        BinOp::Minus => Some("MINUS"@),
        BinOp::Times => Some("TIMES"@),
        BinOp::Divide => Some("DIVIDE"@),
        BinOp::Mod => Some("MOD"@),
        _ => None,
    }
}

// ---------------------------------------------------------------------------
// Supported inputs.
//
// Requesting a safe function for an array or aggregate operand is a
// generator-contract violation and must fail fast rather than rewrite
// incorrectly; the pass therefore accepts only inputs whose arithmetic
// operators sit on scalar or vector types.
// ---------------------------------------------------------------------------

/// Every arithmetic binary operator in the expression has a scalar or
/// vector result type.
pub open spec fn rewritable_expr(e: ExprNodeV) -> bool
    decreases e,
{
    match e.expr {
        ExprV::TypeCons(_, args) => rewritable_exprs(args),
        ExprV::UnOp(_, i) => rewritable_expr(*i),
        ExprV::BinOp(op, l, r) => (arith_op_name(op) is Some ==> arith_operand(e.data_type))
            && rewritable_expr(*l) && rewritable_expr(*r),
        ExprV::FnCall(_, args) => rewritable_exprs(args),
        ExprV::Postfix(b, p) => rewritable_expr(*b) && rewritable_postfix(p),
        _ => true,
    }
}

/// `rewritable_expr`, over a sequence of expression nodes.
pub open spec fn rewritable_exprs(es: Seq<ExprNodeV>) -> bool
    decreases es,
{
    es.len() == 0 || (rewritable_expr(es[0]) && rewritable_exprs(
        es.subrange(1, es.len() as int),
    ))
}

/// `rewritable_expr`, over a postfix access.
pub open spec fn rewritable_postfix(p: PostfixV) -> bool
    decreases p,
{
    match p {
        PostfixV::ArrayIndex(e) => rewritable_expr(*e),
        PostfixV::Member(_) => true,
    }
}

/// `rewritable_expr`, over an optional expression node.
pub open spec fn rewritable_opt_expr(e: Option<ExprNodeV>) -> bool {
    match e {
        Some(e0) => rewritable_expr(e0),
        None => true,
    }
}

/// Every arithmetic binary operator in a position the rewrite visits has a
/// scalar or vector result type.
pub open spec fn rewritable_stmt(s: StatementV) -> bool
    decreases s,
{
    match s {
        StatementV::LetDecl(_, e) => rewritable_expr(e),
        StatementV::VarDecl(_, _, e) => rewritable_opt_expr(e),
        StatementV::Assignment(_, _, e) => rewritable_expr(e),
        StatementV::Compound(b) => rewritable_stmts(b),
        StatementV::If(c, b) => rewritable_expr(c) && rewritable_stmts(b),
        StatementV::Return(e) => rewritable_opt_expr(e),
        StatementV::Loop(b) => rewritable_stmts(b),
        StatementV::Break => true,
        StatementV::ForLoop(_, _) => true,
    }
}

/// `rewritable_stmt`, over a sequence of statements.
pub open spec fn rewritable_stmts(ss: Seq<StatementV>) -> bool
    decreases ss,
{
    ss.len() == 0 || (rewritable_stmt(ss[0]) && rewritable_stmts(
        ss.subrange(1, ss.len() as int),
    ))
}

/// `rewritable_stmt`, over a whole function body.
pub open spec fn rewritable_fn(f: FnDeclV) -> bool {
    rewritable_stmts(f.body)
}

/// `rewritable_fn`, over a sequence of function declarations.
pub open spec fn rewritable_fns(fs: Seq<FnDeclV>) -> bool
    decreases fs,
{
    fs.len() == 0 || (rewritable_fn(fs[0]) && rewritable_fns(fs.subrange(1, fs.len() as int)))
}

/// `rewritable_fn`, over a whole program.
pub open spec fn rewritable_program(p: ProgramV) -> bool {
    rewritable_fn(p.entrypoint) && rewritable_fns(p.functions)
}

// ---------------------------------------------------------------------------
// Loop-site counting.
// ---------------------------------------------------------------------------

/// The number of unconditional loop sites the rewrite visits in a
/// statement. For-loops lie outside the supported grammar and are passed
/// through unvisited.
pub open spec fn n_loops_stmt(s: StatementV) -> nat
    decreases s,
{
    match s {
        StatementV::Compound(b) => n_loops_stmts(b),
        StatementV::If(_, b) => n_loops_stmts(b),
        StatementV::Loop(b) => 1 + n_loops_stmts(b),
        _ => 0,
    }
}

/// `n_loops_stmt`, summed over a sequence of statements.
pub open spec fn n_loops_stmts(ss: Seq<StatementV>) -> nat
    decreases ss,
{
    if ss.len() == 0 {
        0
    } else {
        n_loops_stmt(ss[0]) + n_loops_stmts(ss.subrange(1, ss.len() as int))
    }
}

/// `n_loops_stmt`, summed over a function body.
pub open spec fn n_loops_fn(f: FnDeclV) -> nat {
    n_loops_stmts(f.body)
}

/// `n_loops_fn`, summed over a sequence of function declarations.
pub open spec fn n_loops_fns(fs: Seq<FnDeclV>) -> nat
    decreases fs,
{
    if fs.len() == 0 {
        0
    } else {
        n_loops_fn(fs[0]) + n_loops_fns(fs.subrange(1, fs.len() as int))
    }
}

/// The number of loop sites in a whole program, entrypoint first.
pub open spec fn n_loops_program(p: ProgramV) -> nat {
    n_loops_fn(p.entrypoint) + n_loops_fns(p.functions)
}

// ---------------------------------------------------------------------------
// The emitted bounding statements.
// ---------------------------------------------------------------------------

/// A `u32` literal expression node.
pub open spec fn uint_lit(v: u32) -> ExprNodeV {
    ExprNodeV { data_type: DataTypeV::Scalar(ScalarType::U32), expr: ExprV::Lit(Lit::UInt(v)) }
}

/// The expression `LOOP_COUNTERS[id]`.
pub open spec fn counter_slot(id: u32) -> ExprNodeV {
    ExprNodeV {
        data_type: DataTypeV::Scalar(ScalarType::U32),
        expr: ExprV::Postfix(
            Box::new(
                ExprNodeV {
                    data_type: DataTypeV::Array(
                        Box::new(DataTypeV::Scalar(ScalarType::U32)),
                        None,
                    ),
                    expr: ExprV::Var("LOOP_COUNTERS"@),
                },
            ),
            PostfixV::ArrayIndex(Box::new(uint_lit(id))),
        ),
    }
}

/// The guard prepended to a bounded loop body:
/// `if LOOP_COUNTERS[id] >= MAX_LOOP_ITERATIONS { break; }`.
pub open spec fn loop_guard(id: u32) -> StatementV {
    StatementV::If(
        ExprNodeV {
            data_type: DataTypeV::Scalar(ScalarType::Bool),
            expr: ExprV::BinOp(
                BinOp::GreaterEqual,
                Box::new(counter_slot(id)),
                Box::new(uint_lit(MAX_LOOP_ITERATIONS)),
            ),
        },
        seq![StatementV::Break],
    )
}

/// The increment that follows the guard:
/// `LOOP_COUNTERS[id] = LOOP_COUNTERS[id] + 1`.
pub open spec fn loop_increment(id: u32) -> StatementV {
    StatementV::Assignment(
        AssignmentLhsV::Simple(
            "LOOP_COUNTERS"@,
            seq![PostfixV::ArrayIndex(Box::new(uint_lit(id)))],
        ),
        AssignmentOp::Simple,
        ExprNodeV {
            data_type: DataTypeV::Scalar(ScalarType::U32),
            expr: ExprV::BinOp(
                BinOp::Plus,
                Box::new(counter_slot(id)),
                Box::new(uint_lit(1)),
            ),
        },
    )
}

// ---------------------------------------------------------------------------
// The mirror of the rewrite.
// ---------------------------------------------------------------------------

/// The binary-operator rule: an arithmetic operator becomes a call to the
/// safe function for (operator, result type), which is recorded; every
/// other operator is kept with its already-rewritten operands.
pub open spec fn rc_binop(
    st: PassState,
    ty: DataTypeV,
    op: BinOp,
    l: ExprNodeV,
    r: ExprNodeV,
) -> (PassState, ExprNodeV) {
    match arith_op_name(op) {
        Some(name) => {
            let id = safe_ident(name, ty);
            (st.note(id), ExprNodeV { data_type: ty, expr: ExprV::FnCall(id, seq![l, r]) })
        },
        None => (
            st,
            ExprNodeV { data_type: ty, expr: ExprV::BinOp(op, Box::new(l), Box::new(r)) },
        ),
    }
}

/// The expression rewrite: children bottom-up, then the binary-op rule;
/// the result type annotation is carried through untouched.
pub open spec fn rc_expr(st: PassState, e: ExprNodeV) -> (PassState, ExprNodeV)
    decreases e,
{
    match e.expr {
        ExprV::TypeCons(t, args) => {
            let (st1, a) = rc_exprs(st, args);
            (st1, ExprNodeV { data_type: e.data_type, expr: ExprV::TypeCons(t, a) })
        },
        ExprV::UnOp(op, i) => {
            let (st1, i1) = rc_expr(st, *i);
            (st1, ExprNodeV { data_type: e.data_type, expr: ExprV::UnOp(op, Box::new(i1)) })
        },
        ExprV::BinOp(op, l, r) => {
            let (st1, l1) = rc_expr(st, *l);
            let (st2, r1) = rc_expr(st1, *r);
            rc_binop(st2, e.data_type, op, l1, r1)
        },
        ExprV::FnCall(name, args) => {
            let (st1, a) = rc_exprs(st, args);
            (st1, ExprNodeV { data_type: e.data_type, expr: ExprV::FnCall(name, a) })
        },
        ExprV::Postfix(b, p) => {
            let (st1, b1) = rc_expr(st, *b);
            let (st2, p1) = rc_postfix(st1, p);
            (
                st2,
                ExprNodeV { data_type: e.data_type, expr: ExprV::Postfix(Box::new(b1), p1) },
            )
        },
        _ => (st, e),
    }
}

/// The expression rewrite over a sequence, left to right.
pub open spec fn rc_exprs(st: PassState, es: Seq<ExprNodeV>) -> (PassState, Seq<ExprNodeV>)
    decreases es,
{
    if es.len() == 0 {
        (st, es)
    } else {
        let (st1, h) = rc_expr(st, es[0]);
        let (st2, t) = rc_exprs(st1, es.subrange(1, es.len() as int));
        (st2, seq![h] + t)
    }
}

/// The expression rewrite under a postfix access.
pub open spec fn rc_postfix(st: PassState, p: PostfixV) -> (PassState, PostfixV)
    decreases p,
{
    match p {
        PostfixV::ArrayIndex(e) => {
            let (st1, e1) = rc_expr(st, *e);
            (st1, PostfixV::ArrayIndex(Box::new(e1)))
        },
        PostfixV::Member(_) => (st, p),
    }
}

/// The expression rewrite over an optional expression.
pub open spec fn rc_opt_expr(
    st: PassState,
    e: Option<ExprNodeV>,
) -> (PassState, Option<ExprNodeV>) {
    match e {
        Some(e0) => {
            let (st1, e1) = rc_expr(st, e0);
            (st1, Some(e1))
        },
        None => (st, None),
    }
}

/// The statement rewrite. Declarations and assignments rewrite only their
/// expression; blocks recurse in order; a loop allocates the next site
/// index, prepends guard and increment, and recurses into its body; a
/// for-loop lies outside the supported grammar and passes through.
pub open spec fn rc_stmt(st: PassState, s: StatementV) -> (PassState, StatementV)
    decreases s,
{
    match s {
        StatementV::LetDecl(n, e) => {
            let (st1, e1) = rc_expr(st, e);
            (st1, StatementV::LetDecl(n, e1))
        },
        StatementV::VarDecl(n, t, e) => {
            let (st1, e1) = rc_opt_expr(st, e);
            (st1, StatementV::VarDecl(n, t, e1))
        },
        StatementV::Assignment(lhs, op, e) => {
            let (st1, e1) = rc_expr(st, e);
            (st1, StatementV::Assignment(lhs, op, e1))
        },
        StatementV::Compound(b) => {
            let (st1, b1) = rc_stmts(st, b);
            (st1, StatementV::Compound(b1))
        },
        StatementV::If(c, b) => {
            let (st1, c1) = rc_expr(st, c);
            let (st2, b1) = rc_stmts(st1, b);
            (st2, StatementV::If(c1, b1))
        },
        StatementV::Return(e) => {
            let (st1, e1) = rc_opt_expr(st, e);
            (st1, StatementV::Return(e1))
        },
        StatementV::Loop(b) => {
            let id = st.ctr as u32;
            let (st1, b1) = rc_stmts(st.next(), b);
            (st1, StatementV::Loop(seq![loop_guard(id), loop_increment(id)] + b1))
        },
        StatementV::Break => (st, s),
        StatementV::ForLoop(_, _) => (st, s),
    }
}

/// The statement rewrite over a sequence, in program order.
pub open spec fn rc_stmts(st: PassState, ss: Seq<StatementV>) -> (PassState, Seq<StatementV>)
    decreases ss,
{
    if ss.len() == 0 {
        (st, ss)
    } else {
        let (st1, h) = rc_stmt(st, ss[0]);
        let (st2, t) = rc_stmts(st1, ss.subrange(1, ss.len() as int));
        (st2, seq![h] + t)
    }
}

/// The function rewrite: only the body changes; attributes, name and
/// signature are carried through untouched.
pub open spec fn rc_fn(st: PassState, f: FnDeclV) -> (PassState, FnDeclV) {
    let (st1, b) = rc_stmts(st, f.body);
    (
        st1,
        FnDeclV { attrs: f.attrs, name: f.name, inputs: f.inputs, output: f.output, body: b },
    )
}

/// The function rewrite over a sequence, in their original order.
pub open spec fn rc_fns(st: PassState, fs: Seq<FnDeclV>) -> (PassState, Seq<FnDeclV>)
    decreases fs,
{
    if fs.len() == 0 {
        (st, fs)
    } else {
        let (st1, h) = rc_fn(st, fs[0]);
        let (st2, t) = rc_fns(st1, fs.subrange(1, fs.len() as int));
        (st2, seq![h] + t)
    }
}

/// One whole pass from a fresh state: the entrypoint first, then the
/// ordinary functions in order.
pub open spec fn rc_program(p: ProgramV) -> (PassState, ProgramV) {
    let (st1, entry) = rc_fn(PassState::init(), p.entrypoint);
    let (st2, fs) = rc_fns(st1, p.functions);
    (st2, ProgramV { entrypoint: entry, functions: fs })
}

// ---------------------------------------------------------------------------
// The expression rewrite never touches the loop-site counter, and the
// statement rewrite advances it by exactly the number of loop sites.
// ---------------------------------------------------------------------------

/// The expression rewrite leaves the loop-site counter unchanged.
pub proof fn lemma_rc_expr_ctr(st: PassState, e: ExprNodeV)
    ensures
        rc_expr(st, e).0.ctr == st.ctr,
    decreases e,
{
    match e.expr {
        ExprV::TypeCons(_, args) => lemma_rc_exprs_ctr(st, args),
        ExprV::UnOp(_, i) => lemma_rc_expr_ctr(st, *i),
        ExprV::BinOp(op, l, r) => {
            lemma_rc_expr_ctr(st, *l);
            lemma_rc_expr_ctr(rc_expr(st, *l).0, *r);
        },
        ExprV::FnCall(_, args) => lemma_rc_exprs_ctr(st, args),
        ExprV::Postfix(b, p) => {
            lemma_rc_expr_ctr(st, *b);
            lemma_rc_postfix_ctr(rc_expr(st, *b).0, p);
        },
        _ => {},
    }
}

/// `lemma_rc_expr_ctr`, over a sequence of expression nodes.
pub proof fn lemma_rc_exprs_ctr(st: PassState, es: Seq<ExprNodeV>)
    ensures
        rc_exprs(st, es).0.ctr == st.ctr,
    decreases es,
{
    if es.len() > 0 {
        lemma_rc_expr_ctr(st, es[0]);
        lemma_rc_exprs_ctr(rc_expr(st, es[0]).0, es.subrange(1, es.len() as int));
    }
}

/// `lemma_rc_expr_ctr`, over a postfix access.
pub proof fn lemma_rc_postfix_ctr(st: PassState, p: PostfixV)
    ensures
        rc_postfix(st, p).0.ctr == st.ctr,
    decreases p,
{
    match p {
        PostfixV::ArrayIndex(e) => lemma_rc_expr_ctr(st, *e),
        PostfixV::Member(_) => {},
    }
}

/// `lemma_rc_expr_ctr`, over an optional expression.
pub proof fn lemma_rc_opt_expr_ctr(st: PassState, e: Option<ExprNodeV>)
    ensures
        rc_opt_expr(st, e).0.ctr == st.ctr,
{
    match e {
        Some(e0) => lemma_rc_expr_ctr(st, e0),
        None => {},
    }
}

/// The statement rewrite advances the loop-site counter by exactly the
/// number of loop sites it visits.
pub proof fn lemma_rc_stmt_ctr(st: PassState, s: StatementV)
    ensures
        rc_stmt(st, s).0.ctr == st.ctr + n_loops_stmt(s),
    decreases s,
{
    match s {
        StatementV::LetDecl(_, e) => lemma_rc_expr_ctr(st, e),
        StatementV::VarDecl(_, _, e) => lemma_rc_opt_expr_ctr(st, e),
        StatementV::Assignment(_, _, e) => lemma_rc_expr_ctr(st, e),
        StatementV::Compound(b) => lemma_rc_stmts_ctr(st, b),
        StatementV::If(c, b) => {
            lemma_rc_expr_ctr(st, c);
            lemma_rc_stmts_ctr(rc_expr(st, c).0, b);
        },
        StatementV::Return(e) => lemma_rc_opt_expr_ctr(st, e),
        StatementV::Loop(b) => lemma_rc_stmts_ctr(st.next(), b),
        _ => {},
    }
}

/// `lemma_rc_stmt_ctr`, over a sequence of statements.
pub proof fn lemma_rc_stmts_ctr(st: PassState, ss: Seq<StatementV>)
    ensures
        rc_stmts(st, ss).0.ctr == st.ctr + n_loops_stmts(ss),
    decreases ss,
{
    if ss.len() > 0 {
        lemma_rc_stmt_ctr(st, ss[0]);
        lemma_rc_stmts_ctr(rc_stmt(st, ss[0]).0, ss.subrange(1, ss.len() as int));
    }
}

/// `lemma_rc_stmt_ctr`, over a sequence of function declarations.
pub proof fn lemma_rc_fns_ctr(st: PassState, fs: Seq<FnDeclV>)
    ensures
        rc_fns(st, fs).0.ctr == st.ctr + n_loops_fns(fs),
    decreases fs,
{
    if fs.len() > 0 {
        lemma_rc_stmts_ctr(st, fs[0].body);
        lemma_rc_fns_ctr(rc_fn(st, fs[0]).0, fs.subrange(1, fs.len() as int));
    }
}

// ---------------------------------------------------------------------------
// The executable pass.
// ---------------------------------------------------------------------------

/// One reconditioning pass over one program. A fresh value must be created
/// per program, so that loop-site indices and requested identifiers never
/// leak between unrelated passes.
pub struct Reconditioner {
    loop_var: u32,
    emit_fns: Vec<String>,
}

impl Reconditioner {
    /// The pass state this value stands for: its counter, and the
    /// identifiers it has recorded, as a set.
    pub closed spec fn st(self) -> PassState {
        PassState {
            ctr: self.loop_var as nat,
            fns: Set::new(
                |id: Seq<char>|
                    exists|j: int| 0 <= j < self.emit_fns@.len() && self.emit_fns@[j]@ == id,
            ),
        }
    }

    /// A fresh pass over one program.
    pub fn new() -> (r: Reconditioner)
        ensures
            r.st() == PassState::init(),
    {
        let r = Reconditioner { loop_var: 0, emit_fns: Vec::new() };
        proof {
            assert(r.st().fns =~= Set::empty());
        }
        r
    }

    /// Allocates the next loop-site index; indices are never reused within
    /// one pass.
    fn loop_var(&mut self) -> (id: u32)
        requires
            old(self).st().ctr < u32::MAX,
        ensures
            id == old(self).st().ctr as u32,
            final(self).st() == old(self).st().next(),
    {
        let cur = self.loop_var;
        self.loop_var = self.loop_var + 1;
        proof {
            assert(final(self).st().fns =~= old(self).st().fns);
        }
        cur
    }

    /// Whether an identifier has already been requested.
    fn contains_ident(&self, id: &String) -> (b: bool)
        ensures
            b == self.st().fns.contains(id@),
    {
        let mut i: usize = 0;
        while i < self.emit_fns.len()
            invariant
                i <= self.emit_fns.len(),
                forall|j: int| 0 <= j < i ==> self.emit_fns@[j]@ != id@,
            decreases self.emit_fns.len() - i,
        {
            if id.eq(&self.emit_fns[i]) {
                return true;
            }
            i = i + 1;
        }
        false
    }

    /// Requests the safe function for an operator name over a type: derives
    /// the identifier and records it. Requesting the same pair twice yields
    /// the same identifier and a single entry.
    fn safe_fn(&mut self, name: &str, data_type: &DataType) -> (r: String)
        requires
            arith_operand(data_type.deep_view()),
        ensures
            r@ == safe_ident(name@, data_type.deep_view()),
            final(self).st() == old(self).st().note(r@),
    {
        let ident = crate::naming::safe_fn(name, data_type);
        let ghost n0 = self.emit_fns@.len() as int;
        if !self.contains_ident(&ident) {
            let ident2 = ident.clone();
            self.emit_fns.push(ident2);
        }
        proof {
            let oldfns = old(self).st().fns;
            let newfns = final(self).st().fns;
            assert forall|x: Seq<char>| #[trigger] newfns.contains(x)
                implies oldfns.insert(ident@).contains(x) by {
                let j = choose|j: int|
                    0 <= j < final(self).emit_fns@.len() && final(self).emit_fns@[j]@ == x;
                if j < n0 {
                    assert(old(self).emit_fns@[j]@ == x);
                }
            }
            assert forall|x: Seq<char>| #[trigger] oldfns.insert(ident@).contains(x)
                implies newfns.contains(x) by {
                if oldfns.contains(x) {
                    let j = choose|j: int|
                        0 <= j < old(self).emit_fns@.len() && old(self).emit_fns@[j]@ == x;
                    assert(final(self).emit_fns@[j]@ == x);
                } else {
                    assert(x == ident@);
                    if oldfns.contains(ident@) {
                        let j = choose|j: int|
                            0 <= j < old(self).emit_fns@.len() && old(self).emit_fns@[j]@
                                == ident@;
                        assert(final(self).emit_fns@[j]@ == x);
                    } else {
                        assert(final(self).emit_fns@[n0]@ == x);
                    }
                }
            }
            assert(newfns =~= oldfns.insert(ident@));
            assert(final(self).st() == old(self).st().note(ident@));
        }
        ident
    }

    /// The binary-operator rule: arithmetic operators become calls to the
    /// recorded safe function; all others keep their operands and operator.
    pub fn recondition_bin_op_expr(
        &mut self,
        data_type: DataType,
        op: BinOp,
        l: ExprNode,
        r: ExprNode,
    ) -> (res: ExprNode)
        requires
            arith_op_name(op) is Some ==> arith_operand(data_type.deep_view()),
        ensures
            final(self).st() == rc_binop(
                old(self).st(),
                data_type.deep_view(),
                op,
                l.deep_view(),
                r.deep_view(),
            ).0,
            res.deep_view() == rc_binop(
                old(self).st(),
                data_type.deep_view(),
                op,
                l.deep_view(),
                r.deep_view(),
            ).1,
    {
        let name = match op {
            BinOp::Plus => self.safe_fn("PLUS", &data_type),
            BinOp::Minus => self.safe_fn("MINUS", &data_type),
            BinOp::Times => self.safe_fn("TIMES", &data_type),
            BinOp::Divide => self.safe_fn("DIVIDE", &data_type),
            BinOp::Mod => self.safe_fn("MOD", &data_type),
            _ => {
                return ExprNode { data_type, expr: Expr::BinOp(op, Box::new(l), Box::new(r)) };
            },
        };
        let mut args: Vec<ExprNode> = Vec::new();
        args.push(l);
        args.push(r);
        let res = ExprNode { data_type, expr: Expr::FnCall(name, args) };
        proof {
            lemma_deep_view_exprs_cons(l, seq![r]);
            lemma_deep_view_exprs_cons(r, Seq::empty());
            assert(args@ =~= seq![l] + seq![r]);
            assert(seq![r] =~= seq![r] + Seq::<ExprNode>::empty());
            assert(deep_view_exprs(args@) =~= seq![l.deep_view(), r.deep_view()]);
        }
        res
    }

    /// The expression rewrite: structure-preserving, bottom-up, with the
    /// binary-op rule at each binary node; the type annotation of every
    /// node is carried through untouched.
    pub fn recondition_expr(&mut self, e: ExprNode) -> (r: ExprNode)
        requires
            rewritable_expr(e.deep_view()),
        ensures
            final(self).st() == rc_expr(old(self).st(), e.deep_view()).0,
            r.deep_view() == rc_expr(old(self).st(), e.deep_view()).1,
        decreases e,
    {
        let ExprNode { data_type, expr } = e;
        match expr {
            Expr::TypeCons(t, args) => {
                let a = self.recondition_exprs(args);
                ExprNode { data_type, expr: Expr::TypeCons(t, a) }
            },
            Expr::UnOp(op, i) => {
                let i1 = self.recondition_expr(*i);
                ExprNode { data_type, expr: Expr::UnOp(op, Box::new(i1)) }
            },
            Expr::BinOp(op, l, r) => {
                let l1 = self.recondition_expr(*l);
                let r1 = self.recondition_expr(*r);
                self.recondition_bin_op_expr(data_type, op, l1, r1)
            },
            Expr::FnCall(name, args) => {
                let a = self.recondition_exprs(args);
                ExprNode { data_type, expr: Expr::FnCall(name, a) }
            },
            Expr::Postfix(b, p) => {
                let b1 = self.recondition_expr(*b);
                let p1 = self.recondition_postfix(p);
                ExprNode { data_type, expr: Expr::Postfix(Box::new(b1), p1) }
            },
            other => ExprNode { data_type, expr: other },
        }
    }

    /// The expression rewrite over a vector of nodes, left to right.
    pub fn recondition_exprs(&mut self, es: Vec<ExprNode>) -> (r: Vec<ExprNode>)
        requires
            rewritable_exprs(deep_view_exprs(es@)),
        ensures
            final(self).st() == rc_exprs(old(self).st(), deep_view_exprs(es@)).0,
            deep_view_exprs(r@) == rc_exprs(old(self).st(), deep_view_exprs(es@)).1,
        decreases es@,
    {
        let mut rest = es;
        if rest.len() == 0 {
            return rest;
        }
        let head = rest.remove(0);
        proof {
            assert(rest@ =~= es@.subrange(1, es@.len() as int));
            lemma_deep_view_exprs(es@);
            lemma_deep_view_exprs(rest@);
            assert(deep_view_exprs(es@)[0] == head.deep_view());
            assert(deep_view_exprs(es@).subrange(1, es@.len() as int) =~= deep_view_exprs(rest@));
        }
        let h = self.recondition_expr(head);
        let mut t = self.recondition_exprs(rest);
        let ghost told = t@;
        t.insert(0, h);
        proof {
            assert(t@ =~= seq![h] + told);
            lemma_deep_view_exprs_cons(h, told);
        }
        t
    }

    /// The expression rewrite under a postfix access: an array index is
    /// rewritten, a member selection has no sub-expression.
    pub fn recondition_postfix(&mut self, p: Postfix) -> (r: Postfix)
        requires
            rewritable_postfix(p.deep_view()),
        ensures
            final(self).st() == rc_postfix(old(self).st(), p.deep_view()).0,
            r.deep_view() == rc_postfix(old(self).st(), p.deep_view()).1,
        decreases p,
    {
        match p {
            Postfix::ArrayIndex(e) => {
                let e1 = self.recondition_expr(*e);
                Postfix::ArrayIndex(Box::new(e1))
            },
            Postfix::Member(name) => Postfix::Member(name),
        }
    }

    /// The statement rewrite. Declarations, assignments and returns rewrite
    /// only their expression; blocks and conditionals recurse in order; an
    /// unconditional loop is bounded as `rc_stmt` says; a for-loop lies
    /// outside the supported grammar and passes through unchanged.
    pub fn recondition_stmt(&mut self, s: Statement) -> (r: Statement)
        requires
            rewritable_stmt(s.deep_view()),
            old(self).st().ctr + n_loops_stmt(s.deep_view()) <= u32::MAX,
        ensures
            final(self).st() == rc_stmt(old(self).st(), s.deep_view()).0,
            r.deep_view() == rc_stmt(old(self).st(), s.deep_view()).1,
        decreases s,
    {
        match s {
            Statement::LetDecl(name, e) => {
                let e1 = self.recondition_expr(e);
                Statement::LetDecl(name, e1)
            },
            Statement::VarDecl(name, t, e) => {
                let e1 = self.recondition_opt_expr(e);
                Statement::VarDecl(name, t, e1)
            },
            Statement::Assignment(lhs, op, e) => {
                let e1 = self.recondition_expr(e);
                Statement::Assignment(lhs, op, e1)
            },
            Statement::Compound(b) => {
                let b1 = self.recondition_stmts(b);
                Statement::Compound(b1)
            },
            Statement::If(c, b) => {
                let c1 = self.recondition_expr(c);
                proof {
                    lemma_rc_expr_ctr(old(self).st(), c.deep_view());
                }
                let b1 = self.recondition_stmts(b);
                Statement::If(c1, b1)
            },
            Statement::Return(e) => {
                let e1 = self.recondition_opt_expr(e);
                Statement::Return(e1)
            },
            Statement::Loop(b) => {
                let id = self.loop_var();
                let g = make_loop_guard(id);
                let inc = make_loop_increment(id);
                let ghost gs = g;
                let ghost incs = inc;
                let mut out: Vec<Statement> = Vec::new();
                out.push(g);
                out.push(inc);
                let mut b1 = self.recondition_stmts(b);
                let ghost b1v = b1@;
                out.append(&mut b1);
                proof {
                    assert(out@ =~= seq![gs] + (seq![incs] + b1v));
                    lemma_deep_view_stmts_cons(incs, b1v);
                    lemma_deep_view_stmts_cons(gs, seq![incs] + b1v);
                    assert(seq![loop_guard(id), loop_increment(id)] + deep_view_stmts(b1v) =~= seq![
                        loop_guard(id),
                    ] + (seq![loop_increment(id)] + deep_view_stmts(b1v)));
                }
                Statement::Loop(out)
            },
            Statement::Break => Statement::Break,
            Statement::ForLoop(h, b) => Statement::ForLoop(h, b),
        }
    }

    /// The statement rewrite over an optional expression.
    pub fn recondition_opt_expr(&mut self, e: Option<ExprNode>) -> (r: Option<ExprNode>)
        requires
            rewritable_opt_expr(e.deep_view()),
        ensures
            final(self).st() == rc_opt_expr(old(self).st(), e.deep_view()).0,
            r.deep_view() == rc_opt_expr(old(self).st(), e.deep_view()).1,
    {
        match e {
            Some(e0) => {
                let e1 = self.recondition_expr(e0);
                Some(e1)
            },
            None => None,
        }
    }

    /// The statement rewrite over a vector of statements, in program order.
    pub fn recondition_stmts(&mut self, ss: Vec<Statement>) -> (r: Vec<Statement>)
        requires
            rewritable_stmts(deep_view_stmts(ss@)),
            old(self).st().ctr + n_loops_stmts(deep_view_stmts(ss@)) <= u32::MAX,
        ensures
            final(self).st() == rc_stmts(old(self).st(), deep_view_stmts(ss@)).0,
            deep_view_stmts(r@) == rc_stmts(old(self).st(), deep_view_stmts(ss@)).1,
        decreases ss@,
    {
        let mut rest = ss;
        if rest.len() == 0 {
            return rest;
        }
        let head = rest.remove(0);
        proof {
            assert(rest@ =~= ss@.subrange(1, ss@.len() as int));
            lemma_deep_view_stmts(ss@);
            lemma_deep_view_stmts(rest@);
            assert(deep_view_stmts(ss@)[0] == head.deep_view());
            assert(deep_view_stmts(ss@).subrange(1, ss@.len() as int) =~= deep_view_stmts(rest@));
            lemma_rc_stmt_ctr(old(self).st(), head.deep_view());
        }
        let h = self.recondition_stmt(head);
        let mut t = self.recondition_stmts(rest);
        let ghost told = t@;
        t.insert(0, h);
        proof {
            assert(t@ =~= seq![h] + told);
            lemma_deep_view_stmts_cons(h, told);
        }
        t
    }

    /// The function rewrite: reconditions the body, statement by statement;
    /// attributes, name and signature are unchanged. The entrypoint and
    /// every ordinary function go through this same rewrite.
    pub fn recondition_fn(&mut self, decl: FnDecl) -> (r: FnDecl)
        requires
            rewritable_fn(decl.deep_view()),
            old(self).st().ctr + n_loops_fn(decl.deep_view()) <= u32::MAX,
        ensures
            final(self).st() == rc_fn(old(self).st(), decl.deep_view()).0,
            r.deep_view() == rc_fn(old(self).st(), decl.deep_view()).1,
    {
        let FnDecl { attrs, name, inputs, output, body } = decl;
        let body1 = self.recondition_stmts(body);
        FnDecl { attrs, name, inputs, output, body: body1 }
    }

    /// The function rewrite over a vector of declarations, in their
    /// original order.
    pub fn recondition_fns(&mut self, fs: Vec<FnDecl>) -> (r: Vec<FnDecl>)
        requires
            rewritable_fns(fs.deep_view()),
            old(self).st().ctr + n_loops_fns(fs.deep_view()) <= u32::MAX,
        ensures
            final(self).st() == rc_fns(old(self).st(), fs.deep_view()).0,
            r.deep_view() == rc_fns(old(self).st(), fs.deep_view()).1,
        decreases fs@,
    {
        let mut rest = fs;
        if rest.len() == 0 {
            return rest;
        }
        let head = rest.remove(0);
        proof {
            assert(rest@ =~= fs@.subrange(1, fs@.len() as int));
            assert(fs.deep_view()[0] == head.deep_view());
            assert(fs.deep_view().subrange(1, fs@.len() as int) =~= rest.deep_view());
            lemma_rc_stmts_ctr(old(self).st(), head.deep_view().body);
        }
        let h = self.recondition_fn(head);
        let ghost hv = h.deep_view();
        let mut t = self.recondition_fns(rest);
        let ghost toldv = t.deep_view();
        t.insert(0, h);
        proof {
            assert(t.deep_view() =~= seq![hv] + toldv);
        }
        t
    }

    /// The number of loop sites allocated so far; after a full pass, the
    /// size of the counter storage the assembled program needs.
    pub fn loop_count(&self) -> (r: u32)
        ensures
            r as nat == self.st().ctr,
    {
        self.loop_var
    }

    /// Whether a safe-function identifier has been requested in this pass.
    pub fn is_requested(&self, id: &String) -> (b: bool)
        ensures
            b == self.st().fns.contains(id@),
    {
        self.contains_ident(id)
    }
}

/// Builds a `u32` literal node.
fn make_uint(v: u32) -> (r: ExprNode)
    ensures
        r.deep_view() == uint_lit(v),
{
    ExprNode { data_type: DataType::Scalar(ScalarType::U32), expr: Expr::Lit(Lit::UInt(v)) }
}

/// Builds the expression `LOOP_COUNTERS[id]`.
fn make_counter_slot(id: u32) -> (r: ExprNode)
    ensures
        r.deep_view() == counter_slot(id),
{
    let elem = Rc::new(DataType::Scalar(ScalarType::U32));
    proof {
        assert(DataType::Scalar(ScalarType::U32).deep_view() == DataTypeV::Scalar(
            ScalarType::U32,
        ));
        assert(DataType::Array(elem, None).deep_view() == DataTypeV::Array(
            Box::new(DataTypeV::Scalar(ScalarType::U32)),
            None,
        ));
    }
    let base = ExprNode {
        data_type: DataType::Array(elem, None),
        expr: Expr::Var("LOOP_COUNTERS".to_owned()),
    };
    proof {
        assert(base.deep_view() == ExprNodeV {
            data_type: DataTypeV::Array(Box::new(DataTypeV::Scalar(ScalarType::U32)), None),
            expr: ExprV::Var("LOOP_COUNTERS"@),
        });
    }
    let u = make_uint(id);
    let pf = Postfix::ArrayIndex(Box::new(u));
    proof {
        assert(pf.deep_view() == PostfixV::ArrayIndex(Box::new(uint_lit(id))));
    }
    let r = ExprNode {
        data_type: DataType::Scalar(ScalarType::U32),
        expr: Expr::Postfix(Box::new(base), pf),
    };
    proof {
        assert(r.deep_view() == counter_slot(id));
    }
    r
}

/// Builds the guard that exits a bounded loop once its counter slot has
/// reached `MAX_LOOP_ITERATIONS`.
fn make_loop_guard(id: u32) -> (r: Statement)
    ensures
        r.deep_view() == loop_guard(id),
{
    let mut body: Vec<Statement> = Vec::new();
    body.push(Statement::Break);
    let r = Statement::If(
        ExprNode {
            data_type: DataType::Scalar(ScalarType::Bool),
            expr: Expr::BinOp(
                BinOp::GreaterEqual,
                Box::new(make_counter_slot(id)),
                Box::new(make_uint(MAX_LOOP_ITERATIONS)),
            ),
        },
        body,
    );
    proof {
        let b = seq![Statement::Break];
        lemma_deep_view_stmts(b);
        assert(deep_view_stmts(b) =~= seq![StatementV::Break]);
    }
    r
}

/// Builds the increment of a bounded loop's counter slot.
fn make_loop_increment(id: u32) -> (r: Statement)
    ensures
        r.deep_view() == loop_increment(id),
{
    let mut pfs: Vec<Postfix> = Vec::new();
    pfs.push(Postfix::ArrayIndex(Box::new(make_uint(id))));
    let r = Statement::Assignment(
        AssignmentLhs::Simple("LOOP_COUNTERS".to_owned(), pfs),
        AssignmentOp::Simple,
        ExprNode {
            data_type: DataType::Scalar(ScalarType::U32),
            expr: Expr::BinOp(
                BinOp::Plus,
                Box::new(make_counter_slot(id)),
                Box::new(make_uint(1)),
            ),
        },
    );
    proof {
        let ghost ps = seq![PostfixV::ArrayIndex(Box::new(uint_lit(id)))];
        lemma_deep_view_postfixes(pfs@);
        assert(deep_view_postfixes(pfs@) =~= ps);
    }
    r
}


} // verus!
