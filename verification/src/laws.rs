//! The laws of the reconditioning pass, each proved over the mirror of the
//! rewrite: determinism, identifier stability, arithmetic rewrite
//! completeness, non-arithmetic preservation, loop bounding, and wrapper
//! minimality.

use crate::assemble::{assemble_spec, emitted_wrappers};
use crate::ast::{ExprNodeV, ExprV, FnDeclV, PostfixV, ProgramV, StatementV};
use crate::naming::safe_ident;
use crate::recondition::{
    arith_op_name, lemma_rc_expr_ctr, lemma_rc_fns_ctr, lemma_rc_stmt_ctr, lemma_rc_stmts_ctr,
    loop_guard, loop_increment, n_loops_fns, n_loops_program, n_loops_stmt, n_loops_stmts,
    rc_binop, rc_expr, rc_exprs, rc_fn, rc_fns, rc_opt_expr, rc_postfix, rc_program, rc_stmt,
    rc_stmts, PassState,
};
use crate::types::DataTypeV;
use vstd::prelude::*;

verus! {

// ---------------------------------------------------------------------------
// Determinism.
// ---------------------------------------------------------------------------

/// Reconditioning is deterministic: structurally identical programs
/// assemble to structurally identical outputs, so running the pass twice
/// over one program yields identical results.
pub proof fn lemma_determinism(p: ProgramV, q: ProgramV)
    requires
        p == q,
    ensures
        assemble_spec(p) == assemble_spec(q),
{
}

// ---------------------------------------------------------------------------
// Identifier stability.
// ---------------------------------------------------------------------------

/// Requesting the safe function for one (operator, type) pair twice within
/// one pass yields the same identifier both times, and the used-identifier
/// set holds exactly one entry for the pair.
pub proof fn lemma_identifier_stability(st: PassState, op: Seq<char>, ty: DataTypeV)
    ensures
        ({
            let id = safe_ident(op, ty);
            let st1 = st.note(id);
            let st2 = st1.note(id);
            st2 == st1 && st1.fns.contains(id)
        }),
{
    let id = safe_ident(op, ty);
    assert(st.note(id).note(id).fns =~= st.note(id).fns);
}

// ---------------------------------------------------------------------------
// Arithmetic rewrite completeness.
// ---------------------------------------------------------------------------

/// No arithmetic binary operator occurs anywhere in the expression.
pub open spec fn expr_arith_free(e: ExprNodeV) -> bool
    decreases e,
{
    match e.expr {
        ExprV::TypeCons(_, args) => exprs_arith_free(args),
        ExprV::UnOp(_, i) => expr_arith_free(*i),
        ExprV::BinOp(op, l, r) => arith_op_name(op) is None && expr_arith_free(*l)
            && expr_arith_free(*r),
        ExprV::FnCall(_, args) => exprs_arith_free(args),
        ExprV::Postfix(b, p) => expr_arith_free(*b) && postfix_arith_free(p),
        _ => true,
    }
}

/// `expr_arith_free`, over a sequence of expression nodes.
pub open spec fn exprs_arith_free(es: Seq<ExprNodeV>) -> bool
    decreases es,
{
    es.len() == 0 || (expr_arith_free(es[0]) && exprs_arith_free(
        es.subrange(1, es.len() as int),
    ))
}

/// `expr_arith_free`, over a postfix access.
pub open spec fn postfix_arith_free(p: PostfixV) -> bool
    decreases p,
{
    match p {
        PostfixV::ArrayIndex(e) => expr_arith_free(*e),
        PostfixV::Member(_) => true,
    }
}

/// `expr_arith_free`, over an optional expression node.
pub open spec fn opt_expr_arith_free(e: Option<ExprNodeV>) -> bool {
    match e {
        Some(e0) => expr_arith_free(e0),
        None => true,
    }
}

/// Every binary arithmetic expression reachable in a rewritten expression
/// has become a call: the rewrite leaves no raw arithmetic operator behind.
pub proof fn lemma_arith_completeness_expr(st: PassState, e: ExprNodeV)
    ensures
        expr_arith_free(rc_expr(st, e).1),
    decreases e,
{
    match e.expr {
        ExprV::TypeCons(_, args) => {
            lemma_arith_completeness_exprs(st, args);
        },
        ExprV::UnOp(_, i) => {
            lemma_arith_completeness_expr(st, *i);
        },
        ExprV::BinOp(op, l, r) => {
            lemma_arith_completeness_expr(st, *l);
            let st1 = rc_expr(st, *l).0;
            let l1 = rc_expr(st, *l).1;
            lemma_arith_completeness_expr(st1, *r);
            let st2 = rc_expr(st1, *r).0;
            let r1 = rc_expr(st1, *r).1;
            let out = rc_binop(st2, e.data_type, op, l1, r1);
            match arith_op_name(op) {
                Some(name) => {
                    let args = seq![l1, r1];
                    assert(args.subrange(1, 2) =~= seq![r1]);
                    assert(seq![r1].subrange(1, 1) =~= Seq::<ExprNodeV>::empty());
                    assert(exprs_arith_free(Seq::<ExprNodeV>::empty()));
                    assert(exprs_arith_free(seq![r1]));
                    assert(exprs_arith_free(args));
                },
                None => {},
            }
        },
        ExprV::FnCall(_, args) => {
            lemma_arith_completeness_exprs(st, args);
        },
        ExprV::Postfix(b, p) => {
            lemma_arith_completeness_expr(st, *b);
            lemma_arith_completeness_postfix(rc_expr(st, *b).0, p);
        },
        _ => {},
    }
}

/// `lemma_arith_completeness_expr`, over a sequence of expression nodes.
pub proof fn lemma_arith_completeness_exprs(st: PassState, es: Seq<ExprNodeV>)
    ensures
        exprs_arith_free(rc_exprs(st, es).1),
    decreases es,
{
    if es.len() > 0 {
        let tail = es.subrange(1, es.len() as int);
        lemma_arith_completeness_expr(st, es[0]);
        let st1 = rc_expr(st, es[0]).0;
        let h = rc_expr(st, es[0]).1;
        lemma_arith_completeness_exprs(st1, tail);
        let t = rc_exprs(st1, tail).1;
        let out = seq![h] + t;
        assert(out[0] == h);
        assert(out.subrange(1, out.len() as int) =~= t);
    }
}

/// `lemma_arith_completeness_expr`, over a postfix access.
pub proof fn lemma_arith_completeness_postfix(st: PassState, p: PostfixV)
    ensures
        postfix_arith_free(rc_postfix(st, p).1),
    decreases p,
{
    match p {
        PostfixV::ArrayIndex(e) => {
            lemma_arith_completeness_expr(st, *e);
        },
        PostfixV::Member(_) => {},
    }
}

/// `lemma_arith_completeness_expr`, over an optional expression node.
pub proof fn lemma_arith_completeness_opt_expr(st: PassState, e: Option<ExprNodeV>)
    ensures
        opt_expr_arith_free(rc_opt_expr(st, e).1),
{
    match e {
        Some(e0) => lemma_arith_completeness_expr(st, e0),
        None => {},
    }
}

/// Every expression in a position the rewrite visits is free of raw
/// arithmetic operators, and every loop opens with a bounding guard and the
/// matching counter increment. The increment deliberately holds the one raw
/// addition the pass emits itself, which its guard keeps bounded; for-loops
/// lie outside the supported grammar and make no such promise.
pub open spec fn stmt_reconditioned(s: StatementV) -> bool
    decreases s,
{
    match s {
        StatementV::LetDecl(_, e) => expr_arith_free(e),
        StatementV::VarDecl(_, _, e) => opt_expr_arith_free(e),
        StatementV::Assignment(_, _, e) => expr_arith_free(e),
        StatementV::Compound(b) => stmts_reconditioned(b),
        StatementV::If(c, b) => expr_arith_free(c) && stmts_reconditioned(b),
        StatementV::Return(e) => opt_expr_arith_free(e),
        StatementV::Loop(b) => if b.len() < 2 {
            false
        } else {
            (exists|id: u32| b[0] == loop_guard(id) && b[1] == loop_increment(id))
                && stmts_reconditioned(b.subrange(2, b.len() as int))
        },
        StatementV::Break => true,
        StatementV::ForLoop(_, _) => true,
    }
}

/// `stmt_reconditioned`, over a sequence of statements.
pub open spec fn stmts_reconditioned(ss: Seq<StatementV>) -> bool
    decreases ss,
{
    ss.len() == 0 || (stmt_reconditioned(ss[0]) && stmts_reconditioned(
        ss.subrange(1, ss.len() as int),
    ))
}

/// The statement rewrite leaves every visited expression free of raw
/// arithmetic and every loop bounded by its guard and increment.
pub proof fn lemma_arith_completeness_stmt(st: PassState, s: StatementV)
    ensures
        stmt_reconditioned(rc_stmt(st, s).1),
    decreases s,
{
    match s {
        StatementV::LetDecl(_, e) => lemma_arith_completeness_expr(st, e),
        StatementV::VarDecl(_, _, e) => lemma_arith_completeness_opt_expr(st, e),
        StatementV::Assignment(_, _, e) => lemma_arith_completeness_expr(st, e),
        StatementV::Compound(b) => lemma_arith_completeness_stmts(st, b),
        StatementV::If(c, b) => {
            lemma_arith_completeness_expr(st, c);
            lemma_arith_completeness_stmts(rc_expr(st, c).0, b);
        },
        StatementV::Return(e) => lemma_arith_completeness_opt_expr(st, e),
        StatementV::Loop(b) => {
            let id = st.ctr as u32;
            lemma_arith_completeness_stmts(st.next(), b);
            let b1 = rc_stmts(st.next(), b).1;
            let out = seq![loop_guard(id), loop_increment(id)] + b1;
            assert(out[0] == loop_guard(id) && out[1] == loop_increment(id));
            assert(out.subrange(2, out.len() as int) =~= b1);
        },
        _ => {},
    }
}

/// `lemma_arith_completeness_stmt`, over a sequence of statements.
pub proof fn lemma_arith_completeness_stmts(st: PassState, ss: Seq<StatementV>)
    ensures
        stmts_reconditioned(rc_stmts(st, ss).1),
    decreases ss,
{
    if ss.len() > 0 {
        let tail = ss.subrange(1, ss.len() as int);
        lemma_arith_completeness_stmt(st, ss[0]);
        let st1 = rc_stmt(st, ss[0]).0;
        let h = rc_stmt(st, ss[0]).1;
        lemma_arith_completeness_stmts(st1, tail);
        let t = rc_stmts(st1, tail).1;
        let out = seq![h] + t;
        assert(out[0] == h);
        assert(out.subrange(1, out.len() as int) =~= t);
    }
}

/// The whole pass leaves both the entrypoint and every ordinary function
/// reconditioned: no raw arithmetic in visited positions, every loop
/// bounded.
pub proof fn lemma_arith_completeness_program(p: ProgramV)
    ensures
        stmts_reconditioned(rc_program(p).1.entrypoint.body),
        forall|i: int|
            0 <= i < rc_program(p).1.functions.len() ==> stmts_reconditioned(
                #[trigger] rc_program(p).1.functions[i].body,
            ),
{
    let st1 = rc_fn(PassState::init(), p.entrypoint).0;
    lemma_arith_completeness_stmts(PassState::init(), p.entrypoint.body);
    lemma_arith_completeness_fns(st1, p.functions);
}

/// `lemma_arith_completeness_stmt`, over a sequence of declarations.
pub proof fn lemma_arith_completeness_fns(st: PassState, fs: Seq<FnDeclV>)
    ensures
        forall|i: int|
            0 <= i < rc_fns(st, fs).1.len() ==> stmts_reconditioned(
                #[trigger] rc_fns(st, fs).1[i].body,
            ),
    decreases fs,
{
    if fs.len() > 0 {
        let tail = fs.subrange(1, fs.len() as int);
        lemma_arith_completeness_stmts(st, fs[0].body);
        let st1 = rc_fn(st, fs[0]).0;
        lemma_arith_completeness_fns(st1, tail);
        let h = rc_fn(st, fs[0]).1;
        let t = rc_fns(st1, tail).1;
        assert forall|i: int| 0 <= i < rc_fns(st, fs).1.len() implies stmts_reconditioned(
            #[trigger] rc_fns(st, fs).1[i].body,
        ) by {
            if i > 0 {
                assert(rc_fns(st, fs).1[i] == t[i - 1]);
            }
        }
    }
}

// ---------------------------------------------------------------------------
// Non-arithmetic preservation.
// ---------------------------------------------------------------------------

/// A comparison, logical or bitwise operator is never rewritten into a
/// call: the node keeps its operator, operands and type.
pub proof fn lemma_non_arith_preserved(
    st: PassState,
    ty: DataTypeV,
    op: crate::ast::BinOp,
    l: ExprNodeV,
    r: ExprNodeV,
)
    requires
        arith_op_name(op) is None,
    ensures
        rc_binop(st, ty, op, l, r) == (
            st,
            ExprNodeV { data_type: ty, expr: ExprV::BinOp(op, Box::new(l), Box::new(r)) },
        ),
{
}

/// Under a non-arithmetic binary operator the operands are still
/// recursively reconditioned, in order, and the node shape is kept.
pub proof fn lemma_non_arith_operands(st: PassState, e: ExprNodeV)
    requires
        e.expr is BinOp,
        arith_op_name(e.expr->BinOp_0) is None,
    ensures
        ({
            let op = e.expr->BinOp_0;
            let l = e.expr->BinOp_1;
            let r = e.expr->BinOp_2;
            let l1 = rc_expr(st, *l).1;
            let r1 = rc_expr(rc_expr(st, *l).0, *r).1;
            rc_expr(st, e).1 == ExprNodeV {
                data_type: e.data_type,
                expr: ExprV::BinOp(op, Box::new(l1), Box::new(r1)),
            }
        }),
{
}

// ---------------------------------------------------------------------------
// Loop bounding.
// ---------------------------------------------------------------------------

/// The consecutive counter-slot indices `first`, `first + 1`, ..., of the
/// given count.
pub open spec fn id_range(first: nat, count: nat) -> Seq<u32> {
    Seq::new(count, |i: int| (first + i) as u32)
}

/// The site index a rewritten loop's guard carries, when its body opens
/// with one.
pub open spec fn guard_site(b: Seq<StatementV>) -> Seq<u32> {
    if exists|id: u32| b.len() >= 1 && b[0] == loop_guard(id) {
        seq![choose|id: u32| b.len() >= 1 && b[0] == loop_guard(id)]
    } else {
        Seq::empty()
    }
}

/// The counter-slot indices in use in a statement, in depth-first program
/// order: for each loop, the index its bounding guard reads.
pub open spec fn site_ids_stmt(s: StatementV) -> Seq<u32>
    decreases s,
{
    match s {
        StatementV::Compound(b) => site_ids_stmts(b),
        StatementV::If(_, b) => site_ids_stmts(b),
        StatementV::Loop(b) => guard_site(b) + site_ids_stmts(b),
        _ => Seq::empty(),
    }
}

/// `site_ids_stmt`, concatenated over a sequence of statements.
pub open spec fn site_ids_stmts(ss: Seq<StatementV>) -> Seq<u32>
    decreases ss,
{
    if ss.len() == 0 {
        Seq::empty()
    } else {
        site_ids_stmt(ss[0]) + site_ids_stmts(ss.subrange(1, ss.len() as int))
    }
}

/// `site_ids_stmt`, concatenated over a sequence of declarations.
pub open spec fn site_ids_fns(fs: Seq<FnDeclV>) -> Seq<u32>
    decreases fs,
{
    if fs.len() == 0 {
        Seq::empty()
    } else {
        site_ids_stmts(fs[0].body) + site_ids_fns(fs.subrange(1, fs.len() as int))
    }
}

/// The counter-slot indices a whole program uses, entrypoint first.
pub open spec fn site_ids_program(p: ProgramV) -> Seq<u32> {
    site_ids_stmts(p.entrypoint.body) + site_ids_fns(p.functions)
}

/// The statement rewrite gives its loops exactly the next consecutive
/// counter-slot indices, in depth-first program order.
pub proof fn lemma_sites_stmt(st: PassState, s: StatementV)
    requires
        st.ctr + n_loops_stmt(s) <= u32::MAX,
    ensures
        site_ids_stmt(rc_stmt(st, s).1) == id_range(st.ctr, n_loops_stmt(s)),
    decreases s,
{
    match s {
        StatementV::Compound(b) => {
            lemma_sites_stmts(st, b);
        },
        StatementV::If(c, b) => {
            lemma_rc_expr_ctr(st, c);
            lemma_sites_stmts(rc_expr(st, c).0, b);
        },
        StatementV::Loop(b) => {
            let idw = st.ctr as u32;
            lemma_sites_stmts(st.next(), b);
            let b1 = rc_stmts(st.next(), b).1;
            let out = seq![loop_guard(idw), loop_increment(idw)] + b1;
            assert(out[0] == loop_guard(idw));
            assert(guard_site(out) =~= seq![idw]) by {
                assert(out.len() >= 1 && out[0] == loop_guard(idw));
                let idc = choose|id: u32| out.len() >= 1 && out[0] == loop_guard(id);
                assert(loop_guard(idc) == loop_guard(idw));
                assert(idc == idw);
            }
            assert(site_ids_stmt(loop_guard(idw)) =~= Seq::<u32>::empty()) by {
                let gb = seq![StatementV::Break];
                assert(gb.subrange(1, 1) =~= Seq::<StatementV>::empty());
                assert(site_ids_stmts(Seq::<StatementV>::empty()) =~= Seq::<u32>::empty());
                assert(site_ids_stmt(StatementV::Break) =~= Seq::<u32>::empty());
                assert(site_ids_stmts(gb) =~= Seq::<u32>::empty());
            }
            assert(site_ids_stmt(loop_increment(idw)) =~= Seq::<u32>::empty());
            assert(out.subrange(1, out.len() as int).subrange(
                1,
                out.len() as int - 1,
            ) =~= b1);
            assert(out.subrange(1, out.len() as int)[0] == loop_increment(idw));
            assert(site_ids_stmts(out) == site_ids_stmt(out[0]) + site_ids_stmts(
                out.subrange(1, out.len() as int),
            ));
            assert(site_ids_stmts(out) =~= site_ids_stmts(b1));
            assert(guard_site(out) + site_ids_stmts(b1) =~= id_range(
                st.ctr,
                n_loops_stmt(s),
            ));
        },
        _ => {},
    }
}

/// `lemma_sites_stmt`, over a sequence of statements.
pub proof fn lemma_sites_stmts(st: PassState, ss: Seq<StatementV>)
    requires
        st.ctr + n_loops_stmts(ss) <= u32::MAX,
    ensures
        site_ids_stmts(rc_stmts(st, ss).1) == id_range(st.ctr, n_loops_stmts(ss)),
    decreases ss,
{
    if ss.len() == 0 {
        assert(site_ids_stmts(rc_stmts(st, ss).1) =~= id_range(st.ctr, 0));
    } else {
        let tail = ss.subrange(1, ss.len() as int);
        lemma_sites_stmt(st, ss[0]);
        lemma_rc_stmt_ctr(st, ss[0]);
        let st1 = rc_stmt(st, ss[0]).0;
        let h = rc_stmt(st, ss[0]).1;
        lemma_sites_stmts(st1, tail);
        let t = rc_stmts(st1, tail).1;
        let out = seq![h] + t;
        assert(out[0] == h);
        assert(out.subrange(1, out.len() as int) =~= t);
        assert(site_ids_stmts(out) == site_ids_stmt(h) + site_ids_stmts(t));
        assert(site_ids_stmt(h) + site_ids_stmts(t) =~= id_range(st.ctr, n_loops_stmts(ss)));
    }
}

/// `lemma_sites_stmt`, over a sequence of declarations.
pub proof fn lemma_sites_fns(st: PassState, fs: Seq<FnDeclV>)
    requires
        st.ctr + n_loops_fns(fs) <= u32::MAX,
    ensures
        site_ids_fns(rc_fns(st, fs).1) == id_range(st.ctr, n_loops_fns(fs)),
    decreases fs,
{
    if fs.len() == 0 {
        assert(site_ids_fns(rc_fns(st, fs).1) =~= id_range(st.ctr, 0));
    } else {
        let tail = fs.subrange(1, fs.len() as int);
        lemma_sites_stmts(st, fs[0].body);
        lemma_rc_stmts_ctr(st, fs[0].body);
        let st1 = rc_fn(st, fs[0]).0;
        let h = rc_fn(st, fs[0]).1;
        lemma_sites_fns(st1, tail);
        let t = rc_fns(st1, tail).1;
        let out = seq![h] + t;
        assert(out[0] == h);
        assert(out.subrange(1, out.len() as int) =~= t);
        assert(site_ids_fns(out) == site_ids_stmts(h.body) + site_ids_fns(t));
        assert(site_ids_stmts(h.body) + site_ids_fns(t) =~= id_range(st.ctr, n_loops_fns(fs)));
    }
}

/// For a program with N loop sites, the pass allocates exactly N indices;
/// the reconditioned program's guards use exactly the counter-slot indices
/// 0 to N-1, each exactly once, in depth-first program order; and the
/// assembled program declares counter storage of size N exactly when N is
/// not zero.
pub proof fn lemma_loop_bounding(p: ProgramV)
    requires
        n_loops_program(p) <= u32::MAX,
    ensures
        rc_program(p).0.ctr == n_loops_program(p),
        site_ids_program(rc_program(p).1) == id_range(0, n_loops_program(p)),
        assemble_spec(p).counter_slots == (if n_loops_program(p) > 0 {
            Some(n_loops_program(p) as u32)
        } else {
            None::<u32>
        }),
{
    lemma_sites_stmts(PassState::init(), p.entrypoint.body);
    lemma_rc_stmts_ctr(PassState::init(), p.entrypoint.body);
    let st1 = rc_fn(PassState::init(), p.entrypoint).0;
    lemma_sites_fns(st1, p.functions);
    lemma_rc_fns_ctr(st1, p.functions);
    let out = rc_program(p).1;
    assert(site_ids_program(out) =~= id_range(0, n_loops_program(p)));
}

// ---------------------------------------------------------------------------
// Vector wrapper minimality.
// ---------------------------------------------------------------------------

/// The safe-function identifiers the arithmetic operators of an expression
/// give rise to.
pub open spec fn arith_idents_expr(e: ExprNodeV) -> Set<Seq<char>>
    decreases e,
{
    match e.expr {
        ExprV::TypeCons(_, args) => arith_idents_exprs(args),
        ExprV::UnOp(_, i) => arith_idents_expr(*i),
        ExprV::BinOp(op, l, r) => (match arith_op_name(op) {
            Some(name) => Set::empty().insert(safe_ident(name, e.data_type)),
            None => Set::empty(),
        }).union(arith_idents_expr(*l)).union(arith_idents_expr(*r)),
        ExprV::FnCall(_, args) => arith_idents_exprs(args),
        ExprV::Postfix(b, p) => arith_idents_expr(*b).union(arith_idents_postfix(p)),
        _ => Set::empty(),
    }
}

/// `arith_idents_expr`, over a sequence of expression nodes.
pub open spec fn arith_idents_exprs(es: Seq<ExprNodeV>) -> Set<Seq<char>>
    decreases es,
{
    if es.len() == 0 {
        Set::empty()
    } else {
        arith_idents_expr(es[0]).union(arith_idents_exprs(es.subrange(1, es.len() as int)))
    }
}

/// `arith_idents_expr`, over a postfix access.
pub open spec fn arith_idents_postfix(p: PostfixV) -> Set<Seq<char>>
    decreases p,
{
    match p {
        PostfixV::ArrayIndex(e) => arith_idents_expr(*e),
        PostfixV::Member(_) => Set::empty(),
    }
}

/// `arith_idents_expr`, over an optional expression node.
pub open spec fn arith_idents_opt_expr(e: Option<ExprNodeV>) -> Set<Seq<char>> {
    match e {
        Some(e0) => arith_idents_expr(e0),
        None => Set::empty(),
    }
}

/// The safe-function identifiers requested by the positions a statement
/// rewrite visits.
pub open spec fn arith_idents_stmt(s: StatementV) -> Set<Seq<char>>
    decreases s,
{
    match s {
        StatementV::LetDecl(_, e) => arith_idents_expr(e),
        StatementV::VarDecl(_, _, e) => arith_idents_opt_expr(e),
        StatementV::Assignment(_, _, e) => arith_idents_expr(e),
        StatementV::Compound(b) => arith_idents_stmts(b),
        StatementV::If(c, b) => arith_idents_expr(c).union(arith_idents_stmts(b)),
        StatementV::Return(e) => arith_idents_opt_expr(e),
        StatementV::Loop(b) => arith_idents_stmts(b),
        _ => Set::empty(),
    }
}

/// `arith_idents_stmt`, over a sequence of statements.
pub open spec fn arith_idents_stmts(ss: Seq<StatementV>) -> Set<Seq<char>>
    decreases ss,
{
    if ss.len() == 0 {
        Set::empty()
    } else {
        arith_idents_stmt(ss[0]).union(arith_idents_stmts(ss.subrange(1, ss.len() as int)))
    }
}

/// `arith_idents_stmt`, over a sequence of declarations.
pub open spec fn arith_idents_fns(fs: Seq<FnDeclV>) -> Set<Seq<char>>
    decreases fs,
{
    if fs.len() == 0 {
        Set::empty()
    } else {
        arith_idents_stmts(fs[0].body).union(arith_idents_fns(fs.subrange(1, fs.len() as int)))
    }
}

/// The safe-function identifiers a whole program requests.
pub open spec fn arith_idents_program(p: ProgramV) -> Set<Seq<char>> {
    arith_idents_stmts(p.entrypoint.body).union(arith_idents_fns(p.functions))
}

/// The expression rewrite adds to the used-identifier set exactly the
/// identifiers of the expression's arithmetic operators.
pub proof fn lemma_idents_expr(st: PassState, e: ExprNodeV)
    ensures
        rc_expr(st, e).0.fns == st.fns.union(arith_idents_expr(e)),
    decreases e,
{
    match e.expr {
        ExprV::TypeCons(_, args) => {
            lemma_idents_exprs(st, args);
        },
        ExprV::UnOp(_, i) => {
            lemma_idents_expr(st, *i);
        },
        ExprV::BinOp(op, l, r) => {
            lemma_idents_expr(st, *l);
            let st1 = rc_expr(st, *l).0;
            lemma_idents_expr(st1, *r);
            assert(rc_expr(st, e).0.fns =~= st.fns.union(arith_idents_expr(e)));
        },
        ExprV::FnCall(_, args) => {
            lemma_idents_exprs(st, args);
        },
        ExprV::Postfix(b, p) => {
            lemma_idents_expr(st, *b);
            lemma_idents_postfix(rc_expr(st, *b).0, p);
            assert(rc_expr(st, e).0.fns =~= st.fns.union(arith_idents_expr(e)));
        },
        _ => {
            assert(rc_expr(st, e).0.fns =~= st.fns.union(arith_idents_expr(e)));
        },
    }
}

/// `lemma_idents_expr`, over a sequence of expression nodes.
pub proof fn lemma_idents_exprs(st: PassState, es: Seq<ExprNodeV>)
    ensures
        rc_exprs(st, es).0.fns == st.fns.union(arith_idents_exprs(es)),
    decreases es,
{
    if es.len() == 0 {
        assert(rc_exprs(st, es).0.fns =~= st.fns.union(arith_idents_exprs(es)));
    } else {
        let tail = es.subrange(1, es.len() as int);
        lemma_idents_expr(st, es[0]);
        lemma_idents_exprs(rc_expr(st, es[0]).0, tail);
        assert(rc_exprs(st, es).0.fns =~= st.fns.union(arith_idents_exprs(es)));
    }
}

/// `lemma_idents_expr`, over a postfix access.
pub proof fn lemma_idents_postfix(st: PassState, p: PostfixV)
    ensures
        rc_postfix(st, p).0.fns == st.fns.union(arith_idents_postfix(p)),
    decreases p,
{
    match p {
        PostfixV::ArrayIndex(e) => {
            lemma_idents_expr(st, *e);
        },
        PostfixV::Member(_) => {
            assert(rc_postfix(st, p).0.fns =~= st.fns.union(arith_idents_postfix(p)));
        },
    }
}

/// `lemma_idents_expr`, over an optional expression node.
pub proof fn lemma_idents_opt_expr(st: PassState, e: Option<ExprNodeV>)
    ensures
        rc_opt_expr(st, e).0.fns == st.fns.union(arith_idents_opt_expr(e)),
{
    match e {
        Some(e0) => lemma_idents_expr(st, e0),
        None => {
            assert(rc_opt_expr(st, e).0.fns =~= st.fns.union(arith_idents_opt_expr(e)));
        },
    }
}

/// The statement rewrite adds to the used-identifier set exactly the
/// identifiers of the arithmetic operators it visits.
pub proof fn lemma_idents_stmt(st: PassState, s: StatementV)
    ensures
        rc_stmt(st, s).0.fns == st.fns.union(arith_idents_stmt(s)),
    decreases s,
{
    match s {
        StatementV::LetDecl(_, e) => lemma_idents_expr(st, e),
        StatementV::VarDecl(_, _, e) => lemma_idents_opt_expr(st, e),
        StatementV::Assignment(_, _, e) => lemma_idents_expr(st, e),
        StatementV::Compound(b) => lemma_idents_stmts(st, b),
        StatementV::If(c, b) => {
            lemma_idents_expr(st, c);
            lemma_idents_stmts(rc_expr(st, c).0, b);
            assert(rc_stmt(st, s).0.fns =~= st.fns.union(arith_idents_stmt(s)));
        },
        StatementV::Return(e) => lemma_idents_opt_expr(st, e),
        StatementV::Loop(b) => {
            lemma_idents_stmts(st.next(), b);
        },
        _ => {
            assert(rc_stmt(st, s).0.fns =~= st.fns.union(arith_idents_stmt(s)));
        },
    }
}

/// `lemma_idents_stmt`, over a sequence of statements.
pub proof fn lemma_idents_stmts(st: PassState, ss: Seq<StatementV>)
    ensures
        rc_stmts(st, ss).0.fns == st.fns.union(arith_idents_stmts(ss)),
    decreases ss,
{
    if ss.len() == 0 {
        assert(rc_stmts(st, ss).0.fns =~= st.fns.union(arith_idents_stmts(ss)));
    } else {
        let tail = ss.subrange(1, ss.len() as int);
        lemma_idents_stmt(st, ss[0]);
        lemma_idents_stmts(rc_stmt(st, ss[0]).0, tail);
        assert(rc_stmts(st, ss).0.fns =~= st.fns.union(arith_idents_stmts(ss)));
    }
}

/// `lemma_idents_stmt`, over a sequence of declarations.
pub proof fn lemma_idents_fns(st: PassState, fs: Seq<FnDeclV>)
    ensures
        rc_fns(st, fs).0.fns == st.fns.union(arith_idents_fns(fs)),
    decreases fs,
{
    if fs.len() == 0 {
        assert(rc_fns(st, fs).0.fns =~= st.fns.union(arith_idents_fns(fs)));
    } else {
        let tail = fs.subrange(1, fs.len() as int);
        lemma_idents_stmts(st, fs[0].body);
        lemma_idents_fns(rc_fn(st, fs[0]).0, tail);
        assert(rc_fns(st, fs).0.fns =~= st.fns.union(arith_idents_fns(fs)));
    }
}

/// One pass requests exactly the identifiers of the program's arithmetic
/// operators.
pub proof fn lemma_requested_idents(p: ProgramV)
    ensures
        rc_program(p).0.fns == arith_idents_program(p),
{
    lemma_idents_stmts(PassState::init(), p.entrypoint.body);
    lemma_idents_fns(rc_fn(PassState::init(), p.entrypoint).0, p.functions);
    assert(rc_program(p).0.fns =~= arith_idents_program(p));
}

/// The wrapper set an assembled program emits is minimal and complete: it
/// holds a candidate wrapper exactly when some arithmetic site of the
/// program requests its identifier — no unused wrapper is emitted, and no
/// requested one is missing.
pub proof fn lemma_wrapper_minimality(p: ProgramV, w: FnDeclV)
    ensures
        emitted_wrappers(rc_program(p).0.fns).contains(w) <==> (
        crate::wrappers::candidate_wrappers().contains(w) && arith_idents_program(p).contains(
            w.name,
        )),
        assemble_spec(p).functions =~= emitted_wrappers(arith_idents_program(p))
            + rc_program(p).1.functions,
{
    lemma_requested_idents(p);
    crate::assemble::lemma_emitted_wrappers_membership(rc_program(p).0.fns, w);
}


} // verus!
