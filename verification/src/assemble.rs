//! Program assembly: one full pass over a parsed program, followed by the
//! combination of conditionally-emitted loop-counter storage, the vector
//! wrappers that were actually requested, and the rewritten functions. The
//! fixed scalar-level prelude is opaque external text and is prepended by
//! the caller when the program is serialized.

use crate::ast::{FnDecl, FnDeclV, Program, ProgramV};
use crate::recondition::{
    lemma_rc_stmts_ctr, n_loops_program, rc_program, rewritable_program, PassState, Reconditioner,
};
use crate::wrappers::{candidate_wrapper, candidate_wrappers, vector_safe_wrappers};
use vstd::prelude::*;

verus! {

/// A reconditioned, assembled program: the size of the loop-counter storage
/// (absent when the program has no loop sites), the rewritten entrypoint,
/// and the emitted wrappers followed by the rewritten ordinary functions.
/// The external prelude precedes all of it when the program is written out.
#[derive(Debug)]
pub struct AssembledProgram {
    pub counter_slots: Option<u32>,
    pub entrypoint: FnDecl,
    pub functions: Vec<FnDecl>,
}

/// Mirror of `AssembledProgram`.
#[verifier::ext_equal]
pub ghost struct AssembledProgramV {
    pub counter_slots: Option<u32>,
    pub entrypoint: FnDeclV,
    pub functions: Seq<FnDeclV>,
}

impl DeepView for AssembledProgram {
    type V = AssembledProgramV;

    open spec fn deep_view(&self) -> AssembledProgramV {
        AssembledProgramV {
            counter_slots: self.counter_slots,
            entrypoint: self.entrypoint.deep_view(),
            functions: self.functions.deep_view(),
        }
    }
}

/// The first `k` candidate wrappers, kept exactly when their identifier was
/// requested, in generation order.
pub open spec fn emitted_prefix(fns: Set<Seq<char>>, k: int) -> Seq<FnDeclV>
    decreases k,
{
    if k <= 0 {
        Seq::empty()
    } else {
        emitted_prefix(fns, k - 1) + (if fns.contains(candidate_wrapper(k - 1).name) {
            seq![candidate_wrapper(k - 1)]
        } else {
            Seq::empty()
        })
    }
}

/// The wrapper functions an assembled program carries: exactly the
/// candidates whose identifiers were requested, in generation order.
pub open spec fn emitted_wrappers(fns: Set<Seq<char>>) -> Seq<FnDeclV> {
    emitted_prefix(fns, candidate_wrappers().len() as int)
}

/// Extending the candidate prefix by one appends the next candidate exactly
/// when its identifier was requested.
pub proof fn lemma_emitted_prefix_step(fns: Set<Seq<char>>, k: int)
    requires
        0 <= k,
    ensures
        emitted_prefix(fns, k + 1) == if fns.contains(candidate_wrapper(k).name) {
            emitted_prefix(fns, k).push(candidate_wrapper(k))
        } else {
            emitted_prefix(fns, k)
        },
{
    if fns.contains(candidate_wrapper(k).name) {
        assert(emitted_prefix(fns, k + 1) =~= emitted_prefix(fns, k).push(candidate_wrapper(k)));
    } else {
        assert(emitted_prefix(fns, k + 1) =~= emitted_prefix(fns, k));
    }
}

/// An emitted wrapper is exactly a candidate whose identifier was
/// requested: nothing unused is kept and nothing requested is missing.
pub proof fn lemma_emitted_prefix_membership(fns: Set<Seq<char>>, k: int, w: FnDeclV)
    requires
        0 <= k,
    ensures
        emitted_prefix(fns, k).contains(w) <==> ((exists|i: int|
            0 <= i < k && w == candidate_wrapper(i)) && fns.contains(w.name)),
    decreases k,
{
    if k > 0 {
        lemma_emitted_prefix_membership(fns, k - 1, w);
        let pre = emitted_prefix(fns, k - 1);
        let whole = emitted_prefix(fns, k);
        if fns.contains(candidate_wrapper(k - 1).name) {
            assert(whole =~= pre.push(candidate_wrapper(k - 1)));
            if whole.contains(w) {
                let j = choose|j: int| 0 <= j < whole.len() && whole[j] == w;
                if j < pre.len() {
                    assert(pre[j] == w);
                    assert(pre.contains(w));
                } else {
                    assert(w == candidate_wrapper(k - 1));
                }
            }
            if (exists|i: int| 0 <= i < k && w == candidate_wrapper(i)) && fns.contains(w.name) {
                let i = choose|i: int| 0 <= i < k && w == candidate_wrapper(i);
                if i == k - 1 {
                    assert(whole[whole.len() - 1] == w);
                } else {
                    assert(pre.contains(w));
                    let j = choose|j: int| 0 <= j < pre.len() && pre[j] == w;
                    assert(whole[j] == w);
                }
            }
        } else {
            assert(whole =~= pre);
            if (exists|i: int| 0 <= i < k && w == candidate_wrapper(i)) && fns.contains(w.name) {
                let i = choose|i: int| 0 <= i < k && w == candidate_wrapper(i);
                assert(i != k - 1);
            }
        }
    }
}

/// An assembled program's wrapper set is exactly the set of requested
/// candidate wrappers.
pub proof fn lemma_emitted_wrappers_membership(fns: Set<Seq<char>>, w: FnDeclV)
    ensures
        emitted_wrappers(fns).contains(w) <==> (candidate_wrappers().contains(w)
            && fns.contains(w.name)),
{
    lemma_emitted_prefix_membership(fns, candidate_wrappers().len() as int, w);
    if candidate_wrappers().contains(w) {
        let i = choose|i: int|
            0 <= i < candidate_wrappers().len() && candidate_wrappers()[i] == w;
        assert(candidate_wrapper(i) == w);
    }
    if exists|i: int| 0 <= i < candidate_wrappers().len() as int && w == candidate_wrapper(i) {
        let i = choose|i: int|
            0 <= i < candidate_wrappers().len() as int && w == candidate_wrapper(i);
        assert(candidate_wrappers()[i] == w);
        assert(candidate_wrappers().contains(w));
    }
}

/// One whole reconditioning pass, assembled: the loop-counter storage size
/// when any loop site exists, then the requested wrappers, the rewritten
/// entrypoint and the rewritten functions in their original order.
pub open spec fn assemble_spec(p: ProgramV) -> AssembledProgramV {
    let (st, p1) = rc_program(p);
    AssembledProgramV {
        counter_slots: if st.ctr > 0 {
            Some(st.ctr as u32)
        } else {
            None
        },
        entrypoint: p1.entrypoint,
        functions: emitted_wrappers(st.fns) + p1.functions,
    }
}

/// Reconditions one program with a fresh pass and assembles the result.
pub fn assemble_program(p: Program) -> (r: AssembledProgram)
    requires
        rewritable_program(p.deep_view()),
        n_loops_program(p.deep_view()) <= u32::MAX,
    ensures
        r.deep_view() == assemble_spec(p.deep_view()),
{
    let ghost pv = p.deep_view();
    let mut rec = Reconditioner::new();
    let Program { entrypoint, functions } = p;
    proof {
        lemma_rc_stmts_ctr(PassState::init(), pv.entrypoint.body);
    }
    let entry1 = rec.recondition_fn(entrypoint);
    let fns1 = rec.recondition_fns(functions);
    proof {
        assert(rec.st() == rc_program(pv).0);
        assert(entry1.deep_view() == rc_program(pv).1.entrypoint);
        assert(fns1.deep_view() == rc_program(pv).1.functions);
    }
    let count = rec.loop_count();
    let ghost fnsset = rec.st().fns;
    let cands = vector_safe_wrappers();
    let mut rest = cands;
    let mut wrappers: Vec<FnDecl> = Vec::new();
    let ghost total = candidate_wrappers().len() as int;
    while rest.len() > 0
        invariant
            total == candidate_wrappers().len() as int,
            rest.deep_view() =~= candidate_wrappers().subrange(
                total - rest@.len() as int,
                total,
            ),
            rest@.len() <= total,
            wrappers.deep_view() == emitted_prefix(fnsset, total - rest@.len() as int),
            rec.st().fns == fnsset,
        decreases rest@.len(),
    {
        let ghost i = total - rest@.len() as int;
        let ghost restv = rest.deep_view();
        let ghost len0 = rest@.len() as int;
        let c = rest.remove(0);
        let ghost cv = c.deep_view();
        proof {
            let cands = candidate_wrappers();
            assert(restv == cands.subrange(i, total));
            assert(0 <= i < total);
            assert(cv == restv[0]);
            assert(restv[0] == cands.subrange(i, total)[0]);
            assert(cands.subrange(i, total)[0] == cands[i]);
            assert(cands[i] == candidate_wrapper(i));
            assert(rest.deep_view() =~= restv.subrange(1, len0));
            assert forall|j: int| 0 <= j < len0 - 1 implies restv.subrange(1, len0)[j]
                == cands.subrange(i + 1, total)[j] by {
                assert(restv.subrange(1, len0)[j] == restv[j + 1]);
                assert(cands.subrange(i + 1, total)[j] == cands[i + 1 + j]);
                assert(restv[j + 1] == cands.subrange(i, total)[j + 1]);
            }
            assert(restv.subrange(1, len0) =~= cands.subrange(i + 1, total));
            lemma_emitted_prefix_step(fnsset, i);
        }
        let keep = rec.is_requested(&c.name);
        proof {
            assert(c.name@ == cv.name);
        }
        if keep {
            let ghost before = wrappers.deep_view();
            wrappers.push(c);
            proof {
                assert(wrappers.deep_view() =~= before.push(cv));
            }
        }
    }
    proof {
        assert(candidate_wrappers().subrange(0, total) =~= candidate_wrappers());
        assert(wrappers.deep_view() == emitted_wrappers(fnsset));
    }
    let ghost wrapv = wrappers.deep_view();
    let ghost fns1v = fns1.deep_view();
    let mut all = wrappers;
    let mut fns1m = fns1;
    all.append(&mut fns1m);
    proof {
        assert(all.deep_view() =~= wrapv + fns1v);
    }
    let counter_slots = if count > 0 {
        Some(count)
    } else {
        None
    };
    let r = AssembledProgram { counter_slots, entrypoint: entry1, functions: all };
    proof {
        assert(r.deep_view() =~~= assemble_spec(pv));
    }
    r
}

} // verus!
