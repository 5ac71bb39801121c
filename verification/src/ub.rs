//! The deliberate-UB injection surface: a separate instrumentation tool
//! that shares the node vocabulary but none of the reconditioning logic.
//! Its synthesized statement writes a chosen value into a dedicated buffer
//! over a bounded index range.

use crate::ast::{
    AssignmentLhs, AssignmentLhsV, AssignmentOp, BinOp, Expr, ExprNode, ExprNodeV, ExprV,
    ForLoopHeader, ForLoopHeaderV, ForLoopInit, ForLoopInitV, ForLoopUpdate, ForLoopUpdateV,
    Statement, StatementV,
};
use crate::types::{DataType, DataTypeV, ScalarType};
use vstd::prelude::*;
use vstd::string::StrSliceExecFns;

verus! {

/// Options of the injection tool: where the program and the flow trace are
/// read, where the output goes, and the size of the dedicated buffer in
/// MiB. The surrounding binary fills them from its arguments.
pub struct Options {
    pub input: String,
    pub output: String,
    pub flowfile: String,
    pub size: usize,
}

/// Feature selection of the injection tool.
#[derive(Clone, Debug)]
pub enum Feature {
    PlaceHolder,
}

/// A variable reference of scalar `u32` type.
pub open spec fn ub_var(name: Seq<char>) -> ExprNodeV {
    ExprNodeV { data_type: DataTypeV::Scalar(ScalarType::U32), expr: ExprV::Var(name) }
}

/// The mirror of the synthesized bounded-write statement: a compound block
/// holding one for-loop that walks the buffer's index range and stores the
/// chosen value at each index.
pub open spec fn ub_write_loop() -> StatementV {
    StatementV::Compound(
        seq![
            StatementV::ForLoop(
                ForLoopHeaderV {
                    init: Some(
                        ForLoopInitV::VarDecl(
                            "_wgslsmith_ub_index"@,
                            Some(DataTypeV::Scalar(ScalarType::U32)),
                            Some(ub_var("_wgslsmith_ub.min_index"@)),
                        ),
                    ),
                    condition: Some(
                        ExprNodeV {
                            data_type: DataTypeV::Scalar(ScalarType::Bool),
                            expr: ExprV::BinOp(
                                BinOp::LessEqual,
                                Box::new(ub_var("_wgslsmith_ub_index"@)),
                                Box::new(ub_var("_wgslsmith_ub.max_index"@)),
                            ),
                        },
                    ),
                    update: Some(
                        ForLoopUpdateV::Assignment(
                            AssignmentLhsV::Simple("(_wgslsmith_ub_index)"@, Seq::empty()),
                            AssignmentOp::Plus,
                            ExprNodeV {
                                data_type: DataTypeV::Scalar(ScalarType::U32),
                                expr: ExprV::Lit(crate::ast::Lit::UInt(1)),
                            },
                        ),
                    ),
                },
                seq![
                    StatementV::Assignment(
                        AssignmentLhsV::Simple(
                            "(_wgslsmith_ub.arr)[_wgslsmith_ub_index]"@,
                            Seq::empty(),
                        ),
                        AssignmentOp::Simple,
                        ub_var("_wgslsmith_ub.write_value"@),
                    ),
                ],
            ),
        ],
    )
}

/// Synthesizes the bounded write into the dedicated buffer: a for-loop from
/// the buffer's minimum to its maximum index, storing the chosen value.
pub fn generate_ub() -> (r: Statement)
    ensures
        r.deep_view() == ub_write_loop(),
{
    let init = ForLoopInit::VarDecl(
        "_wgslsmith_ub_index".to_owned(),
        Some(DataType::Scalar(ScalarType::U32)),
        Some(
            ExprNode {
                data_type: DataType::Scalar(ScalarType::U32),
                expr: Expr::Var("_wgslsmith_ub.min_index".to_owned()),
            },
        ),
    );
    proof {
        assert(init.deep_view() =~~= ForLoopInitV::VarDecl(
            "_wgslsmith_ub_index"@,
            Some(DataTypeV::Scalar(ScalarType::U32)),
            Some(ub_var("_wgslsmith_ub.min_index"@)),
        ));
    }
    let lvar = ExprNode {
        data_type: DataType::Scalar(ScalarType::U32),
        expr: Expr::Var("_wgslsmith_ub_index".to_owned()),
    };
    let rvar = ExprNode {
        data_type: DataType::Scalar(ScalarType::U32),
        expr: Expr::Var("_wgslsmith_ub.max_index".to_owned()),
    };
    proof {
        assert(lvar.deep_view() == ub_var("_wgslsmith_ub_index"@));
        assert(rvar.deep_view() == ub_var("_wgslsmith_ub.max_index"@));
    }
    let condition = ExprNode {
        data_type: DataType::Scalar(ScalarType::Bool),
        expr: Expr::BinOp(BinOp::LessEqual, Box::new(lvar), Box::new(rvar)),
    };
    proof {
        assert(condition.deep_view() =~~= (ExprNodeV {
            data_type: DataTypeV::Scalar(ScalarType::Bool),
            expr: ExprV::BinOp(
                BinOp::LessEqual,
                Box::new(ub_var("_wgslsmith_ub_index"@)),
                Box::new(ub_var("_wgslsmith_ub.max_index"@)),
            ),
        }));
    }
    let update = ForLoopUpdate::Assignment(
        AssignmentLhs::Simple("(_wgslsmith_ub_index)".to_owned(), Vec::new()),
        AssignmentOp::Plus,
        ExprNode {
            data_type: DataType::Scalar(ScalarType::U32),
            expr: Expr::Lit(crate::ast::Lit::UInt(1)),
        },
    );
    proof {
        assert(update.deep_view() =~~= ForLoopUpdateV::Assignment(
            AssignmentLhsV::Simple("(_wgslsmith_ub_index)"@, Seq::empty()),
            AssignmentOp::Plus,
            ExprNodeV {
                data_type: DataTypeV::Scalar(ScalarType::U32),
                expr: ExprV::Lit(crate::ast::Lit::UInt(1)),
            },
        ));
    }
    let header = ForLoopHeader { init: Some(init), condition: Some(condition), update: Some(update) };
    let store = Statement::Assignment(
        AssignmentLhs::Simple("(_wgslsmith_ub.arr)[_wgslsmith_ub_index]".to_owned(), Vec::new()),
        AssignmentOp::Simple,
        ExprNode {
            data_type: DataType::Scalar(ScalarType::U32),
            expr: Expr::Var("_wgslsmith_ub.write_value".to_owned()),
        },
    );
    let ghost storev = store.deep_view();
    let mut loop_body: Vec<Statement> = Vec::new();
    loop_body.push(store);
    proof {
        crate::ast::lemma_deep_view_stmts(loop_body@);
        assert(crate::ast::deep_view_stmts(loop_body@) =~= seq![storev]);
    }
    let for_loop = Statement::ForLoop(header, loop_body);
    let ghost flv = for_loop.deep_view();
    let mut block: Vec<Statement> = Vec::new();
    block.push(for_loop);
    let r = Statement::Compound(block);
    proof {
        crate::ast::lemma_deep_view_stmts(block@);
        assert(crate::ast::deep_view_stmts(block@) =~= seq![flv]);
        assert(r.deep_view() =~~= ub_write_loop());
    }
    r
}

/// A decimal digit character.
pub open spec fn is_decimal_digit(c: char) -> bool {
    ('0' as u32) <= (c as u32) && (c as u32) <= ('9' as u32)
}

/// The numeric value of a decimal digit character.
pub open spec fn digit_value(c: char) -> nat
    recommends
        is_decimal_digit(c),
{
    ((c as u32) - ('0' as u32)) as nat
}

/// The decimal digit characters of a flow token, in order; every other
/// character is ignored.
pub open spec fn digits_of(s: Seq<char>) -> Seq<char>
    decreases s,
{
    if s.len() == 0 {
        Seq::empty()
    } else {
        (if is_decimal_digit(s[0]) {
            seq![s[0]]
        } else {
            Seq::empty()
        }) + digits_of(s.subrange(1, s.len() as int))
    }
}

/// The number a sequence of digit characters denotes in decimal.
pub open spec fn dec_value(ds: Seq<char>) -> nat
    decreases ds,
{
    if ds.len() == 0 {
        0
    } else {
        dec_value(ds.drop_last()) * 10 + digit_value(ds.last())
    }
}

/// Taking digits distributes over concatenation.
proof fn lemma_digits_append(a: Seq<char>, b: Seq<char>)
    ensures
        digits_of(a + b) == digits_of(a) + digits_of(b),
    decreases a,
{
    if a.len() == 0 {
        assert(a + b =~= b);
        assert(digits_of(a) + digits_of(b) =~= digits_of(b));
    } else {
        let all = a + b;
        assert(all[0] == a[0]);
        assert(all.subrange(1, all.len() as int) =~= a.subrange(1, a.len() as int) + b);
        lemma_digits_append(a.subrange(1, a.len() as int), b);
        assert(digits_of(all) =~= digits_of(a) + digits_of(b));
    }
}

/// Appending digits can only raise the denoted value.
proof fn lemma_dec_value_monotone(a: Seq<char>, b: Seq<char>)
    ensures
        dec_value(a + b) >= dec_value(a),
    decreases b,
{
    if b.len() == 0 {
        assert(a + b =~= a);
    } else {
        let all = a + b;
        assert(all.drop_last() =~= a + b.drop_last());
        lemma_dec_value_monotone(a, b.drop_last());
    }
}

/// The numeric index a flow-trace token carries: its decimal digits read as
/// one number, every other character ignored. Nothing comes back when the
/// token holds no digit at all or the number does not fit `u32`; on such a
/// trace the surrounding tool gives up.
pub fn flow_index(token: &str) -> (r: Option<u32>)
    ensures
        ({
            let ds = digits_of(token@);
            match r {
                Some(v) => ds.len() > 0 && dec_value(ds) == v as nat,
                None => ds.len() == 0 || dec_value(ds) > u32::MAX,
            }
        }),
{
    let n = token.unicode_len();
    let mut i: usize = 0;
    let mut seen = false;
    let mut val: u32 = 0;
    while i < n
        invariant
            n as nat == token@.len(),
            i <= n,
            seen == (digits_of(token@.subrange(0, i as int)).len() > 0),
            val as nat == dec_value(digits_of(token@.subrange(0, i as int))),
        decreases n - i,
    {
        let c = token.get_char(i);
        let ghost pre = token@.subrange(0, i as int);
        let ghost ds_pre = digits_of(pre);
        proof {
            assert(token@.subrange(0, i as int + 1) =~= pre + seq![c]);
            lemma_digits_append(pre, seq![c]);
            assert(seq![c].subrange(1, 1) =~= Seq::<char>::empty());
            assert(digits_of(Seq::<char>::empty()) =~= Seq::<char>::empty());
        }
        let u = c as u32;
        if ('0' as u32) <= u && u <= ('9' as u32) {
            let d = u - ('0' as u32);
            proof {
                assert(digits_of(seq![c]) =~= seq![c]);
                assert((ds_pre + seq![c]).drop_last() =~= ds_pre);
                assert(dec_value(ds_pre + seq![c]) == dec_value(ds_pre) * 10 + d);
            }
            if val > (u32::MAX - d) / 10 {
                proof {
                    assert(val as nat * 10 + d > u32::MAX) by (nonlinear_arith)
                        requires
                            val > (u32::MAX - d) / 10,
                            d <= 9,
                            u32::MAX == 0xffff_ffff,
                    ;
                    let rest = token@.subrange(i as int + 1, n as int);
                    assert(token@ =~= token@.subrange(0, i as int + 1) + rest);
                    lemma_digits_append(token@.subrange(0, i as int + 1), rest);
                    lemma_dec_value_monotone(ds_pre + seq![c], digits_of(rest));
                    assert(digits_of(token@) =~= (ds_pre + seq![c]) + digits_of(rest));
                }
                return None;
            }
            val = val * 10 + d;
            seen = true;
        } else {
            proof {
                assert(digits_of(seq![c]) =~= Seq::<char>::empty());
                assert(ds_pre + digits_of(seq![c]) =~= ds_pre);
            }
        }
        i = i + 1;
    }
    proof {
        assert(token@.subrange(0, n as int) =~= token@);
    }
    if seen {
        Some(val)
    } else {
        None
    }
}

} // verus!
