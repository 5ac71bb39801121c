//! The vector-forwarding wrapper library: for every arithmetic operator,
//! integer scalar type and vector width, a synthesized function whose body
//! decomposes the vector operation into one scalar safe-function call per
//! component. Program assembly later keeps only the wrappers whose
//! identifiers were actually requested.

use crate::ast::{
    AttrList, Expr, ExprNode, ExprNodeV, ExprV, FnDecl, FnDeclV, FnInput, FnInputV, FnOutput,
    FnOutputV, Postfix, PostfixV, Statement, StatementV,
};
use crate::naming::safe_ident;
use crate::types::{DataType, DataTypeV, ScalarType};
use vstd::prelude::*;

verus! {

/// The name of a vector component, by position.
pub open spec fn component_name(i: int) -> Seq<char> {
    if i == 0 {
        "x"@
    } else if i == 1 {
        "y"@
    } else if i == 2 {
        "z"@
    } else {
        "w"@
    }
}

/// One component of a wrapper body: the scalar safe-function call
/// `SAFE_<op>_<scalar>(a.<c>, b.<c>)`.
pub open spec fn wrapper_component(op: Seq<char>, ty: ScalarType, n: u8, i: int) -> ExprNodeV {
    let vec_ty = DataTypeV::Vector(n, ty);
    ExprNodeV {
        data_type: DataTypeV::Scalar(ty),
        expr: ExprV::FnCall(
            safe_ident(op, DataTypeV::Scalar(ty)),
            seq![
                ExprNodeV {
                    data_type: DataTypeV::Scalar(ty),
                    expr: ExprV::Postfix(
                        Box::new(ExprNodeV { data_type: vec_ty, expr: ExprV::Var("a"@) }),
                        PostfixV::Member(component_name(i)),
                    ),
                },
                ExprNodeV {
                    data_type: DataTypeV::Scalar(ty),
                    expr: ExprV::Postfix(
                        Box::new(ExprNodeV { data_type: vec_ty, expr: ExprV::Var("b"@) }),
                        PostfixV::Member(component_name(i)),
                    ),
                },
            ],
        ),
    }
}

/// The synthesized forwarding wrapper for one (operator, scalar, width):
/// `fn SAFE_<op>_vec<n>_<scalar>(a, b) -> vec { return vec(<calls>); }`.
pub open spec fn vector_wrapper(op: Seq<char>, ty: ScalarType, n: u8) -> FnDeclV {
    let vec_ty = DataTypeV::Vector(n, ty);
    FnDeclV {
        attrs: Seq::empty(),
        name: safe_ident(op, vec_ty),
        inputs: seq![
            FnInputV { attrs: Seq::empty(), name: "a"@, data_type: vec_ty },
            FnInputV { attrs: Seq::empty(), name: "b"@, data_type: vec_ty },
        ],
        output: Some(FnOutputV { attrs: Seq::empty(), data_type: vec_ty }),
        body: seq![
            StatementV::Return(
                Some(
                    ExprNodeV {
                        data_type: vec_ty,
                        expr: ExprV::TypeCons(
                            vec_ty,
                            Seq::new(n as nat, |i: int| wrapper_component(op, ty, n, i)),
                        ),
                    },
                ),
            ),
        ],
    }
}

/// The operator name at one position of the library's generation order.
pub open spec fn wrapper_op_name(k: int) -> Seq<char> {
    if k == 0 {
        "PLUS"@
    } else if k == 1 {
        "MINUS"@
    } else if k == 2 {
        "TIMES"@
    } else if k == 3 {
        "DIVIDE"@
    } else {
        "MOD"@
    }
}

/// The candidate wrapper at one position of the generation order: operators
/// outermost, then the integer scalar type, then the width from 2 to 4.
pub open spec fn candidate_wrapper(i: int) -> FnDeclV {
    vector_wrapper(
        wrapper_op_name(i / 6),
        if (i % 6) / 3 == 0 {
            ScalarType::I32
        } else {
            ScalarType::U32
        },
        (2 + (i % 3)) as u8,
    )
}

/// The whole candidate wrapper library, in generation order. The boolean
/// scalar type is excluded: arithmetic is undefined for booleans.
pub open spec fn candidate_wrappers() -> Seq<FnDeclV> {
    Seq::new(30, |i: int| candidate_wrapper(i))
}

/// Builds one component access `<v>.<c>` of a wrapper body.
fn make_component_access(v: &str, ty: ScalarType, n: u8, i: u8) -> (r: ExprNode)
    requires
        i < 4,
    ensures
        r.deep_view() == (ExprNodeV {
            data_type: DataTypeV::Scalar(ty),
            expr: ExprV::Postfix(
                Box::new(
                    ExprNodeV { data_type: DataTypeV::Vector(n, ty), expr: ExprV::Var(v@) },
                ),
                PostfixV::Member(component_name(i as int)),
            ),
        }),
{
    let component: &str = if i == 0 {
        "x"
    } else if i == 1 {
        "y"
    } else if i == 2 {
        "z"
    } else {
        "w"
    };
    let base = ExprNode { data_type: DataType::Vector(n, ty), expr: Expr::Var(v.to_owned()) };
    proof {
        assert(base.deep_view() == ExprNodeV {
            data_type: DataTypeV::Vector(n, ty),
            expr: ExprV::Var(v@),
        });
    }
    let pf = Postfix::Member(component.to_owned());
    proof {
        assert(pf.deep_view() == PostfixV::Member(component_name(i as int)));
    }
    let r = ExprNode {
        data_type: DataType::Scalar(ty),
        expr: Expr::Postfix(Box::new(base), pf),
    };
    proof {
        assert(DataType::Scalar(ty).deep_view() == DataTypeV::Scalar(ty));
    }
    r
}

/// Builds one scalar forwarding call of a wrapper body.
fn make_wrapper_component(op: &str, ty: ScalarType, n: u8, i: u8) -> (r: ExprNode)
    requires
        i < 4,
    ensures
        r.deep_view() == wrapper_component(op@, ty, n, i as int),
{
    let a = make_component_access("a", ty, n, i);
    let b = make_component_access("b", ty, n, i);
    let ghost av = a.deep_view();
    let ghost bv = b.deep_view();
    let mut args: Vec<ExprNode> = Vec::new();
    args.push(a);
    args.push(b);
    let callee = crate::naming::safe_fn(op, &DataType::Scalar(ty));
    let r = ExprNode { data_type: DataType::Scalar(ty), expr: Expr::FnCall(callee, args) };
    proof {
        crate::ast::lemma_deep_view_exprs(args@);
        assert(crate::ast::deep_view_exprs(args@) =~= seq![av, bv]);
        assert(DataType::Scalar(ty).deep_view() == DataTypeV::Scalar(ty));
    }
    r
}

/// Builds the synthesized wrapper for one (operator, scalar, width).
fn make_vector_wrapper(op: &str, ty: ScalarType, n: u8) -> (r: FnDecl)
    requires
        2 <= n <= 4,
    ensures
        r.deep_view() == vector_wrapper(op@, ty, n),
{
    let mut components: Vec<ExprNode> = Vec::new();
    let mut i: u8 = 0;
    while i < n
        invariant
            i <= n,
            n <= 4,
            components@.len() == i as int,
            forall|j: int|
                0 <= j < i as int ==> (#[trigger] components@[j]).deep_view()
                    == wrapper_component(op@, ty, n, j),
        decreases n - i,
    {
        let c = make_wrapper_component(op, ty, n, i);
        components.push(c);
        i = i + 1;
    }
    proof {
        crate::ast::lemma_deep_view_exprs(components@);
        assert(crate::ast::deep_view_exprs(components@) =~= Seq::new(
            n as nat,
            |j: int| wrapper_component(op@, ty, n, j),
        ));
    }
    let ret = Statement::Return(
        Some(
            ExprNode {
                data_type: DataType::Vector(n, ty),
                expr: Expr::TypeCons(DataType::Vector(n, ty), components),
            },
        ),
    );
    let ghost retv = ret.deep_view();
    let mut body: Vec<Statement> = Vec::new();
    body.push(ret);
    proof {
        crate::ast::lemma_deep_view_stmts(body@);
        assert(crate::ast::deep_view_stmts(body@) =~= seq![retv]);
    }
    let name = crate::naming::safe_fn(op, &DataType::Vector(n, ty));
    let mut inputs: Vec<FnInput> = Vec::new();
    inputs.push(
        FnInput {
            attrs: AttrList(Vec::new()),
            name: "a".to_owned(),
            data_type: DataType::Vector(n, ty),
        },
    );
    inputs.push(
        FnInput {
            attrs: AttrList(Vec::new()),
            name: "b".to_owned(),
            data_type: DataType::Vector(n, ty),
        },
    );
    let r = FnDecl {
        attrs: AttrList(Vec::new()),
        name,
        inputs,
        output: Some(FnOutput { attrs: AttrList(Vec::new()), data_type: DataType::Vector(n, ty) }),
        body,
    };
    proof {
        let expected = vector_wrapper(op@, ty, n);
        assert(r.attrs.deep_view() =~= Seq::<Seq<char>>::empty());
        assert(r.inputs.deep_view() =~~= expected.inputs);
        assert(r.output.deep_view() =~~= expected.output);
        assert(r.deep_view() =~~= expected);
    }
    r
}

/// Generates the whole candidate wrapper library, in generation order:
/// operators outermost, then the two integer scalar types, then the widths
/// from 2 to 4.
pub fn vector_safe_wrappers() -> (r: Vec<FnDecl>)
    ensures
        r.deep_view() == candidate_wrappers(),
{
    let mut fns: Vec<FnDecl> = Vec::new();
    let mut k: u8 = 0;
    while k < 5
        invariant
            k <= 5,
            fns@.len() == 6 * k as int,
            forall|j: int| 0 <= j < fns@.len() ==> fns.deep_view()[j] == candidate_wrapper(j),
        decreases 5 - k,
    {
        let op: &str = if k == 0 {
            "PLUS"
        } else if k == 1 {
            "MINUS"
        } else if k == 2 {
            "TIMES"
        } else if k == 3 {
            "DIVIDE"
        } else {
            "MOD"
        };
        proof {
            assert(op@ == wrapper_op_name(k as int));
        }
        let mut t: u8 = 0;
        while t < 2
            invariant
                t <= 2,
                k < 5,
                op@ == wrapper_op_name(k as int),
                fns@.len() == 6 * k as int + 3 * t as int,
                forall|j: int| 0 <= j < fns@.len() ==> fns.deep_view()[j] == candidate_wrapper(j),
            decreases 2 - t,
        {
            let ty = if t == 0 {
                ScalarType::I32
            } else {
                ScalarType::U32
            };
            let mut n: u8 = 2;
            while n <= 4
                invariant
                    2 <= n <= 5,
                    t < 2,
                    k < 5,
                    op@ == wrapper_op_name(k as int),
                    ty == if t == 0 {
                        ScalarType::I32
                    } else {
                        ScalarType::U32
                    },
                    fns@.len() == 6 * k as int + 3 * t as int + (n as int - 2),
                    forall|j: int|
                        0 <= j < fns@.len() ==> fns.deep_view()[j] == candidate_wrapper(j),
                decreases 5 - n,
            {
                let w = make_vector_wrapper(op, ty, n);
                let ghost idx = fns@.len() as int;
                fns.push(w);
                proof {
                    assert(idx / 6 == k as int && (idx % 6) / 3 == t as int && idx % 3 == (
                    n as int - 2)) by (nonlinear_arith)
                        requires
                            idx == 6 * (k as int) + 3 * (t as int) + (n as int - 2),
                            0 <= k < 5,
                            0 <= t < 2,
                            2 <= n <= 4,
                    ;
                    assert(fns.deep_view()[idx] == candidate_wrapper(idx));
                }
                n = n + 1;
            }
            t = t + 1;
        }
        k = k + 1;
    }
    proof {
        assert(fns.deep_view() =~= candidate_wrappers());
    }
    fns
}

} // verus!
