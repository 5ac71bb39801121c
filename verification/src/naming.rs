//! Safe-function naming: a pure, deterministic derivation of an identifier
//! from an operator name and an operand type. The identifier doubles as the
//! deduplication key for the set of requested wrapper functions.

use crate::types::{dec_text, push_decimal, DataType, DataTypeV, ScalarType};
use vstd::prelude::*;
use vstd::string::StringExecFns;

verus! {

/// Types over which arithmetic may be reconditioned: scalars and vectors.
/// Arrays and aggregates are never valid arithmetic operands.
pub open spec fn arith_operand(t: DataTypeV) -> bool {
    t is Scalar || t is Vector
}

/// The type part of a safe-function identifier: the scalar's canonical name,
/// or `vec<width>_<scalar>` for a vector.
pub open spec fn type_suffix(t: DataTypeV) -> Seq<char>
    recommends
        arith_operand(t),
{
    match t {
        DataTypeV::Scalar(s) => s.name_spec(),
        DataTypeV::Vector(n, s) => "vec"@ + dec_text(n as nat) + "_"@ + s.name_spec(),
        _ => arbitrary(),
    }
}

/// The identifier of the safe function for an operator name and an operand
/// type: `SAFE_<op>_<suffix>`. Same inputs always yield the same identifier.
pub open spec fn safe_ident(op: Seq<char>, t: DataTypeV) -> Seq<char>
    recommends
        arith_operand(t),
{
    "SAFE_"@ + op + "_"@ + type_suffix(t)
}

/// Derives the safe-function identifier for an operator name and an operand
/// type. Arrays and aggregates are excluded up front: a request for them
/// indicates an unsupported program shape and must not coerce silently.
pub fn safe_fn(name: &str, data_type: &DataType) -> (r: String)
    requires
        arith_operand(data_type.deep_view()),
    ensures
        r@ == safe_ident(name@, data_type.deep_view()),
{
    let mut ident = "SAFE_".to_owned();
    ident.append(name);
    ident.append("_");
    match data_type {
        DataType::Scalar(t) => {
            ident.append(t.name());
        },
        DataType::Vector(n, t) => {
            ident.append("vec");
            push_decimal(&mut ident, *n as u32);
            ident.append("_");
            ident.append(t.name());
        },
        DataType::Array(_, _) => {
            unreached()
        },
        DataType::Struct(_) => {
            unreached()
        },
    }
    proof {
        assert(ident@ =~= safe_ident(name@, data_type.deep_view()));
    }
    ident
}

/// The five operator names that arithmetic reconditioning requests
/// wrappers for.
pub open spec fn arith_name(op: Seq<char>) -> bool {
    op == "PLUS"@ || op == "MINUS"@ || op == "TIMES"@ || op == "DIVIDE"@ || op == "MOD"@
}

/// A well-formed arithmetic operand: a scalar, or a vector of width 2 to 4.
pub open spec fn wf_operand(t: DataTypeV) -> bool {
    match t {
        DataTypeV::Scalar(_) => true,
        DataTypeV::Vector(n, _) => 2 <= n <= 4,
        _ => false,
    }
}

/// A common prefix cancels on the left of a sequence concatenation.
proof fn lemma_concat_cancel(a: Seq<char>, x: Seq<char>, y: Seq<char>)
    requires
        a + x == a + y,
    ensures
        x == y,
{
    assert((a + x).len() == a.len() + x.len());
    assert((a + y).len() == a.len() + y.len());
    assert(x.len() == y.len());
    assert forall|i: int| 0 <= i < x.len() implies x[i] == y[i] by {
        assert(0 <= a.len() + i < (a + y).len());
        assert((a + x)[a.len() + i] == x[i]);
        assert((a + y)[a.len() + i] == y[i]);
    }
    assert(x =~= y);
}

/// The canonical scalar names are pairwise distinct, so the name determines
/// the scalar type.
proof fn lemma_scalar_name_injective(s1: ScalarType, s2: ScalarType)
    requires
        s1.name_spec() == s2.name_spec(),
    ensures
        s1 == s2,
{
    reveal_strlit("bool");
    reveal_strlit("i32");
    reveal_strlit("u32");
    assert("bool"@.len() == 4);
    assert("i32"@.len() == 3);
    assert("u32"@.len() == 3);
    assert("i32"@[0] == 'i');
    assert("u32"@[0] == 'u');
}

/// The decimal of a width from 2 to 4 is its single digit.
proof fn lemma_width_digit(n: u8)
    requires
        2 <= n <= 4,
    ensures
        dec_text(n as nat).len() == 1,
        dec_text(n as nat)[0] == crate::types::digit_char(n as nat),
{
}

/// The type part of the identifier determines the operand type.
proof fn lemma_type_suffix_injective(t1: DataTypeV, t2: DataTypeV)
    requires
        wf_operand(t1),
        wf_operand(t2),
        type_suffix(t1) == type_suffix(t2),
    ensures
        t1 == t2,
{
    reveal_strlit("bool");
    reveal_strlit("i32");
    reveal_strlit("u32");
    reveal_strlit("vec");
    reveal_strlit("_");
    match (t1, t2) {
        (DataTypeV::Scalar(s1), DataTypeV::Scalar(s2)) => {
            lemma_scalar_name_injective(s1, s2);
        },
        (DataTypeV::Scalar(s1), DataTypeV::Vector(n2, s2)) => {
            lemma_width_digit(n2);
            assert(type_suffix(t2).len() >= 8);
            assert(type_suffix(t1).len() <= 4);
        },
        (DataTypeV::Vector(n1, s1), DataTypeV::Scalar(s2)) => {
            lemma_width_digit(n1);
            assert(type_suffix(t1).len() >= 8);
            assert(type_suffix(t2).len() <= 4);
        },
        (DataTypeV::Vector(n1, s1), DataTypeV::Vector(n2, s2)) => {
            lemma_width_digit(n1);
            lemma_width_digit(n2);
            assert(type_suffix(t1)[3] == crate::types::digit_char(n1 as nat));
            assert(type_suffix(t2)[3] == crate::types::digit_char(n2 as nat));
            assert(n1 == n2);
            lemma_concat_cancel(
                "vec"@ + dec_text(n1 as nat) + "_"@,
                s1.name_spec(),
                s2.name_spec(),
            );
            lemma_scalar_name_injective(s1, s2);
        },
        _ => {},
    }
}

/// Distinct (operator, operand type) pairs never collide: the derived
/// safe-function identifier determines both the operator name and the
/// operand type.
pub proof fn lemma_safe_ident_injective(
    op1: Seq<char>,
    t1: DataTypeV,
    op2: Seq<char>,
    t2: DataTypeV,
)
    requires
        arith_name(op1),
        arith_name(op2),
        wf_operand(t1),
        wf_operand(t2),
        safe_ident(op1, t1) == safe_ident(op2, t2),
    ensures
        op1 == op2,
        t1 == t2,
{
    reveal_strlit("SAFE_");
    reveal_strlit("PLUS");
    reveal_strlit("MINUS");
    reveal_strlit("TIMES");
    reveal_strlit("DIVIDE");
    reveal_strlit("MOD");
    let id1 = safe_ident(op1, t1);
    let id2 = safe_ident(op2, t2);
    assert(id1[5] == op1[0] && id1[6] == op1[1]) by {
        assert(("SAFE_"@ + op1)[5] == op1[0]);
        assert(("SAFE_"@ + op1)[6] == op1[1]);
        assert(id1[5] == (("SAFE_"@ + op1) + "_"@)[5]);
        assert(id1[6] == (("SAFE_"@ + op1) + "_"@)[6]);
    }
    assert(id2[5] == op2[0] && id2[6] == op2[1]) by {
        assert(("SAFE_"@ + op2)[5] == op2[0]);
        assert(("SAFE_"@ + op2)[6] == op2[1]);
        assert(id2[5] == (("SAFE_"@ + op2) + "_"@)[5]);
        assert(id2[6] == (("SAFE_"@ + op2) + "_"@)[6]);
    }
    assert(op1 == op2);
    lemma_concat_cancel("SAFE_"@ + op1 + "_"@, type_suffix(t1), type_suffix(t2));
    lemma_type_suffix_injective(t1, t2);
}

} // verus!
