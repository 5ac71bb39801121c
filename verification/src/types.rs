//! The type model of the shader language: scalar, vector, array and named
//! aggregate types, with a mathematical mirror used by every contract.

use std::rc::Rc;
use vstd::prelude::*;
use vstd::string::StringExecFns;

verus! {

/// Scalar value types of the shader language.
#[derive(Clone, Copy, Debug, PartialEq, Eq, Hash, Structural)]
pub enum ScalarType {
    Bool,
    I32,
    U32,
}

impl ScalarType {
    /// Canonical lowercase name, used in program text and in safe-function
    /// identifiers.
    pub open spec fn name_spec(self) -> Seq<char> {
        match self {
            ScalarType::Bool => "bool"@,
            ScalarType::I32 => "i32"@,
            ScalarType::U32 => "u32"@,
        }
    }

    /// Canonical lowercase name of the scalar type.
    pub fn name(self) -> (r: &'static str)
        ensures
            r@ == self.name_spec(),
    {
        match self {
            ScalarType::Bool => "bool",
            ScalarType::I32 => "i32",
            ScalarType::U32 => "u32",
        }
    }
}

/// A named aggregate declaration. Type identity is by declaration, so the
/// name alone decides equality of struct types.
#[derive(Debug)]
pub struct StructDecl {
    pub name: String,
}

/// Mathematical mirror of a struct declaration.
#[verifier::ext_equal]
pub ghost struct StructDeclV {
    pub name: Seq<char>,
}

impl DeepView for StructDecl {
    type V = StructDeclV;

    open spec fn deep_view(&self) -> StructDeclV {
        StructDeclV { name: self.name@ }
    }
}

/// A shader value type. Array element types and struct declarations are
/// shared, immutable sub-structure.
#[derive(Debug)]
pub enum DataType {
    Scalar(ScalarType),
    Vector(u8, ScalarType),
    Array(Rc<DataType>, Option<u32>),
    Struct(Rc<StructDecl>),
}

/// Mathematical mirror of a shader value type. Sharing is collapsed: two
/// types are equal exactly when variant and component values agree, and a
/// struct type reduces to the name of its declaration.
#[verifier::ext_equal]
pub ghost enum DataTypeV {
    Scalar(ScalarType),
    Vector(u8, ScalarType),
    Array(Box<DataTypeV>, Option<u32>),
    Struct(StructDeclV),
}

impl DeepView for DataType {
    type V = DataTypeV;

    open spec fn deep_view(&self) -> DataTypeV
        decreases self,
    {
        match self {
            DataType::Scalar(t) => DataTypeV::Scalar(*t),
            DataType::Vector(n, t) => DataTypeV::Vector(*n, *t),
            DataType::Array(e, n) => DataTypeV::Array(Box::new((**e).deep_view()), *n),
            DataType::Struct(d) => DataTypeV::Struct(d.deep_view()),
        }
    }
}

/// The decimal digit character for a value below ten.
pub open spec fn digit_char(d: nat) -> char
    recommends
        d < 10,
{
    if d == 0 {
        '0'
    } else if d == 1 {
        '1'
    } else if d == 2 {
        '2'
    } else if d == 3 {
        '3'
    } else if d == 4 {
        '4'
    } else if d == 5 {
        '5'
    } else if d == 6 {
        '6'
    } else if d == 7 {
        '7'
    } else if d == 8 {
        '8'
    } else {
        '9'
    }
}

/// The decimal rendering of a natural number, without leading zeros.
pub open spec fn dec_text(n: nat) -> Seq<char>
    decreases n,
{
    if n < 10 {
        seq![digit_char(n)]
    } else {
        dec_text(n / 10).push(digit_char(n % 10))
    }
}

/// Appends one decimal digit below ten.
fn push_digit(out: &mut String, d: u32)
    requires
        d < 10,
    ensures
        final(out)@ == old(out)@ + seq![digit_char(d as nat)],
{
    proof {
        reveal_strlit("0");
        reveal_strlit("1");
        reveal_strlit("2");
        reveal_strlit("3");
        reveal_strlit("4");
        reveal_strlit("5");
        reveal_strlit("6");
        reveal_strlit("7");
        reveal_strlit("8");
        reveal_strlit("9");
    }
    if d == 0 {
        out.append("0");
    } else if d == 1 {
        out.append("1");
    } else if d == 2 {
        out.append("2");
    } else if d == 3 {
        out.append("3");
    } else if d == 4 {
        out.append("4");
    } else if d == 5 {
        out.append("5");
    } else if d == 6 {
        out.append("6");
    } else if d == 7 {
        out.append("7");
    } else if d == 8 {
        out.append("8");
    } else {
        out.append("9");
    }
    proof {
        assert(out@ =~= old(out)@ + seq![digit_char(d as nat)]);
    }
}

/// Appends the decimal rendering of `n`.
pub fn push_decimal(out: &mut String, n: u32)
    ensures
        final(out)@ == old(out)@ + dec_text(n as nat),
    decreases n,
{
    if n >= 10 {
        push_decimal(out, n / 10);
    }
    push_digit(out, n % 10);
    proof {
        assert(out@ =~= old(out)@ + dec_text(n as nat));
    }
}

/// The decimal rendering of `n`, without leading zeros.
pub fn decimal_text(n: u32) -> (r: String)
    ensures
        r@ == dec_text(n as nat),
{
    let mut out = String::new();
    push_decimal(&mut out, n);
    proof {
        assert(out@ =~= dec_text(n as nat));
    }
    out
}

impl DataTypeV {
    /// Reinterprets a scalar or vector type over a new scalar, keeping the
    /// vector width. Meaningless for arrays and structs, which the
    /// reconditioning pass never retypes.
    pub open spec fn map_spec(self, scalar: ScalarType) -> DataTypeV
        recommends
            self is Scalar || self is Vector,
    {
        match self {
            DataTypeV::Scalar(_) => DataTypeV::Scalar(scalar),
            DataTypeV::Vector(n, _) => DataTypeV::Vector(n, scalar),
            _ => arbitrary(),
        }
    }
}

/// The canonical textual rendering of a type: the scalar name,
/// `vec<n><t>`, `array<e>` or `array<e, n>`, or the struct's name.
pub open spec fn type_text(t: DataTypeV) -> Seq<char>
    decreases t,
{
    match t {
        DataTypeV::Scalar(s) => s.name_spec(),
        DataTypeV::Vector(n, s) => "vec"@ + dec_text(n as nat) + "<"@ + s.name_spec() + ">"@,
        DataTypeV::Array(e, len) => "array<"@ + type_text(*e) + (match len {
            Some(k) => ", "@ + dec_text(k as nat),
            None => Seq::empty(),
        }) + ">"@,
        DataTypeV::Struct(d) => d.name,
    }
}

impl DataType {
    /// Renders the type in its canonical textual form.
    pub fn render(&self) -> (r: String)
        ensures
            r@ == type_text(self.deep_view()),
        decreases self,
    {
        match self {
            DataType::Scalar(t) => t.name().to_owned(),
            DataType::Vector(n, t) => {
                let mut s = "vec".to_owned();
                push_decimal(&mut s, *n as u32);
                s.append("<");
                s.append(t.name());
                s.append(">");
                proof {
                    assert(s@ =~= type_text(self.deep_view()));
                }
                s
            },
            DataType::Array(e, len) => {
                let mut s = "array<".to_owned();
                let elem = (**e).render();
                s.append(elem.as_str());
                match len {
                    Some(k) => {
                        s.append(", ");
                        push_decimal(&mut s, *k);
                    },
                    None => {},
                }
                s.append(">");
                proof {
                    assert(s@ =~= type_text(self.deep_view()));
                }
                s
            },
            DataType::Struct(d) => d.name.clone(),
        }
    }
}

impl From<ScalarType> for DataType {
    /// A scalar type, as a data type.
    fn from(scalar: ScalarType) -> (r: DataType) {
        DataType::Scalar(scalar)
    }
}

impl vstd::std_specs::convert::FromSpecImpl<ScalarType> for DataType {
    open spec fn obeys_from_spec() -> bool {
        true
    }

    open spec fn from_spec(scalar: ScalarType) -> DataType {
        DataType::Scalar(scalar)
    }
}

impl DataType {
    /// Reinterprets a scalar or vector type over a new scalar, preserving
    /// the vector width. Arrays and structs are not supported operands and
    /// are excluded, so that the reinterpretation never coerces silently.
    pub fn map(&self, scalar: ScalarType) -> (r: DataType)
        requires
            self.deep_view() is Scalar || self.deep_view() is Vector,
        ensures
            r.deep_view() == self.deep_view().map_spec(scalar),
    {
        match self {
            DataType::Scalar(_) => DataType::Scalar(scalar),
            DataType::Vector(n, _) => DataType::Vector(*n, scalar),
            DataType::Array(_, _) => unreached(),
            DataType::Struct(_) => unreached(),
        }
    }
}

} // verus!
