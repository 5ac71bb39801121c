use std::rc::Rc;

use reconditioner::naming::safe_fn;
use reconditioner::ub::flow_index;
use reconditioner::types::{decimal_text, DataType, ScalarType, StructDecl};

#[test]
fn scalar_names() {
    assert_eq!(ScalarType::Bool.name(), "bool");
    assert_eq!(ScalarType::I32.name(), "i32");
    assert_eq!(ScalarType::U32.name(), "u32");
}

#[test]
fn decimal_rendering() {
    assert_eq!(decimal_text(0), "0");
    assert_eq!(decimal_text(7), "7");
    assert_eq!(decimal_text(10), "10");
    assert_eq!(decimal_text(305), "305");
    assert_eq!(decimal_text(u32::MAX), "4294967295");
}

#[test]
fn safe_fn_scalar_names() {
    assert_eq!(safe_fn("PLUS", &DataType::Scalar(ScalarType::I32)), "SAFE_PLUS_i32");
    assert_eq!(safe_fn("MOD", &DataType::Scalar(ScalarType::U32)), "SAFE_MOD_u32");
    assert_eq!(safe_fn("DIVIDE", &DataType::Scalar(ScalarType::I32)), "SAFE_DIVIDE_i32");
}

#[test]
fn safe_fn_vector_names() {
    assert_eq!(safe_fn("PLUS", &DataType::Vector(3, ScalarType::U32)), "SAFE_PLUS_vec3_u32");
    assert_eq!(safe_fn("TIMES", &DataType::Vector(2, ScalarType::I32)), "SAFE_TIMES_vec2_i32");
    assert_eq!(safe_fn("MINUS", &DataType::Vector(4, ScalarType::U32)), "SAFE_MINUS_vec4_u32");
}

#[test]
fn safe_fn_same_pair_same_identifier() {
    let a = safe_fn("PLUS", &DataType::Vector(2, ScalarType::U32));
    let b = safe_fn("PLUS", &DataType::Vector(2, ScalarType::U32));
    assert_eq!(a, b);
}

#[test]
fn safe_fn_distinct_pairs_distinct_identifiers() {
    let ops = ["PLUS", "MINUS", "TIMES", "DIVIDE", "MOD"];
    let types = [
        DataType::Scalar(ScalarType::I32),
        DataType::Scalar(ScalarType::U32),
        DataType::Vector(2, ScalarType::I32),
        DataType::Vector(2, ScalarType::U32),
        DataType::Vector(3, ScalarType::I32),
        DataType::Vector(3, ScalarType::U32),
        DataType::Vector(4, ScalarType::I32),
        DataType::Vector(4, ScalarType::U32),
    ];
    let mut names: Vec<String> = Vec::new();
    for op in ops {
        for ty in &types {
            names.push(safe_fn(op, ty));
        }
    }
    for i in 0..names.len() {
        for j in 0..names.len() {
            if i != j {
                assert_ne!(names[i], names[j]);
            }
        }
    }
}

#[test]
fn map_retypes_scalar_and_vector() {
    let s = DataType::Scalar(ScalarType::Bool).map(ScalarType::U32);
    assert!(matches!(s, DataType::Scalar(ScalarType::U32)));
    let v = DataType::Vector(3, ScalarType::Bool).map(ScalarType::I32);
    assert!(matches!(v, DataType::Vector(3, ScalarType::I32)));
}

#[test]
fn render_types() {
    assert_eq!(DataType::Scalar(ScalarType::Bool).render(), "bool");
    assert_eq!(DataType::Vector(2, ScalarType::U32).render(), "vec2<u32>");
    assert_eq!(DataType::Vector(4, ScalarType::I32).render(), "vec4<i32>");
    let arr = DataType::Array(Rc::new(DataType::Scalar(ScalarType::I32)), Some(16));
    assert_eq!(arr.render(), "array<i32, 16>");
    let arr_open = DataType::Array(Rc::new(DataType::Vector(2, ScalarType::U32)), None);
    assert_eq!(arr_open.render(), "array<vec2<u32>>");
    let st = DataType::Struct(Rc::new(StructDecl { name: String::from("Buffer") }));
    assert_eq!(st.render(), "Buffer");
}

#[test]
fn scalar_into_data_type() {
    let d: DataType = ScalarType::I32.into();
    assert!(matches!(d, DataType::Scalar(ScalarType::I32)));
}

#[test]
fn flow_index_reads_decimal_digits() {
    assert_eq!(flow_index("123"), Some(123));
    assert_eq!(flow_index("[42],"), Some(42));
    assert_eq!(flow_index("1a2b3"), Some(123));
    assert_eq!(flow_index("0"), Some(0));
    assert_eq!(flow_index("4294967295"), Some(u32::MAX));
}

#[test]
fn flow_index_rejects_digitless_and_oversized_tokens() {
    assert_eq!(flow_index(""), None);
    assert_eq!(flow_index("abc"), None);
    assert_eq!(flow_index("-,"), None);
    assert_eq!(flow_index("4294967296"), None);
    assert_eq!(flow_index("99999999999"), None);
}
