use reconditioner::assemble::assemble_program;
use reconditioner::ast::{
    AssignmentLhs, AssignmentOp, AttrList, BinOp, Expr, ExprNode, FnDecl, FnInput, FnOutput,
    ForLoopHeader, ForLoopInit, ForLoopUpdate, Lit, Postfix, Program, Statement,
};
use reconditioner::recondition::Reconditioner;
use reconditioner::types::{DataType, ScalarType};
use reconditioner::ub::generate_ub;
use reconditioner::wrappers::vector_safe_wrappers;

fn i32_ty() -> DataType {
    DataType::Scalar(ScalarType::I32)
}

fn u32_ty() -> DataType {
    DataType::Scalar(ScalarType::U32)
}

fn var(name: &str, ty: DataType) -> ExprNode {
    ExprNode { data_type: ty, expr: Expr::Var(name.to_string()) }
}

fn uint(v: u32) -> ExprNode {
    ExprNode { data_type: u32_ty(), expr: Expr::Lit(Lit::UInt(v)) }
}

fn binop(op: BinOp, ty: DataType, l: ExprNode, r: ExprNode) -> ExprNode {
    ExprNode { data_type: ty, expr: Expr::BinOp(op, Box::new(l), Box::new(r)) }
}

fn decl(name: &str, inputs: Vec<FnInput>, output: Option<FnOutput>, body: Vec<Statement>) -> FnDecl {
    FnDecl { attrs: AttrList(Vec::new()), name: name.to_string(), inputs, output, body }
}

fn input(name: &str, ty: DataType) -> FnInput {
    FnInput { attrs: AttrList(Vec::new()), name: name.to_string(), data_type: ty }
}

fn entry_program(body: Vec<Statement>, inputs: Vec<FnInput>, output: Option<FnOutput>) -> Program {
    Program { entrypoint: decl("main", inputs, output, body), functions: Vec::new() }
}

fn dbg(value: &impl std::fmt::Debug) -> String {
    format!("{:?}", value)
}

#[test]
fn scalar_addition_becomes_safe_call() {
    // `return a + b;` over i32 parameters becomes `return SAFE_PLUS_i32(a, b);`
    // and the identifier is recorded.
    let body = vec![Statement::Return(Some(binop(
        BinOp::Plus,
        i32_ty(),
        var("a", i32_ty()),
        var("b", i32_ty()),
    )))];
    let f = decl(
        "main",
        vec![input("a", i32_ty()), input("b", i32_ty())],
        Some(FnOutput { attrs: AttrList(Vec::new()), data_type: i32_ty() }),
        body,
    );
    let mut rec = Reconditioner::new();
    let out = rec.recondition_fn(f);
    assert!(rec.is_requested(&"SAFE_PLUS_i32".to_string()));
    assert_eq!(out.body.len(), 1);
    match &out.body[0] {
        Statement::Return(Some(e)) => match &e.expr {
            Expr::FnCall(name, args) => {
                assert_eq!(name, "SAFE_PLUS_i32");
                assert_eq!(args.len(), 2);
                assert!(matches!(&args[0].expr, Expr::Var(n) if n == "a"));
                assert!(matches!(&args[1].expr, Expr::Var(n) if n == "b"));
            },
            other => panic!("expected a call, got {:?}", other),
        },
        other => panic!("expected a return, got {:?}", other),
    }
}

#[test]
fn single_loop_is_bounded_with_slot_zero() {
    // `loop { x = x + 1; }` gets site index 0, a guard and increment against
    // counter slot 0, and counter storage of size 1 at program scope.
    let assign = Statement::Assignment(
        AssignmentLhs::Simple("x".to_string(), Vec::new()),
        AssignmentOp::Simple,
        binop(BinOp::Plus, u32_ty(), var("x", u32_ty()), uint(1)),
    );
    let p = entry_program(vec![Statement::Loop(vec![assign])], Vec::new(), None);
    let out = assemble_program(p);
    assert_eq!(out.counter_slots, Some(1));
    assert_eq!(out.entrypoint.body.len(), 1);
    let body = match &out.entrypoint.body[0] {
        Statement::Loop(b) => b,
        other => panic!("expected a loop, got {:?}", other),
    };
    assert_eq!(body.len(), 3);
    // The guard reads LOOP_COUNTERS[0] and breaks.
    match &body[0] {
        Statement::If(cond, ib) => {
            assert!(matches!(ib.as_slice(), [Statement::Break]));
            match &cond.expr {
                Expr::BinOp(BinOp::GreaterEqual, l, _) => match &l.expr {
                    Expr::Postfix(base, Postfix::ArrayIndex(ix)) => {
                        assert!(matches!(&base.expr, Expr::Var(n) if n == "LOOP_COUNTERS"));
                        assert!(matches!(&ix.expr, Expr::Lit(Lit::UInt(0))));
                    },
                    other => panic!("expected a counter read, got {:?}", other),
                },
                other => panic!("expected a comparison, got {:?}", other),
            }
        },
        other => panic!("expected the guard, got {:?}", other),
    }
    // The increment writes LOOP_COUNTERS[0] back.
    match &body[1] {
        Statement::Assignment(AssignmentLhs::Simple(name, pfs), AssignmentOp::Simple, rhs) => {
            assert_eq!(name, "LOOP_COUNTERS");
            assert_eq!(pfs.len(), 1);
            assert!(matches!(&rhs.expr, Expr::BinOp(BinOp::Plus, _, _)));
        },
        other => panic!("expected the increment, got {:?}", other),
    }
    // The original assignment follows, itself arithmetic-reconditioned.
    match &body[2] {
        Statement::Assignment(_, _, rhs) => match &rhs.expr {
            Expr::FnCall(name, _) => assert_eq!(name, "SAFE_PLUS_u32"),
            other => panic!("expected a safe call, got {:?}", other),
        },
        other => panic!("expected the original assignment, got {:?}", other),
    }
}

#[test]
fn vector_addition_emits_forwarding_wrapper() {
    // `v1 + v2` over vec2<u32> becomes SAFE_PLUS_vec2_u32(v1, v2), and the
    // assembled program holds the synthesized wrapper that forwards to
    // SAFE_PLUS_u32 over the x and y components.
    let sum = binop(BinOp::Plus, vec2u(), var("v1", vec2u()), var("v2", vec2u()));
    let p = entry_program(vec![Statement::Return(Some(sum))], Vec::new(), None);
    let out = assemble_program(p);
    assert_eq!(out.counter_slots, None);
    match &out.entrypoint.body[0] {
        Statement::Return(Some(e)) => {
            assert!(matches!(&e.expr, Expr::FnCall(n, _) if n == "SAFE_PLUS_vec2_u32"));
        },
        other => panic!("expected a return, got {:?}", other),
    }
    let wrappers: Vec<&FnDecl> =
        out.functions.iter().filter(|f| f.name == "SAFE_PLUS_vec2_u32").collect();
    assert_eq!(wrappers.len(), 1);
    let w = wrappers[0];
    assert_eq!(w.inputs.len(), 2);
    match &w.body[0] {
        Statement::Return(Some(e)) => match &e.expr {
            Expr::TypeCons(ty, comps) => {
                assert!(matches!(ty, DataType::Vector(2, ScalarType::U32)));
                assert_eq!(comps.len(), 2);
                let members = ["x", "y"];
                for (i, comp) in comps.iter().enumerate() {
                    match &comp.expr {
                        Expr::FnCall(n, args) => {
                            assert_eq!(n, "SAFE_PLUS_u32");
                            assert_eq!(args.len(), 2);
                            match &args[0].expr {
                                Expr::Postfix(_, Postfix::Member(m)) => {
                                    assert_eq!(m, members[i]);
                                },
                                other => panic!("expected member access, got {:?}", other),
                            }
                        },
                        other => panic!("expected a scalar call, got {:?}", other),
                    }
                }
            },
            other => panic!("expected a constructor, got {:?}", other),
        },
        other => panic!("expected a return, got {:?}", other),
    }
}

#[test]
fn reconditioning_twice_is_identical() {
    let build = || {
        let sum = binop(
            BinOp::Plus,
            DataType::Vector(3, ScalarType::I32),
            var("v1", DataType::Vector(3, ScalarType::I32)),
            var("v2", DataType::Vector(3, ScalarType::I32)),
        );
        let lp = Statement::Loop(vec![Statement::Return(Some(binop(
            BinOp::Minus,
            i32_ty(),
            var("a", i32_ty()),
            var("b", i32_ty()),
        )))]);
        entry_program(vec![Statement::Return(Some(sum)), lp], Vec::new(), None)
    };
    let first = assemble_program(build());
    let second = assemble_program(build());
    assert_eq!(dbg(&first), dbg(&second));
}

#[test]
fn same_pair_requested_twice_emits_one_wrapper() {
    let sum = |a: &str, b: &str| {
        Statement::Return(Some(binop(BinOp::Plus, vec2u(), var(a, vec2u()), var(b, vec2u()))))
    };
    let p = entry_program(vec![sum("v1", "v2"), sum("v3", "v4")], Vec::new(), None);
    let out = assemble_program(p);
    let count =
        out.functions.iter().filter(|f| f.name == "SAFE_PLUS_vec2_u32").count();
    assert_eq!(count, 1);
    assert_eq!(out.functions.len(), 1);
}

#[test]
fn comparison_is_preserved_with_reconditioned_operands() {
    // `(a + b) < c` keeps the comparison and rewrites only the operand.
    let e = binop(
        BinOp::Less,
        DataType::Scalar(ScalarType::Bool),
        binop(BinOp::Plus, i32_ty(), var("a", i32_ty()), var("b", i32_ty())),
        var("c", i32_ty()),
    );
    let mut rec = Reconditioner::new();
    let out = rec.recondition_expr(e);
    match &out.expr {
        Expr::BinOp(BinOp::Less, l, r) => {
            assert!(matches!(&l.expr, Expr::FnCall(n, _) if n == "SAFE_PLUS_i32"));
            assert!(matches!(&r.expr, Expr::Var(n) if n == "c"));
        },
        other => panic!("expected a comparison, got {:?}", other),
    }
}

#[test]
fn bitwise_and_logical_operators_are_preserved() {
    let mut rec = Reconditioner::new();
    for op in [BinOp::BitAnd, BinOp::BitOr, BinOp::BitXOr, BinOp::LShift, BinOp::RShift] {
        let e = binop(op, u32_ty(), var("a", u32_ty()), var("b", u32_ty()));
        let before = dbg(&e);
        let out = rec.recondition_expr(e);
        assert_eq!(dbg(&out), before);
    }
}

#[test]
fn array_index_expression_is_reconditioned() {
    // `arr[i + 1]` has its index rewritten; the access shape is kept.
    let access = ExprNode {
        data_type: u32_ty(),
        expr: Expr::Postfix(
            Box::new(var("arr", DataType::Array(std::rc::Rc::new(u32_ty()), None))),
            Postfix::ArrayIndex(Box::new(binop(
                BinOp::Plus,
                u32_ty(),
                var("i", u32_ty()),
                uint(1),
            ))),
        ),
    };
    let mut rec = Reconditioner::new();
    let out = rec.recondition_expr(access);
    match &out.expr {
        Expr::Postfix(base, Postfix::ArrayIndex(ix)) => {
            assert!(matches!(&base.expr, Expr::Var(n) if n == "arr"));
            assert!(matches!(&ix.expr, Expr::FnCall(n, _) if n == "SAFE_PLUS_u32"));
        },
        other => panic!("expected an access, got {:?}", other),
    }
}

#[test]
fn nested_loops_get_distinct_consecutive_sites() {
    let inner = Statement::Loop(vec![Statement::Break]);
    let outer = Statement::Loop(vec![inner]);
    let second = Statement::Loop(vec![Statement::Break]);
    let p = entry_program(vec![outer, second], Vec::new(), None);
    let out = assemble_program(p);
    assert_eq!(out.counter_slots, Some(3));
    let slot_of = |s: &Statement| -> u32 {
        match s {
            Statement::If(cond, _) => match &cond.expr {
                Expr::BinOp(BinOp::GreaterEqual, l, _) => match &l.expr {
                    Expr::Postfix(_, Postfix::ArrayIndex(ix)) => match &ix.expr {
                        Expr::Lit(Lit::UInt(id)) => *id,
                        other => panic!("expected an index, got {:?}", other),
                    },
                    other => panic!("expected a counter read, got {:?}", other),
                },
                other => panic!("expected a comparison, got {:?}", other),
            },
            other => panic!("expected the guard, got {:?}", other),
        }
    };
    match (&out.entrypoint.body[0], &out.entrypoint.body[1]) {
        (Statement::Loop(b0), Statement::Loop(b1)) => {
            assert_eq!(slot_of(&b0[0]), 0);
            match &b0[2] {
                Statement::Loop(bi) => assert_eq!(slot_of(&bi[0]), 1),
                other => panic!("expected the inner loop, got {:?}", other),
            }
            assert_eq!(slot_of(&b1[0]), 2);
        },
        other => panic!("expected two loops, got {:?}", other),
    }
}

#[test]
fn program_without_loops_has_no_counter_storage() {
    let p = entry_program(
        vec![Statement::Return(Some(var("x", i32_ty())))],
        Vec::new(),
        None,
    );
    let out = assemble_program(p);
    assert_eq!(out.counter_slots, None);
}

#[test]
fn program_without_vector_arithmetic_emits_no_wrapper() {
    let body = vec![Statement::Return(Some(binop(
        BinOp::Plus,
        i32_ty(),
        var("a", i32_ty()),
        var("b", i32_ty()),
    )))];
    let p = entry_program(body, Vec::new(), None);
    let out = assemble_program(p);
    assert_eq!(out.functions.len(), 0);
}

#[test]
fn candidate_library_covers_the_cross_product() {
    let lib = vector_safe_wrappers();
    assert_eq!(lib.len(), 30);
    assert_eq!(lib[0].name, "SAFE_PLUS_vec2_i32");
    assert_eq!(lib[29].name, "SAFE_MOD_vec4_u32");
    for op in ["PLUS", "MINUS", "TIMES", "DIVIDE", "MOD"] {
        for ty in ["i32", "u32"] {
            for n in 2..=4 {
                let name = format!("SAFE_{}_vec{}_{}", op, n, ty);
                assert_eq!(lib.iter().filter(|f| f.name == name).count(), 1);
            }
        }
    }
}

#[test]
fn for_loop_passes_through_unchanged() {
    let fl = Statement::ForLoop(
        ForLoopHeader {
            init: Some(ForLoopInit::VarDecl("i".to_string(), Some(u32_ty()), Some(uint(0)))),
            condition: Some(binop(
                BinOp::Less,
                DataType::Scalar(ScalarType::Bool),
                var("i", u32_ty()),
                uint(10),
            )),
            update: Some(ForLoopUpdate::Assignment(
                AssignmentLhs::Simple("i".to_string(), Vec::new()),
                AssignmentOp::Plus,
                uint(1),
            )),
        },
        vec![Statement::Break],
    );
    let before = dbg(&fl);
    let mut rec = Reconditioner::new();
    let out = rec.recondition_stmt(fl);
    assert_eq!(dbg(&out), before);
    assert_eq!(rec.loop_count(), 0);
}

#[test]
fn generated_ub_statement_shape() {
    let s = generate_ub();
    match &s {
        Statement::Compound(block) => {
            assert_eq!(block.len(), 1);
            match &block[0] {
                Statement::ForLoop(header, body) => {
                    match header.init.as_ref().unwrap() {
                        ForLoopInit::VarDecl(name, ty, init) => {
                            assert_eq!(name, "_wgslsmith_ub_index");
                            assert!(matches!(ty, Some(DataType::Scalar(ScalarType::U32))));
                            assert!(matches!(
                                &init.as_ref().unwrap().expr,
                                Expr::Var(v) if v == "_wgslsmith_ub.min_index"
                            ));
                        },
                    }
                    match &header.condition.as_ref().unwrap().expr {
                        Expr::BinOp(BinOp::LessEqual, l, r) => {
                            assert!(matches!(&l.expr, Expr::Var(v) if v == "_wgslsmith_ub_index"));
                            assert!(
                                matches!(&r.expr, Expr::Var(v) if v == "_wgslsmith_ub.max_index")
                            );
                        },
                        other => panic!("expected a comparison, got {:?}", other),
                    }
                    assert_eq!(body.len(), 1);
                    match &body[0] {
                        Statement::Assignment(
                            AssignmentLhs::Simple(name, _),
                            AssignmentOp::Simple,
                            rhs,
                        ) => {
                            assert_eq!(name, "(_wgslsmith_ub.arr)[_wgslsmith_ub_index]");
                            assert!(matches!(
                                &rhs.expr,
                                Expr::Var(v) if v == "_wgslsmith_ub.write_value"
                            ));
                        },
                        other => panic!("expected the store, got {:?}", other),
                    }
                },
                other => panic!("expected a for-loop, got {:?}", other),
            }
        },
        other => panic!("expected a compound block, got {:?}", other),
    }
}

fn vec2u() -> DataType {
    DataType::Vector(2, ScalarType::U32)
}
