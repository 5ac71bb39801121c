//! Statement and expression nodes of the shader language, as the external
//! parser supplies them, together with their mathematical mirrors. Every
//! contract of the reconditioning pass speaks about the mirrors, so that two
//! programs are equal exactly when they are structurally identical.

use crate::types::{DataType, DataTypeV};
use vstd::prelude::*;

verus! {

/// Unary operators. The rewrite keeps them and only visits the operand.
#[derive(Clone, Copy, Debug, PartialEq, Eq, Structural)]
pub enum UnOp {
    Neg,
    Not,
    BitNot,
}

/// Binary operators. Only the five arithmetic ones are rewritten.
#[derive(Clone, Copy, Debug, PartialEq, Eq, Structural)]
pub enum BinOp {
    Plus,
    Minus,
    Times,
    Divide,
    Mod,
    LogAnd,
    LogOr,
    BitAnd,
    BitOr,
    BitXOr,
    LShift,
    RShift,
    Equal,
    NotEqual,
    Less,
    LessEqual,
    Greater,
    GreaterEqual,
}

/// Literals.
#[derive(Clone, Copy, Debug, PartialEq, Eq, Structural)]
pub enum Lit {
    Bool(bool),
    Int(i32),
    UInt(u32),
}

/// Postfix access on a base expression: member selection or array indexing.
#[derive(Debug)]
pub enum Postfix {
    ArrayIndex(Box<ExprNode>),
    Member(String),
}

/// Mirror of `Postfix`.
#[verifier::ext_equal]
pub ghost enum PostfixV {
    ArrayIndex(Box<ExprNodeV>),
    Member(Seq<char>),
}

/// An expression variant. Each carries its sub-expressions; the resolved
/// type lives on the surrounding `ExprNode`.
#[derive(Debug)]
pub enum Expr {
    Lit(Lit),
    TypeCons(DataType, Vec<ExprNode>),
    Var(String),
    Postfix(Box<ExprNode>, Postfix),
    UnOp(UnOp, Box<ExprNode>),
    BinOp(BinOp, Box<ExprNode>, Box<ExprNode>),
    FnCall(String, Vec<ExprNode>),
}

/// Mirror of `Expr`.
#[verifier::ext_equal]
pub ghost enum ExprV {
    Lit(Lit),
    TypeCons(DataTypeV, Seq<ExprNodeV>),
    Var(Seq<char>),
    Postfix(Box<ExprNodeV>, PostfixV),
    UnOp(UnOp, Box<ExprNodeV>),
    BinOp(BinOp, Box<ExprNodeV>, Box<ExprNodeV>),
    FnCall(Seq<char>, Seq<ExprNodeV>),
}

/// An expression paired with its resolved type. The parser supplies the
/// type; the rewrite carries it through untouched.
#[derive(Debug)]
pub struct ExprNode {
    pub data_type: DataType,
    pub expr: Expr,
}

/// Mirror of `ExprNode`.
#[verifier::ext_equal]
pub ghost struct ExprNodeV {
    pub data_type: DataTypeV,
    pub expr: ExprV,
}

impl DeepView for ExprNode {
    type V = ExprNodeV;

    open spec fn deep_view(&self) -> ExprNodeV
        decreases self,
    {
        ExprNodeV { data_type: self.data_type.deep_view(), expr: self.expr.deep_view() }
    }
}

/// The mirror of a sequence of expression nodes, element for element.
pub open spec fn deep_view_exprs(v: Seq<ExprNode>) -> Seq<ExprNodeV>
    decreases v,
{
    if v.len() == 0 {
        Seq::empty()
    } else {
        seq![v[0].deep_view()] + deep_view_exprs(v.subrange(1, v.len() as int))
    }
}

/// `deep_view_exprs` maps the sequence element for element.
pub broadcast proof fn lemma_deep_view_exprs(v: Seq<ExprNode>)
    ensures
        (#[trigger] deep_view_exprs(v)).len() == v.len(),
        forall|i: int| 0 <= i < v.len() ==> deep_view_exprs(v)[i] == v[i].deep_view(),
    decreases v,
{
    if v.len() > 0 {
        let tail = v.subrange(1, v.len() as int);
        assert(deep_view_exprs(v) == seq![v[0].deep_view()] + deep_view_exprs(tail));
        lemma_deep_view_exprs(tail);
        assert forall|i: int| 0 <= i < v.len() implies deep_view_exprs(v)[i] == v[i].deep_view() by {
            if i > 0 {
                assert(deep_view_exprs(v)[i] == deep_view_exprs(tail)[i - 1]);
                assert(tail[i - 1] == v[i]);
            }
        }
    }
}


/// Prepending an element commutes with taking the mirror of a sequence of
/// expression nodes.
pub proof fn lemma_deep_view_exprs_cons(h: ExprNode, t: Seq<ExprNode>)
    ensures
        deep_view_exprs(seq![h] + t) == seq![h.deep_view()] + deep_view_exprs(t),
{
    let all = seq![h] + t;
    assert(all.len() == 1 + t.len());
    assert(deep_view_exprs(all) == seq![all[0].deep_view()] + deep_view_exprs(
        all.subrange(1, all.len() as int),
    ));
    assert(all[0] == h);
    assert(all.subrange(1, all.len() as int) =~= t);
}

impl DeepView for Expr {
    type V = ExprV;

    open spec fn deep_view(&self) -> ExprV
        decreases self,
    {
        match self {
            Expr::Lit(l) => ExprV::Lit(*l),
            Expr::TypeCons(t, args) => ExprV::TypeCons(t.deep_view(), deep_view_exprs(args@)),
            Expr::Var(name) => ExprV::Var(name@),
            Expr::Postfix(b, p) => ExprV::Postfix(Box::new((**b).deep_view()), p.deep_view()),
            Expr::UnOp(op, e) => ExprV::UnOp(*op, Box::new((**e).deep_view())),
            Expr::BinOp(op, l, r) => ExprV::BinOp(
                *op,
                Box::new((**l).deep_view()),
                Box::new((**r).deep_view()),
            ),
            Expr::FnCall(name, args) => ExprV::FnCall(name@, deep_view_exprs(args@)),
        }
    }
}

impl DeepView for Postfix {
    type V = PostfixV;

    open spec fn deep_view(&self) -> PostfixV
        decreases self,
    {
        match self {
            Postfix::ArrayIndex(e) => PostfixV::ArrayIndex(Box::new((**e).deep_view())),
            Postfix::Member(name) => PostfixV::Member(name@),
        }
    }
}

/// The mirror of a sequence of postfix accesses, element for element.
pub open spec fn deep_view_postfixes(v: Seq<Postfix>) -> Seq<PostfixV>
    decreases v,
{
    if v.len() == 0 {
        Seq::empty()
    } else {
        seq![v[0].deep_view()] + deep_view_postfixes(v.subrange(1, v.len() as int))
    }
}

/// `deep_view_postfixes` maps the sequence element for element.
pub broadcast proof fn lemma_deep_view_postfixes(v: Seq<Postfix>)
    ensures
        (#[trigger] deep_view_postfixes(v)).len() == v.len(),
        forall|i: int| 0 <= i < v.len() ==> deep_view_postfixes(v)[i] == v[i].deep_view(),
    decreases v,
{
    if v.len() > 0 {
        let tail = v.subrange(1, v.len() as int);
        lemma_deep_view_postfixes(tail);
        assert forall|i: int| 0 <= i < v.len() implies deep_view_postfixes(v)[i] == v[i].deep_view() by {
            if i > 0 {
                assert(deep_view_postfixes(v)[i] == deep_view_postfixes(tail)[i - 1]);
                assert(tail[i - 1] == v[i]);
            }
        }
    }
}

/// Assignment operators: simple `=` or a compound arithmetic form.
#[derive(Clone, Copy, Debug, PartialEq, Eq, Structural)]
pub enum AssignmentOp {
    Simple,
    Plus,
    Minus,
    Times,
    Divide,
    Mod,
}

/// A left-hand-side place: a name followed by postfix accesses.
#[derive(Debug)]
pub enum AssignmentLhs {
    Simple(String, Vec<Postfix>),
}

/// Mirror of `AssignmentLhs`.
#[verifier::ext_equal]
pub ghost enum AssignmentLhsV {
    Simple(Seq<char>, Seq<PostfixV>),
}

impl DeepView for AssignmentLhs {
    type V = AssignmentLhsV;

    open spec fn deep_view(&self) -> AssignmentLhsV {
        match self {
            AssignmentLhs::Simple(name, pfs) => AssignmentLhsV::Simple(
                name@,
                deep_view_postfixes(pfs@),
            ),
        }
    }
}

/// The initializer of a for-loop header: a var declaration.
#[derive(Debug)]
pub enum ForLoopInit {
    VarDecl(String, Option<DataType>, Option<ExprNode>),
}

/// Mirror of `ForLoopInit`.
#[verifier::ext_equal]
pub ghost enum ForLoopInitV {
    VarDecl(Seq<char>, Option<DataTypeV>, Option<ExprNodeV>),
}

impl DeepView for ForLoopInit {
    type V = ForLoopInitV;

    open spec fn deep_view(&self) -> ForLoopInitV {
        match self {
            ForLoopInit::VarDecl(name, t, e) => ForLoopInitV::VarDecl(
                name@,
                t.deep_view(),
                e.deep_view(),
            ),
        }
    }
}

/// The update of a for-loop header: an assignment.
#[derive(Debug)]
pub enum ForLoopUpdate {
    Assignment(AssignmentLhs, AssignmentOp, ExprNode),
}

/// Mirror of `ForLoopUpdate`.
#[verifier::ext_equal]
pub ghost enum ForLoopUpdateV {
    Assignment(AssignmentLhsV, AssignmentOp, ExprNodeV),
}

impl DeepView for ForLoopUpdate {
    type V = ForLoopUpdateV;

    open spec fn deep_view(&self) -> ForLoopUpdateV {
        match self {
            ForLoopUpdate::Assignment(lhs, op, e) => ForLoopUpdateV::Assignment(
                lhs.deep_view(),
                *op,
                e.deep_view(),
            ),
        }
    }
}

/// A for-loop header, with optional initializer, condition and update.
#[derive(Debug)]
pub struct ForLoopHeader {
    pub init: Option<ForLoopInit>,
    pub condition: Option<ExprNode>,
    pub update: Option<ForLoopUpdate>,
}

/// Mirror of `ForLoopHeader`.
#[verifier::ext_equal]
pub ghost struct ForLoopHeaderV {
    pub init: Option<ForLoopInitV>,
    pub condition: Option<ExprNodeV>,
    pub update: Option<ForLoopUpdateV>,
}

impl DeepView for ForLoopHeader {
    type V = ForLoopHeaderV;

    open spec fn deep_view(&self) -> ForLoopHeaderV {
        ForLoopHeaderV {
            init: self.init.deep_view(),
            condition: self.condition.deep_view(),
            update: self.update.deep_view(),
        }
    }
}

/// A statement. Unconditional `Loop`s are the construct whose termination
/// the reconditioning pass bounds; `ForLoop` lies outside the supported
/// grammar and is passed through unchanged.
#[derive(Debug)]
pub enum Statement {
    LetDecl(String, ExprNode),
    VarDecl(String, Option<DataType>, Option<ExprNode>),
    Assignment(AssignmentLhs, AssignmentOp, ExprNode),
    Compound(Vec<Statement>),
    If(ExprNode, Vec<Statement>),
    Return(Option<ExprNode>),
    Loop(Vec<Statement>),
    Break,
    ForLoop(ForLoopHeader, Vec<Statement>),
}

/// Mirror of `Statement`.
#[verifier::ext_equal]
pub ghost enum StatementV {
    LetDecl(Seq<char>, ExprNodeV),
    VarDecl(Seq<char>, Option<DataTypeV>, Option<ExprNodeV>),
    Assignment(AssignmentLhsV, AssignmentOp, ExprNodeV),
    Compound(Seq<StatementV>),
    If(ExprNodeV, Seq<StatementV>),
    Return(Option<ExprNodeV>),
    Loop(Seq<StatementV>),
    Break,
    ForLoop(ForLoopHeaderV, Seq<StatementV>),
}

impl DeepView for Statement {
    type V = StatementV;

    open spec fn deep_view(&self) -> StatementV
        decreases self,
    {
        match self {
            Statement::LetDecl(name, e) => StatementV::LetDecl(name@, e.deep_view()),
            Statement::VarDecl(name, t, e) => StatementV::VarDecl(
                name@,
                t.deep_view(),
                e.deep_view(),
            ),
            Statement::Assignment(lhs, op, e) => StatementV::Assignment(
                lhs.deep_view(),
                *op,
                e.deep_view(),
            ),
            Statement::Compound(b) => StatementV::Compound(deep_view_stmts(b@)),
            Statement::If(c, b) => StatementV::If(c.deep_view(), deep_view_stmts(b@)),
            Statement::Return(e) => StatementV::Return(e.deep_view()),
            Statement::Loop(b) => StatementV::Loop(deep_view_stmts(b@)),
            Statement::Break => StatementV::Break,
            Statement::ForLoop(h, b) => StatementV::ForLoop(h.deep_view(), deep_view_stmts(b@)),
        }
    }
}

/// The mirror of a sequence of statements, element for element.
pub open spec fn deep_view_stmts(v: Seq<Statement>) -> Seq<StatementV>
    decreases v,
{
    if v.len() == 0 {
        Seq::empty()
    } else {
        seq![v[0].deep_view()] + deep_view_stmts(v.subrange(1, v.len() as int))
    }
}

/// `deep_view_stmts` maps the sequence element for element.
pub broadcast proof fn lemma_deep_view_stmts(v: Seq<Statement>)
    ensures
        (#[trigger] deep_view_stmts(v)).len() == v.len(),
        forall|i: int| 0 <= i < v.len() ==> deep_view_stmts(v)[i] == v[i].deep_view(),
    decreases v,
{
    if v.len() > 0 {
        let tail = v.subrange(1, v.len() as int);
        assert(deep_view_stmts(v) == seq![v[0].deep_view()] + deep_view_stmts(tail));
        lemma_deep_view_stmts(tail);
        assert forall|i: int| 0 <= i < v.len() implies deep_view_stmts(v)[i] == v[i].deep_view() by {
            if i > 0 {
                assert(deep_view_stmts(v)[i] == deep_view_stmts(tail)[i - 1]);
                assert(tail[i - 1] == v[i]);
            }
        }
    }
}


/// Prepending an element commutes with taking the mirror of a sequence of
/// statements.
pub proof fn lemma_deep_view_stmts_cons(h: Statement, t: Seq<Statement>)
    ensures
        deep_view_stmts(seq![h] + t) == seq![h.deep_view()] + deep_view_stmts(t),
{
    let all = seq![h] + t;
    assert(all.len() == 1 + t.len());
    assert(deep_view_stmts(all) == seq![all[0].deep_view()] + deep_view_stmts(
        all.subrange(1, all.len() as int),
    ));
    assert(all[0] == h);
    assert(all.subrange(1, all.len() as int) =~= t);
}

/// A list of textual attributes on a function or parameter.
#[derive(Debug)]
pub struct AttrList(pub Vec<String>);

impl DeepView for AttrList {
    type V = Seq<Seq<char>>;

    open spec fn deep_view(&self) -> Seq<Seq<char>> {
        self.0.deep_view()
    }
}

/// A function parameter.
#[derive(Debug)]
pub struct FnInput {
    pub attrs: AttrList,
    pub name: String,
    pub data_type: DataType,
}

/// Mirror of `FnInput`.
#[verifier::ext_equal]
pub ghost struct FnInputV {
    pub attrs: Seq<Seq<char>>,
    pub name: Seq<char>,
    pub data_type: DataTypeV,
}

impl DeepView for FnInput {
    type V = FnInputV;

    open spec fn deep_view(&self) -> FnInputV {
        FnInputV {
            attrs: self.attrs.deep_view(),
            name: self.name@,
            data_type: self.data_type.deep_view(),
        }
    }
}

/// A function result.
#[derive(Debug)]
pub struct FnOutput {
    pub attrs: AttrList,
    pub data_type: DataType,
}

/// Mirror of `FnOutput`.
#[verifier::ext_equal]
pub ghost struct FnOutputV {
    pub attrs: Seq<Seq<char>>,
    pub data_type: DataTypeV,
}

impl DeepView for FnOutput {
    type V = FnOutputV;

    open spec fn deep_view(&self) -> FnOutputV {
        FnOutputV { attrs: self.attrs.deep_view(), data_type: self.data_type.deep_view() }
    }
}

/// A function declaration: attributes, name, signature and ordered body.
#[derive(Debug)]
pub struct FnDecl {
    pub attrs: AttrList,
    pub name: String,
    pub inputs: Vec<FnInput>,
    pub output: Option<FnOutput>,
    pub body: Vec<Statement>,
}

/// Mirror of `FnDecl`.
#[verifier::ext_equal]
pub ghost struct FnDeclV {
    pub attrs: Seq<Seq<char>>,
    pub name: Seq<char>,
    pub inputs: Seq<FnInputV>,
    pub output: Option<FnOutputV>,
    pub body: Seq<StatementV>,
}

impl DeepView for FnDecl {
    type V = FnDeclV;

    open spec fn deep_view(&self) -> FnDeclV {
        FnDeclV {
            attrs: self.attrs.deep_view(),
            name: self.name@,
            inputs: self.inputs.deep_view(),
            output: self.output.deep_view(),
            body: deep_view_stmts(self.body@),
        }
    }
}

/// A parsed, type-annotated program: the entrypoint and the ordinary
/// functions in their original order.
#[derive(Debug)]
pub struct Program {
    pub entrypoint: FnDecl,
    pub functions: Vec<FnDecl>,
}

/// Mirror of `Program`.
#[verifier::ext_equal]
pub ghost struct ProgramV {
    pub entrypoint: FnDeclV,
    pub functions: Seq<FnDeclV>,
}

impl DeepView for Program {
    type V = ProgramV;

    open spec fn deep_view(&self) -> ProgramV {
        ProgramV {
            entrypoint: self.entrypoint.deep_view(),
            functions: self.functions.deep_view(),
        }
    }
}

} // verus!
