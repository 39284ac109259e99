//! The syntax tree and its mathematical model.
use vstd::prelude::*;

verus! {

/// The declared type of a value.
#[derive(Debug, Clone, Copy, PartialEq, Eq, Structural)]
pub enum ValueType {
    Int,
    List,
    Matrix,
}

/// A literal value of the source text.
#[derive(Debug, Clone, Copy, PartialEq, Eq, Structural)]
pub enum Literal {
    Literal(i32),
    NaN,
}

/// An expression tree. A binary operator is a `FunctionCall` whose name is
/// the operator's symbol and which has exactly two arguments.
#[derive(Debug, PartialEq, Eq)]
pub enum Expr {
    Literal(Literal),
    Variable(String),
    FunctionCall(String, Vec<Expr>),
}

/// One position of a clause's left-hand side.
#[derive(Debug, PartialEq, Eq)]
pub enum PatternElement {
    Literal(Literal),
    Variable(String),
}

/// One clause of a function: its patterns and its body.
#[derive(Debug, PartialEq, Eq)]
pub struct Branch {
    pub pattern: Vec<PatternElement>,
    pub expression: Expr,
}

/// One named function: declared types, name, and clauses in source order.
#[derive(Debug, PartialEq, Eq)]
pub struct Definition {
    pub args: Vec<ValueType>,
    pub name: String,
    pub branches: Vec<Branch>,
}

/// A whole source text: its definitions in source order.
#[derive(Debug, PartialEq, Eq)]
pub struct Program {
    pub definitions: Vec<Definition>,
}

/// The model of an [`Expr`]: names are character sequences, arguments a
/// sequence of models.
pub enum ExprModel {
    Literal(Literal),
    Variable(Seq<char>),
    FunctionCall(Seq<char>, Seq<ExprModel>),
}

/// The model of a [`PatternElement`].
pub enum PatternModel {
    Literal(Literal),
    Variable(Seq<char>),
}

/// The model of a [`Branch`].
pub struct BranchModel {
    pub pattern: Seq<PatternModel>,
    pub expression: ExprModel,
}

/// The model of a [`Definition`].
pub struct DefinitionModel {
    pub args: Seq<ValueType>,
    pub name: Seq<char>,
    pub branches: Seq<BranchModel>,
}

/// The model of a [`Program`].
pub struct ProgramModel {
    pub definitions: Seq<DefinitionModel>,
}

/// The model of the expression `e`.
pub open spec fn expr_model(e: Expr) -> ExprModel
    decreases e,
{
    match e {
        Expr::Literal(l) => ExprModel::Literal(l),
        Expr::Variable(n) => ExprModel::Variable(n@),
        Expr::FunctionCall(n, args) => ExprModel::FunctionCall(n@, expr_models(args@)),
    }
}

/// The models of the expressions `v`, in order.
pub open spec fn expr_models(v: Seq<Expr>) -> Seq<ExprModel>
    decreases v,
{
    if v.len() == 0 {
        Seq::empty()
    } else {
        expr_models(v.drop_last()).push(expr_model(v.last()))
    }
}

/// The models of a sequence that was extended by `e` are the models of the
/// sequence, extended by the model of `e`.
pub proof fn lemma_expr_models_push(v: Seq<Expr>, e: Expr)
    ensures
        expr_models(v.push(e)) == expr_models(v).push(e@),
{
    assert(v.push(e).drop_last() =~= v);
}

/// The models of a sequence of expressions are as many as the expressions,
/// and each is the model of the expression at its place.
pub proof fn lemma_expr_models_pointwise(v: Seq<Expr>)
    ensures
        expr_models(v).len() == v.len(),
        forall|i: int| 0 <= i < v.len() ==> (#[trigger] expr_models(v)[i]) == v[i]@,
    decreases v.len(),
{
    if v.len() > 0 {
        lemma_expr_models_pointwise(v.drop_last());
    }
}

impl View for Expr {
    type V = ExprModel;

    open spec fn view(&self) -> ExprModel {
        expr_model(*self)
    }
}

impl View for PatternElement {
    type V = PatternModel;

    open spec fn view(&self) -> PatternModel {
        match self {
            PatternElement::Literal(l) => PatternModel::Literal(*l),
            PatternElement::Variable(n) => PatternModel::Variable(n@),
        }
    }
}

/// The models of the pattern elements `v`, in order.
pub open spec fn pattern_models(v: Seq<PatternElement>) -> Seq<PatternModel> {
    v.map_values(|p: PatternElement| p@)
}

impl View for Branch {
    type V = BranchModel;

    open spec fn view(&self) -> BranchModel {
        BranchModel {
            pattern: pattern_models(self.pattern@),
            expression: self.expression@,
        }
    }
}

/// The models of the clauses `v`, in order.
pub open spec fn branch_models(v: Seq<Branch>) -> Seq<BranchModel> {
    v.map_values(|b: Branch| b@)
}

impl View for Definition {
    type V = DefinitionModel;

    open spec fn view(&self) -> DefinitionModel {
        DefinitionModel {
            args: self.args@,
            name: self.name@,
            branches: branch_models(self.branches@),
        }
    }
}

/// The models of the definitions `v`, in order.
pub open spec fn definition_models(v: Seq<Definition>) -> Seq<DefinitionModel> {
    v.map_values(|d: Definition| d@)
}

impl View for Program {
    type V = ProgramModel;

    open spec fn view(&self) -> ProgramModel {
        ProgramModel {
            definitions: definition_models(self.definitions@),
        }
    }
}

} // verus!
