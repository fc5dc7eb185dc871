//! The syntax tree that the parser builds and the later stages read.

use crate::types::{clone_type, Type, TypeView};
use vstd::prelude::*;
use vstd::string::*;

verus! {

/// A binary operator: logical or arithmetic.
#[derive(Debug, Clone, Copy, PartialEq, Eq)]
pub enum BinaryOp {
    And,
    Or,
    Add,
    Subtract,
    Multiply,
    Divide,
    Modulo,
}

/// A prefix operator.
#[derive(Debug, Clone, Copy, PartialEq, Eq)]
pub enum UnaryOp {
    Not,
    Minus,
}

/// A comparison operator.
#[derive(Debug, Clone, Copy, PartialEq, Eq)]
pub enum ComparisonOp {
    Equal,
    NotEqual,
    Less,
    Greater,
    LessEqual,
    GreaterEqual,
    Contains,
}

/// A literal: a string, a 64-bit signed integer or a boolean.
#[derive(Debug, PartialEq)]
pub enum Literal {
    String(String),
    Integer(i64),
    Boolean(bool),
}

/// The mathematical content of a [`Literal`].
pub enum LiteralView {
    String(Seq<char>),
    Integer(i64),
    Boolean(bool),
}

impl View for Literal {
    type V = LiteralView;

    open spec fn view(&self) -> LiteralView {
        match self {
            Literal::String(s) => LiteralView::String(s@),
            Literal::Integer(n) => LiteralView::Integer(*n),
            Literal::Boolean(b) => LiteralView::Boolean(*b),
        }
    }
}

/// The pattern of a match arm: a constructor name and the variable that
/// receives the payload.
#[derive(Debug, PartialEq)]
pub enum Pattern {
    Constructor(String, String),
}

/// One arm of a match: a pattern and the body that it selects.
#[derive(Debug, PartialEq)]
pub struct MatchArm {
    pub pattern: Pattern,
    pub body: Expression,
}

/// An expression.
#[derive(Debug, PartialEq)]
pub enum Expression {
    Binary(BinaryOp, Box<Expression>, Box<Expression>),
    Unary(UnaryOp, Box<Expression>),
    Literal(Literal),
    Identifier(String),
    FunctionCall(String, Vec<Expression>),
    MemberAccess(Box<Expression>, String),
    MethodCall(Box<Expression>, String, Vec<Expression>),
    Comparison(ComparisonOp, Box<Expression>, Box<Expression>),
    Pipeline(Box<Expression>, Box<Expression>),
    /// `let name = value in body`
    Let(String, Box<Expression>, Box<Expression>),
    Match(Box<Expression>, Vec<MatchArm>),
    /// The bare name of a declared refinement type, as a value.
    TypeLiteral(String),
}

/// The mathematical content of a [`MatchArm`].
pub struct MatchArmView {
    pub constructor: Seq<char>,
    pub binding: Seq<char>,
    pub body: ExprView,
}

/// The mathematical content of an [`Expression`].
pub enum ExprView {
    Binary(BinaryOp, Box<ExprView>, Box<ExprView>),
    Unary(UnaryOp, Box<ExprView>),
    Literal(LiteralView),
    Identifier(Seq<char>),
    FunctionCall(Seq<char>, Seq<ExprView>),
    MemberAccess(Box<ExprView>, Seq<char>),
    MethodCall(Box<ExprView>, Seq<char>, Seq<ExprView>),
    Comparison(ComparisonOp, Box<ExprView>, Box<ExprView>),
    Pipeline(Box<ExprView>, Box<ExprView>),
    Let(Seq<char>, Box<ExprView>, Box<ExprView>),
    Match(Box<ExprView>, Seq<MatchArmView>),
    TypeLiteral(Seq<char>),
}

/// The mathematical content of an expression.
pub open spec fn expr_view(e: Expression) -> ExprView
    decreases e,
{
    match e {
        Expression::Binary(op, l, r) => ExprView::Binary(
            op,
            Box::new(expr_view(*l)),
            Box::new(expr_view(*r)),
        ),
        Expression::Unary(op, a) => ExprView::Unary(op, Box::new(expr_view(*a))),
        Expression::Literal(l) => ExprView::Literal(l@),
        Expression::Identifier(name) => ExprView::Identifier(name@),
        Expression::FunctionCall(name, args) => ExprView::FunctionCall(name@, exprs_view(args@)),
        Expression::MemberAccess(obj, member) => ExprView::MemberAccess(
            Box::new(expr_view(*obj)),
            member@,
        ),
        Expression::MethodCall(obj, method, args) => ExprView::MethodCall(
            Box::new(expr_view(*obj)),
            method@,
            exprs_view(args@),
        ),
        Expression::Comparison(op, l, r) => ExprView::Comparison(
            op,
            Box::new(expr_view(*l)),
            Box::new(expr_view(*r)),
        ),
        Expression::Pipeline(l, r) => ExprView::Pipeline(
            Box::new(expr_view(*l)),
            Box::new(expr_view(*r)),
        ),
        Expression::Let(name, value, body) => ExprView::Let(
            name@,
            Box::new(expr_view(*value)),
            Box::new(expr_view(*body)),
        ),
        Expression::Match(scrutinee, arms) => ExprView::Match(
            Box::new(expr_view(*scrutinee)),
            arms_view(arms@),
        ),
        Expression::TypeLiteral(name) => ExprView::TypeLiteral(name@),
    }
}

/// The views of a sequence of expressions, element by element.
pub open spec fn exprs_view(s: Seq<Expression>) -> Seq<ExprView>
    decreases s,
{
    Seq::new(
        s.len(),
        |i: int|
            if 0 <= i < s.len() {
                expr_view(s[i])
            } else {
                ExprView::Literal(LiteralView::Boolean(false))
            },
    )
}

/// The mathematical content of a match arm.
pub open spec fn arm_view(arm: MatchArm) -> MatchArmView
    decreases arm,
{
    match arm.pattern {
        Pattern::Constructor(constructor, binding) => MatchArmView {
            constructor: constructor@,
            binding: binding@,
            body: expr_view(arm.body),
        },
    }
}

/// The views of a sequence of match arms, element by element.
pub open spec fn arms_view(s: Seq<MatchArm>) -> Seq<MatchArmView>
    decreases s,
{
    Seq::new(
        s.len(),
        |i: int|
            if 0 <= i < s.len() {
                arm_view(s[i])
            } else {
                MatchArmView {
                    constructor: Seq::empty(),
                    binding: Seq::empty(),
                    body: ExprView::Literal(LiteralView::Boolean(false)),
                }
            },
    )
}

impl View for Expression {
    type V = ExprView;

    open spec fn view(&self) -> ExprView {
        expr_view(*self)
    }
}

impl View for MatchArm {
    type V = MatchArmView;

    open spec fn view(&self) -> MatchArmView {
        arm_view(*self)
    }
}

/// The view of an optional expression.
pub open spec fn option_expr_view(e: Option<Expression>) -> Option<ExprView> {
    match e {
        Some(x) => Some(x@),
        None => None,
    }
}

/// The parameter of a value declaration.
#[derive(Debug, PartialEq)]
pub struct Parameter {
    pub name: String,
    pub ty: Type,
}

/// The mathematical content of a [`Parameter`].
pub struct ParameterView {
    pub name: Seq<char>,
    pub ty: TypeView,
}

impl View for Parameter {
    type V = ParameterView;

    open spec fn view(&self) -> ParameterView {
        ParameterView { name: self.name@, ty: self.ty@ }
    }
}

/// A function parameter, with the guard that dispatch evaluates where there
/// is one.
#[derive(Debug, PartialEq)]
pub struct ParameterWithGuard {
    pub name: String,
    pub ty: Type,
    pub guard: Option<Expression>,
}

/// The mathematical content of a [`ParameterWithGuard`].
pub struct GuardedParameterView {
    pub name: Seq<char>,
    pub ty: TypeView,
    pub guard: Option<ExprView>,
}

impl View for ParameterWithGuard {
    type V = GuardedParameterView;

    open spec fn view(&self) -> GuardedParameterView {
        GuardedParameterView {
            name: self.name@,
            ty: self.ty@,
            guard: option_expr_view(self.guard),
        }
    }
}

/// The views of a parameter list, element by element.
pub open spec fn parameters_view(s: Seq<ParameterWithGuard>) -> Seq<GuardedParameterView> {
    Seq::new(s.len(), |i: int| s[i]@)
}

/// The clauses of a value declaration, each optional.
#[derive(Debug, PartialEq)]
pub struct ValueBody {
    pub validate: Option<Expression>,
    pub normalize: Option<Expression>,
    pub unique: Option<bool>,
}

/// The mathematical content of a [`ValueBody`].
pub struct ValueBodyView {
    pub validate: Option<ExprView>,
    pub normalize: Option<ExprView>,
    pub unique: Option<bool>,
}

impl View for ValueBody {
    type V = ValueBodyView;

    open spec fn view(&self) -> ValueBodyView {
        ValueBodyView {
            validate: option_expr_view(self.validate),
            normalize: option_expr_view(self.normalize),
            unique: self.unique,
        }
    }
}

/// The declaration of a refinement value type: its name, its one parameter
/// and its clauses.
#[derive(Debug, PartialEq)]
pub struct ValueDeclaration {
    pub name: String,
    pub parameter: Parameter,
    pub body: ValueBody,
}

/// The mathematical content of a [`ValueDeclaration`].
pub struct ValueDeclView {
    pub name: Seq<char>,
    pub parameter: ParameterView,
    pub body: ValueBodyView,
}

impl View for ValueDeclaration {
    type V = ValueDeclView;

    open spec fn view(&self) -> ValueDeclView {
        ValueDeclView { name: self.name@, parameter: self.parameter@, body: self.body@ }
    }
}

/// The declaration of one overload of a function.
#[derive(Debug, PartialEq)]
pub struct FunctionDeclaration {
    pub name: String,
    pub parameters: Vec<ParameterWithGuard>,
    pub return_type: Type,
    pub body: Expression,
}

/// The mathematical content of a function or method declaration.
pub struct FunctionDeclView {
    pub name: Seq<char>,
    pub parameters: Seq<GuardedParameterView>,
    pub return_type: TypeView,
    pub body: ExprView,
}

impl View for FunctionDeclaration {
    type V = FunctionDeclView;

    open spec fn view(&self) -> FunctionDeclView {
        FunctionDeclView {
            name: self.name@,
            parameters: parameters_view(self.parameters@),
            return_type: self.return_type@,
            body: self.body@,
        }
    }
}

/// A declaration written with `method`: the same thing as a function.
#[derive(Debug, PartialEq)]
pub struct MethodDeclaration {
    pub name: String,
    pub parameters: Vec<ParameterWithGuard>,
    pub return_type: Type,
    pub body: Expression,
}

impl View for MethodDeclaration {
    type V = FunctionDeclView;

    open spec fn view(&self) -> FunctionDeclView {
        FunctionDeclView {
            name: self.name@,
            parameters: parameters_view(self.parameters@),
            return_type: self.return_type@,
            body: self.body@,
        }
    }
}

/// A declaration.
#[derive(Debug, PartialEq)]
pub enum Declaration {
    Value(ValueDeclaration),
    Function(FunctionDeclaration),
    Method(MethodDeclaration),
}

/// The mathematical content of a [`Declaration`].
pub enum DeclarationView {
    Value(ValueDeclView),
    Function(FunctionDeclView),
    Method(FunctionDeclView),
}

impl View for Declaration {
    type V = DeclarationView;

    open spec fn view(&self) -> DeclarationView {
        match self {
            Declaration::Value(d) => DeclarationView::Value(d@),
            Declaration::Function(d) => DeclarationView::Function(d@),
            Declaration::Method(d) => DeclarationView::Method(d@),
        }
    }
}

/// The views of a sequence of declarations, element by element.
pub open spec fn declarations_view(s: Seq<Declaration>) -> Seq<DeclarationView> {
    Seq::new(s.len(), |i: int| s[i]@)
}

/// A program: its declarations in order.
#[derive(Debug, PartialEq)]
pub struct Program {
    pub declarations: Vec<Declaration>,
}

/// The mathematical content of a [`Program`].
pub struct ProgramView {
    pub declarations: Seq<DeclarationView>,
}

impl View for Program {
    type V = ProgramView;

    open spec fn view(&self) -> ProgramView {
        ProgramView { declarations: declarations_view(self.declarations@) }
    }
}

/// A copy of a literal.
pub fn clone_literal(l: &Literal) -> (r: Literal)
    ensures
        r@ == l@,
{
    match l {
        Literal::String(s) => Literal::String(s.clone()),
        Literal::Integer(n) => Literal::Integer(*n),
        Literal::Boolean(b) => Literal::Boolean(*b),
    }
}

/// A copy of an expression.
pub fn clone_expression(e: &Expression) -> (r: Expression)
    ensures
        r@ == e@,
    decreases e, 0nat,
{
    match e {
        Expression::Binary(op, l, r) => Expression::Binary(
            *op,
            Box::new(clone_expression(l)),
            Box::new(clone_expression(r)),
        ),
        Expression::Unary(op, a) => Expression::Unary(*op, Box::new(clone_expression(a))),
        Expression::Literal(l) => Expression::Literal(clone_literal(l)),
        Expression::Identifier(name) => Expression::Identifier(name.clone()),
        Expression::FunctionCall(name, args) => Expression::FunctionCall(
            name.clone(),
            clone_expressions(args),
        ),
        Expression::MemberAccess(obj, member) => Expression::MemberAccess(
            Box::new(clone_expression(obj)),
            member.clone(),
        ),
        Expression::MethodCall(obj, method, args) => Expression::MethodCall(
            Box::new(clone_expression(obj)),
            method.clone(),
            clone_expressions(args),
        ),
        Expression::Comparison(op, l, r) => Expression::Comparison(
            *op,
            Box::new(clone_expression(l)),
            Box::new(clone_expression(r)),
        ),
        Expression::Pipeline(l, r) => Expression::Pipeline(
            Box::new(clone_expression(l)),
            Box::new(clone_expression(r)),
        ),
        Expression::Let(name, value, body) => Expression::Let(
            name.clone(),
            Box::new(clone_expression(value)),
            Box::new(clone_expression(body)),
        ),
        Expression::Match(scrutinee, arms) => Expression::Match(
            Box::new(clone_expression(scrutinee)),
            clone_arms(arms),
        ),
        Expression::TypeLiteral(name) => Expression::TypeLiteral(name.clone()),
    }
}

/// A copy of a list of expressions.
pub fn clone_expressions(v: &Vec<Expression>) -> (r: Vec<Expression>)
    ensures
        exprs_view(r@) == exprs_view(v@),
    decreases v, 1nat,
{
    let mut out: Vec<Expression> = Vec::new();
    let mut i: usize = 0;
    while i < v.len()
        invariant
            i <= v.len(),
            out.len() == i,
            forall|k: int| 0 <= k < i ==> out@[k]@ == v@[k]@,
        decreases v.len() - i,
    {
        out.push(clone_expression(&v[i]));
        i = i + 1;
    }
    assert(exprs_view(out@) =~= exprs_view(v@));
    out
}

/// A copy of a list of match arms.
pub fn clone_arms(v: &Vec<MatchArm>) -> (r: Vec<MatchArm>)
    ensures
        arms_view(r@) == arms_view(v@),
    decreases v, 1nat,
{
    let mut out: Vec<MatchArm> = Vec::new();
    let mut i: usize = 0;
    while i < v.len()
        invariant
            i <= v.len(),
            out.len() == i,
            forall|k: int| 0 <= k < i ==> out@[k]@ == v@[k]@,
        decreases v.len() - i,
    {
        let arm = &v[i];
        let pattern = match &arm.pattern {
            Pattern::Constructor(constructor, binding) => Pattern::Constructor(
                constructor.clone(),
                binding.clone(),
            ),
        };
        out.push(MatchArm { pattern, body: clone_expression(&arm.body) });
        i = i + 1;
    }
    assert(arms_view(out@) =~= arms_view(v@));
    out
}

/// A copy of an optional expression.
pub fn clone_option_expression(e: &Option<Expression>) -> (r: Option<Expression>)
    ensures
        option_expr_view(r) == option_expr_view(*e),
{
    match e {
        Some(x) => Some(clone_expression(x)),
        None => None,
    }
}

/// A copy of a parameter list.
pub fn clone_parameters(v: &Vec<ParameterWithGuard>) -> (r: Vec<ParameterWithGuard>)
    ensures
        parameters_view(r@) == parameters_view(v@),
{
    let mut out: Vec<ParameterWithGuard> = Vec::new();
    let mut i: usize = 0;
    while i < v.len()
        invariant
            i <= v.len(),
            out.len() == i,
            forall|k: int| 0 <= k < i ==> out@[k]@ == v@[k]@,
        decreases v.len() - i,
    {
        let p = &v[i];
        out.push(
            ParameterWithGuard {
                name: p.name.clone(),
                ty: clone_type(&p.ty),
                guard: clone_option_expression(&p.guard),
            },
        );
        i = i + 1;
    }
    assert(parameters_view(out@) =~= parameters_view(v@));
    out
}

impl Clone for Expression {
    fn clone(&self) -> (r: Self)
        ensures
            r@ == self@,
    {
        clone_expression(self)
    }
}

impl Clone for ValueDeclaration {
    fn clone(&self) -> (r: Self)
        ensures
            r@ == self@,
    {
        ValueDeclaration {
            name: self.name.clone(),
            parameter: Parameter {
                name: self.parameter.name.clone(),
                ty: clone_type(&self.parameter.ty),
            },
            body: ValueBody {
                validate: clone_option_expression(&self.body.validate),
                normalize: clone_option_expression(&self.body.normalize),
                unique: self.body.unique,
            },
        }
    }
}

impl Clone for FunctionDeclaration {
    fn clone(&self) -> (r: Self)
        ensures
            r@ == self@,
    {
        FunctionDeclaration {
            name: self.name.clone(),
            parameters: clone_parameters(&self.parameters),
            return_type: clone_type(&self.return_type),
            body: clone_expression(&self.body),
        }
    }
}

impl Clone for MethodDeclaration {
    fn clone(&self) -> (r: Self)
        ensures
            r@ == self@,
    {
        MethodDeclaration {
            name: self.name.clone(),
            parameters: clone_parameters(&self.parameters),
            return_type: clone_type(&self.return_type),
            body: clone_expression(&self.body),
        }
    }
}

} // verus!
