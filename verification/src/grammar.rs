//! The grammar of the language, as functions on token streams: each takes
//! a stream and the index at which the construct starts, and tells the
//! construct and the number of tokens that it spans.

use crate::ast::{
    BinaryOp, ComparisonOp, DeclarationView, ExprView, FunctionDeclView, GuardedParameterView,
    LiteralView, MatchArmView, ParameterView, ProgramView, UnaryOp, ValueBodyView, ValueDeclView,
};
use crate::error::ErrorView;
use crate::scanning::{next_token_at, Scan, TokenView};
use crate::types::TypeView;
use vstd::prelude::*;

verus! {

/// One element of a token stream: a token with the line and column where
/// it starts, or the lexer error that ends the stream.
pub enum Lexeme {
    Token { token: TokenView, line: nat, column: nat },
    Bad(ErrorView),
}

/// The outcome of parsing a construct at the head of a token stream: its
/// value and the number of tokens that it spans, or an error.
pub enum Parsed<T> {
    Done { value: T, used: nat },
    Failed(ErrorView),
}

/// The token at index `i` of a stream; `Eof` where there is none.
pub open spec fn head(toks: Seq<Lexeme>, i: int) -> TokenView {
    if 0 <= i < toks.len() && toks[i] is Token {
        toks[i]->token
    } else {
        TokenView::Eof
    }
}

/// The number of elements of a stream from index `i` on.
pub open spec fn pending(toks: Seq<Lexeme>, i: int) -> nat {
    if i <= toks.len() {
        (toks.len() - i) as nat
    } else {
        0
    }
}

/// A parser error at the token at index `i`.
pub open spec fn expected(toks: Seq<Lexeme>, i: int, what: Seq<char>) -> ErrorView {
    if 0 <= i < toks.len() && toks[i] is Token {
        ErrorView::Parser {
            message: "Expected "@ + what,
            line: toks[i]->line,
            column: toks[i]->column,
        }
    } else {
        ErrorView::Parser { message: "Expected "@ + what, line: 0, column: 0 }
    }
}

/// Moving past the token at index `i` reads the token after it: a lexer
/// error there surfaces now.
pub open spec fn take(toks: Seq<Lexeme>, i: int) -> Parsed<()> {
    if 0 <= i && i + 1 < toks.len() && toks[i + 1] is Bad {
        Parsed::Failed(toks[i + 1]->Bad_0)
    } else {
        Parsed::Done { value: (), used: 1 }
    }
}

/// The head token must be `token`.
pub open spec fn expect(
    toks: Seq<Lexeme>,
    i: int,
    token: TokenView,
    what: Seq<char>,
) -> Parsed<()> {
    if head(toks, i) == token {
        take(toks, i)
    } else {
        Parsed::Failed(expected(toks, i, what))
    }
}

/// The head token must be an identifier.
pub open spec fn expect_identifier(toks: Seq<Lexeme>, i: int) -> Parsed<Seq<char>> {
    match head(toks, i) {
        TokenView::Identifier(name) => match take(toks, i) {
            Parsed::Failed(e) => Parsed::Failed(e),
            Parsed::Done { .. } => Parsed::Done { value: name, used: 1 },
        },
        _ => Parsed::Failed(expected(toks, i, "identifier"@)),
    }
}

/// A type name: one of the built-in names, or else the name of a value
/// type.
pub open spec fn named_type(name: Seq<char>) -> TypeView {
    if name == "String"@ {
        TypeView::String
    } else if name == "Int"@ {
        TypeView::Int
    } else if name == "Bool"@ {
        TypeView::Bool
    } else if name == "Any"@ {
        TypeView::Any
    } else {
        TypeView::Value(name)
    }
}

/// A type: a type name.
pub open spec fn parse_type(toks: Seq<Lexeme>, i: int) -> Parsed<TypeView> {
    match head(toks, i) {
        TokenView::Identifier(name) => match take(toks, i) {
            Parsed::Failed(e) => Parsed::Failed(e),
            Parsed::Done { .. } => Parsed::Done { value: named_type(name), used: 1 },
        },
        _ => Parsed::Failed(expected(toks, i, "type name"@)),
    }
}

/// `true` or `false`.
pub open spec fn parse_boolean(toks: Seq<Lexeme>, i: int) -> Parsed<bool> {
    match head(toks, i) {
        TokenView::True => match take(toks, i) {
            Parsed::Failed(e) => Parsed::Failed(e),
            Parsed::Done { .. } => Parsed::Done { value: true, used: 1 },
        },
        TokenView::False => match take(toks, i) {
            Parsed::Failed(e) => Parsed::Failed(e),
            Parsed::Done { .. } => Parsed::Done { value: false, used: 1 },
        },
        _ => Parsed::Failed(expected(toks, i, "boolean value"@)),
    }
}

/// An infix operator.
pub enum Infix {
    Pipeline,
    Binary(BinaryOp),
    Comparison(ComparisonOp),
}

/// The infix operator that a token is at a precedence level, if any.
/// Levels from loosest to tightest: 5 pipeline, 4 `||`, 3 `&&`,
/// 2 comparison, 1 additive, 0 multiplicative.
pub open spec fn infix_at(level: nat, token: TokenView) -> Option<Infix> {
    if level == 5 {
        match token {
            TokenView::Pipeline => Some(Infix::Pipeline),
            _ => None,
        }
    } else if level == 4 {
        match token {
            TokenView::Or => Some(Infix::Binary(BinaryOp::Or)),
            _ => None,
        }
    } else if level == 3 {
        match token {
            TokenView::And => Some(Infix::Binary(BinaryOp::And)),
            _ => None,
        }
    } else if level == 2 {
        match token {
            TokenView::Equal => Some(Infix::Comparison(ComparisonOp::Equal)),
            TokenView::NotEqual => Some(Infix::Comparison(ComparisonOp::NotEqual)),
            TokenView::Less => Some(Infix::Comparison(ComparisonOp::Less)),
            TokenView::Greater => Some(Infix::Comparison(ComparisonOp::Greater)),
            TokenView::LessEqual => Some(Infix::Comparison(ComparisonOp::LessEqual)),
            TokenView::GreaterEqual => Some(Infix::Comparison(ComparisonOp::GreaterEqual)),
            TokenView::Contains => Some(Infix::Comparison(ComparisonOp::Contains)),
            _ => None,
        }
    } else if level == 1 {
        match token {
            TokenView::Plus => Some(Infix::Binary(BinaryOp::Add)),
            TokenView::Minus => Some(Infix::Binary(BinaryOp::Subtract)),
            _ => None,
        }
    } else if level == 0 {
        match token {
            TokenView::Star => Some(Infix::Binary(BinaryOp::Multiply)),
            TokenView::Slash => Some(Infix::Binary(BinaryOp::Divide)),
            TokenView::Percent => Some(Infix::Binary(BinaryOp::Modulo)),
            _ => None,
        }
    } else {
        None
    }
}

/// The expression that an infix operator makes of its operands.
pub open spec fn combine(op: Infix, left: ExprView, right: ExprView) -> ExprView {
    match op {
        Infix::Pipeline => ExprView::Pipeline(Box::new(left), Box::new(right)),
        Infix::Binary(b) => ExprView::Binary(b, Box::new(left), Box::new(right)),
        Infix::Comparison(c) => ExprView::Comparison(c, Box::new(left), Box::new(right)),
    }
}

/// A parse result whose span starts `n` tokens earlier.
pub open spec fn shift<T>(p: Parsed<T>, n: nat) -> Parsed<T> {
    match p {
        Parsed::Done { value, used } => Parsed::Done { value, used: used + n },
        Parsed::Failed(e) => Parsed::Failed(e),
    }
}

/// An expression: the loosest precedence level.
pub open spec fn parse_expression(toks: Seq<Lexeme>, i: int) -> Parsed<ExprView>
    decreases pending(toks, i), 22nat,
{
    parse_level(5, toks, i)
}

/// An expression of a precedence level: operands of the next tighter level
/// joined by the operators of this level, associating to the left.
pub open spec fn parse_level(level: nat, toks: Seq<Lexeme>, i: int) -> Parsed<ExprView>
    decreases pending(toks, i), 11 + 2 * level,
{
    if level > 5 {
        Parsed::Failed(expected(toks, i, "expression"@))
    } else {
        let first = if level == 0 {
            parse_unary(toks, i)
        } else {
            parse_level((level - 1) as nat, toks, i)
        };
        match first {
            Parsed::Failed(e) => Parsed::Failed(e),
            Parsed::Done { value, used } => shift(level_tail(level, value, toks, i + used), used),
        }
    }
}

/// The operators of a level and their right operands, after the left
/// operand `left`.
pub open spec fn level_tail(
    level: nat,
    left: ExprView,
    toks: Seq<Lexeme>,
    i: int,
) -> Parsed<ExprView>
    decreases pending(toks, i), 10 + 2 * level,
{
    if level > 5 {
        Parsed::Failed(expected(toks, i, "expression"@))
    } else {
        match infix_at(level, head(toks, i)) {
            None => Parsed::Done { value: left, used: 0 },
            Some(op) => match take(toks, i) {
                Parsed::Failed(e) => Parsed::Failed(e),
                Parsed::Done { .. } => {
                    let operand = if level == 0 {
                        parse_unary(toks, i + 1)
                    } else {
                        parse_level((level - 1) as nat, toks, i + 1)
                    };
                    match operand {
                        Parsed::Failed(e) => Parsed::Failed(e),
                        Parsed::Done { value, used } => shift(
                            level_tail(level, combine(op, left, value), toks, i + 1 + used),
                            1 + used,
                        ),
                    }
                },
            },
        }
    }
}

/// A prefix operator applied to a unary expression, or a postfix
/// expression.
pub open spec fn parse_unary(toks: Seq<Lexeme>, i: int) -> Parsed<ExprView>
    decreases pending(toks, i), 9nat,
{
    match head(toks, i) {
        TokenView::Not => match take(toks, i) {
            Parsed::Failed(e) => Parsed::Failed(e),
            Parsed::Done { .. } => match parse_unary(toks, i + 1) {
                Parsed::Failed(e) => Parsed::Failed(e),
                Parsed::Done { value, used } => Parsed::Done {
                    value: ExprView::Unary(UnaryOp::Not, Box::new(value)),
                    used: 1 + used,
                },
            },
        },
        TokenView::Minus => match take(toks, i) {
            Parsed::Failed(e) => Parsed::Failed(e),
            Parsed::Done { .. } => match parse_unary(toks, i + 1) {
                Parsed::Failed(e) => Parsed::Failed(e),
                Parsed::Done { value, used } => Parsed::Done {
                    value: ExprView::Unary(UnaryOp::Minus, Box::new(value)),
                    used: 1 + used,
                },
            },
        },
        _ => parse_postfix(toks, i),
    }
}

/// A primary expression followed by member accesses and method calls.
pub open spec fn parse_postfix(toks: Seq<Lexeme>, i: int) -> Parsed<ExprView>
    decreases pending(toks, i), 8nat,
{
    match parse_primary(toks, i) {
        Parsed::Failed(e) => Parsed::Failed(e),
        Parsed::Done { value, used } => shift(postfix_tail(value, toks, i + used), used),
    }
}

/// The suffixes `.member` and `.method(args)` after the expression
/// `object`.
pub open spec fn postfix_tail(object: ExprView, toks: Seq<Lexeme>, i: int) -> Parsed<ExprView>
    decreases pending(toks, i), 7nat,
{
    if head(toks, i) != TokenView::Dot {
        Parsed::Done { value: object, used: 0 }
    } else {
        match take(toks, i) {
            Parsed::Failed(e) => Parsed::Failed(e),
            Parsed::Done { .. } => match expect_identifier(toks, i + 1) {
                Parsed::Failed(e) => Parsed::Failed(e),
                Parsed::Done { value: member, .. } => {
                    let after = i + 2;
                    if head(toks, after) == TokenView::LeftParen {
                        match call_arguments(toks, after) {
                            Parsed::Failed(e) => Parsed::Failed(e),
                            Parsed::Done { value: args, used } => shift(
                                postfix_tail(
                                    ExprView::MethodCall(Box::new(object), member, args),
                                    toks,
                                    after + used,
                                ),
                                2 + used,
                            ),
                        }
                    } else {
                        shift(
                            postfix_tail(
                                ExprView::MemberAccess(Box::new(object), member),
                                toks,
                                after,
                            ),
                            2,
                        )
                    }
                },
            },
        }
    }
}

/// A parenthesized argument list, from its opening parenthesis to its
/// closing one.
pub open spec fn call_arguments(toks: Seq<Lexeme>, i: int) -> Parsed<Seq<ExprView>>
    decreases pending(toks, i), 25nat,
{
    match expect(toks, i, TokenView::LeftParen, "'('"@) {
        Parsed::Failed(e) => Parsed::Failed(e),
        Parsed::Done { .. } => {
            let inside = i + 1;
            if head(toks, inside) == TokenView::RightParen {
                match take(toks, inside) {
                    Parsed::Failed(e) => Parsed::Failed(e),
                    Parsed::Done { .. } => Parsed::Done { value: Seq::empty(), used: 2 },
                }
            } else {
                match arguments(toks, inside) {
                    Parsed::Failed(e) => Parsed::Failed(e),
                    Parsed::Done { value, used } => match expect(
                        toks,
                        inside + used,
                        TokenView::RightParen,
                        "')'"@,
                    ) {
                        Parsed::Failed(e) => Parsed::Failed(e),
                        Parsed::Done { .. } => Parsed::Done { value, used: 2 + used },
                    },
                }
            }
        },
    }
}

/// One or more expressions separated by commas.
pub open spec fn arguments(toks: Seq<Lexeme>, i: int) -> Parsed<Seq<ExprView>>
    decreases pending(toks, i), 23nat,
{
    match parse_expression(toks, i) {
        Parsed::Failed(e) => Parsed::Failed(e),
        Parsed::Done { value, used } => {
            let after = i + used;
            if head(toks, after) == TokenView::Comma {
                match take(toks, after) {
                    Parsed::Failed(e) => Parsed::Failed(e),
                    Parsed::Done { .. } => match arguments(toks, after + 1) {
                        Parsed::Failed(e) => Parsed::Failed(e),
                        Parsed::Done { value: more, used: further } => Parsed::Done {
                            value: seq![value] + more,
                            used: used + 1 + further,
                        },
                    },
                }
            } else {
                Parsed::Done { value: seq![value], used }
            }
        },
    }
}

/// A literal, a parenthesized expression, a `let`, a `match`, an
/// identifier, or a call of a named function.
pub open spec fn parse_primary(toks: Seq<Lexeme>, i: int) -> Parsed<ExprView>
    decreases pending(toks, i), 6nat,
{
    match head(toks, i) {
        TokenView::String(s) => literal(toks, i, LiteralView::String(s)),
        TokenView::Integer(n) => literal(toks, i, LiteralView::Integer(n)),
        TokenView::True => literal(toks, i, LiteralView::Boolean(true)),
        TokenView::False => literal(toks, i, LiteralView::Boolean(false)),
        TokenView::Identifier(name) => match take(toks, i) {
            Parsed::Failed(e) => Parsed::Failed(e),
            Parsed::Done { .. } => {
                let after = i + 1;
                if head(toks, after) == TokenView::LeftParen {
                    match call_arguments(toks, after) {
                        Parsed::Failed(e) => Parsed::Failed(e),
                        Parsed::Done { value: args, used } => Parsed::Done {
                            value: ExprView::FunctionCall(name, args),
                            used: 1 + used,
                        },
                    }
                } else {
                    Parsed::Done { value: ExprView::Identifier(name), used: 1 }
                }
            },
        },
        TokenView::LeftParen => match take(toks, i) {
            Parsed::Failed(e) => Parsed::Failed(e),
            Parsed::Done { .. } => match parse_expression(toks, i + 1) {
                Parsed::Failed(e) => Parsed::Failed(e),
                Parsed::Done { value, used } => match expect(
                    toks,
                    i + 1 + used,
                    TokenView::RightParen,
                    "')'"@,
                ) {
                    Parsed::Failed(e) => Parsed::Failed(e),
                    Parsed::Done { .. } => Parsed::Done { value, used: 2 + used },
                },
            },
        },
        TokenView::Let => match take(toks, i) {
            Parsed::Failed(e) => Parsed::Failed(e),
            Parsed::Done { .. } => shift(parse_let(toks, i + 1), 1),
        },
        TokenView::Match => match take(toks, i) {
            Parsed::Failed(e) => Parsed::Failed(e),
            Parsed::Done { .. } => shift(parse_match(toks, i + 1), 1),
        },
        _ => Parsed::Failed(expected(toks, i, "expression"@)),
    }
}

/// A literal, which is one token.
pub open spec fn literal(toks: Seq<Lexeme>, i: int, l: LiteralView) -> Parsed<ExprView> {
    match take(toks, i) {
        Parsed::Failed(e) => Parsed::Failed(e),
        Parsed::Done { .. } => Parsed::Done { value: ExprView::Literal(l), used: 1 },
    }
}

/// `name = value in body`, after the keyword `let`.
pub open spec fn parse_let(toks: Seq<Lexeme>, i: int) -> Parsed<ExprView>
    decreases pending(toks, i), 26nat,
{
    match expect_identifier(toks, i) {
        Parsed::Failed(e) => Parsed::Failed(e),
        Parsed::Done { value: name, .. } => match expect(toks, i + 1, TokenView::Assign, "'='"@) {
            Parsed::Failed(e) => Parsed::Failed(e),
            Parsed::Done { .. } => {
                let at_value = i + 2;
                match parse_expression(toks, at_value) {
                    Parsed::Failed(e) => Parsed::Failed(e),
                    Parsed::Done { value, used } => match expect(
                        toks,
                        at_value + used,
                        TokenView::In,
                        "'in'"@,
                    ) {
                        Parsed::Failed(e) => Parsed::Failed(e),
                        Parsed::Done { .. } => match parse_expression(toks, at_value + used + 1) {
                            Parsed::Failed(e) => Parsed::Failed(e),
                            Parsed::Done { value: body, used: further } => Parsed::Done {
                                value: ExprView::Let(name, Box::new(value), Box::new(body)),
                                used: 3 + used + further,
                            },
                        },
                    },
                }
            },
        },
    }
}

/// `scrutinee { arms }`, after the keyword `match`.
pub open spec fn parse_match(toks: Seq<Lexeme>, i: int) -> Parsed<ExprView>
    decreases pending(toks, i), 27nat,
{
    match parse_expression(toks, i) {
        Parsed::Failed(e) => Parsed::Failed(e),
        Parsed::Done { value: scrutinee, used } => match expect(
            toks,
            i + used,
            TokenView::LeftBrace,
            "'{'"@,
        ) {
            Parsed::Failed(e) => Parsed::Failed(e),
            Parsed::Done { .. } => {
                let inside = i + used + 1;
                match match_arms(toks, inside) {
                    Parsed::Failed(e) => Parsed::Failed(e),
                    Parsed::Done { value: arms, used: within } => match expect(
                        toks,
                        inside + within,
                        TokenView::RightBrace,
                        "'}'"@,
                    ) {
                        Parsed::Failed(e) => Parsed::Failed(e),
                        Parsed::Done { .. } => Parsed::Done {
                            value: ExprView::Match(Box::new(scrutinee), arms),
                            used: 2 + used + within,
                        },
                    },
                }
            },
        },
    }
}

/// Match arms up to the closing brace, each optionally followed by a
/// comma.
pub open spec fn match_arms(toks: Seq<Lexeme>, i: int) -> Parsed<Seq<MatchArmView>>
    decreases pending(toks, i), 26nat,
{
    if head(toks, i) == TokenView::RightBrace || head(toks, i) == TokenView::Eof {
        Parsed::Done { value: Seq::empty(), used: 0 }
    } else {
        match expect_identifier(toks, i) {
            Parsed::Failed(e) => Parsed::Failed(e),
            Parsed::Done { value: constructor, .. } => match arm_after_constructor(
                constructor,
                toks,
                i + 1,
            ) {
                Parsed::Failed(e) => Parsed::Failed(e),
                Parsed::Done { value: arm, used } => {
                    let after = i + 1 + used;
                    if head(toks, after) == TokenView::Comma {
                        match take(toks, after) {
                            Parsed::Failed(e) => Parsed::Failed(e),
                            Parsed::Done { .. } => match match_arms(toks, after + 1) {
                                Parsed::Failed(e) => Parsed::Failed(e),
                                Parsed::Done { value: more, used: further } => Parsed::Done {
                                    value: seq![arm] + more,
                                    used: 2 + used + further,
                                },
                            },
                        }
                    } else {
                        match match_arms(toks, after) {
                            Parsed::Failed(e) => Parsed::Failed(e),
                            Parsed::Done { value: more, used: further } => Parsed::Done {
                                value: seq![arm] + more,
                                used: 1 + used + further,
                            },
                        }
                    }
                },
            },
        }
    }
}

/// `(binding) => body`, after the constructor name of a match arm.
pub open spec fn arm_after_constructor(constructor: Seq<char>, toks: Seq<Lexeme>, i: int) -> Parsed<
    MatchArmView,
>
    decreases pending(toks, i), 25nat,
{
    match expect(toks, i, TokenView::LeftParen, "'('"@) {
        Parsed::Failed(e) => Parsed::Failed(e),
        Parsed::Done { .. } => match expect_identifier(toks, i + 1) {
            Parsed::Failed(e) => Parsed::Failed(e),
            Parsed::Done { value: binding, .. } => match expect(
                toks,
                i + 2,
                TokenView::RightParen,
                "')'"@,
            ) {
                Parsed::Failed(e) => Parsed::Failed(e),
                Parsed::Done { .. } => match expect(
                    toks,
                    i + 3,
                    TokenView::Arrow,
                    "'=>'"@,
                ) {
                    Parsed::Failed(e) => Parsed::Failed(e),
                    Parsed::Done { .. } => match parse_expression(toks, i + 4) {
                        Parsed::Failed(e) => Parsed::Failed(e),
                        Parsed::Done { value: body, used } => Parsed::Done {
                            value: MatchArmView { constructor, binding, body },
                            used: 4 + used,
                        },
                    },
                },
            },
        },
    }
}

/// A match arm: `Constructor(binding) => body`.
pub open spec fn match_arm(toks: Seq<Lexeme>, i: int) -> Parsed<MatchArmView> {
    match expect_identifier(toks, i) {
        Parsed::Failed(e) => Parsed::Failed(e),
        Parsed::Done { value: constructor, .. } => shift(
            arm_after_constructor(constructor, toks, i + 1),
            1,
        ),
    }
}

} // verus!

verus! {

/// `name: Type`
pub open spec fn parse_parameter(toks: Seq<Lexeme>, i: int) -> Parsed<ParameterView> {
    match expect_identifier(toks, i) {
        Parsed::Failed(e) => Parsed::Failed(e),
        Parsed::Done { value: name, .. } => match expect(toks, i + 1, TokenView::Colon, "':'"@) {
            Parsed::Failed(e) => Parsed::Failed(e),
            Parsed::Done { .. } => match parse_type(toks, i + 2) {
                Parsed::Failed(e) => Parsed::Failed(e),
                Parsed::Done { value: ty, .. } => Parsed::Done {
                    value: ParameterView { name, ty },
                    used: 3,
                },
            },
        },
    }
}

/// `name: Type`, optionally followed by `where` and a guard expression.
#[verifier::opaque]
pub open spec fn parse_parameter_with_guard(
    toks: Seq<Lexeme>,
    i: int,
) -> Parsed<GuardedParameterView> {
    match parse_parameter(toks, i) {
        Parsed::Failed(e) => Parsed::Failed(e),
        Parsed::Done { value: p, .. } => {
            let after = i + 3;
            if head(toks, after) == TokenView::Where {
                match take(toks, after) {
                    Parsed::Failed(e) => Parsed::Failed(e),
                    Parsed::Done { .. } => match parse_expression(toks, after + 1) {
                        Parsed::Failed(e) => Parsed::Failed(e),
                        Parsed::Done { value: guard, used } => Parsed::Done {
                            value: GuardedParameterView {
                                name: p.name,
                                ty: p.ty,
                                guard: Some(guard),
                            },
                            used: 4 + used,
                        },
                    },
                }
            } else {
                Parsed::Done {
                    value: GuardedParameterView { name: p.name, ty: p.ty, guard: None },
                    used: 3,
                }
            }
        },
    }
}

/// The parameters of a function up to its closing parenthesis, separated
/// by commas; a trailing comma is accepted.
pub open spec fn parameters(toks: Seq<Lexeme>, i: int) -> Parsed<Seq<GuardedParameterView>>
    decreases pending(toks, i),
{
    if head(toks, i) == TokenView::RightParen {
        Parsed::Done { value: Seq::empty(), used: 0 }
    } else {
        match parse_parameter_with_guard(toks, i) {
            Parsed::Failed(e) => Parsed::Failed(e),
            Parsed::Done { value, used } => {
                let after = i + used;
                if head(toks, after) == TokenView::Comma {
                    match take(toks, after) {
                        Parsed::Failed(e) => Parsed::Failed(e),
                        Parsed::Done { .. } => match parameters(toks, after + 1) {
                            Parsed::Failed(e) => Parsed::Failed(e),
                            Parsed::Done { value: more, used: further } => Parsed::Done {
                                value: seq![value] + more,
                                used: used + 1 + further,
                            },
                        },
                    }
                } else if head(toks, after) == TokenView::RightParen {
                    Parsed::Done { value: seq![value], used }
                } else {
                    Parsed::Failed(expected(toks, after, "',' or ')' after parameter"@))
                }
            },
        }
    }
}

/// `name(parameters) -> Type { body }`, after the keyword `fn` or
/// `method`.
pub open spec fn function_after_keyword(toks: Seq<Lexeme>, i: int) -> Parsed<FunctionDeclView> {
    match expect_identifier(toks, i) {
        Parsed::Failed(e) => Parsed::Failed(e),
        Parsed::Done { value: name, .. } => match expect(toks, i + 1, TokenView::LeftParen, "'('"@,
        ) {
            Parsed::Failed(e) => Parsed::Failed(e),
            Parsed::Done { .. } => {
                let inside = i + 2;
                match parameters(toks, inside) {
                    Parsed::Failed(e) => Parsed::Failed(e),
                    Parsed::Done { value: params, used: n } => function_after_parameters(
                        name,
                        params,
                        n,
                        toks,
                        inside + n,
                    ),
                }
            },
        }, }
}

/// `) -> Type { body }`, after the parameters of a function, which span
/// `n` tokens.
pub open spec fn function_after_parameters(
    name: Seq<char>,
    params: Seq<GuardedParameterView>,
    n: nat,
    toks: Seq<Lexeme>, i: int,
) -> Parsed<FunctionDeclView> {
    match expect(toks, i, TokenView::RightParen, "')'"@) {
        Parsed::Failed(e) => Parsed::Failed(e),
        Parsed::Done { .. } => match expect(toks, i + 1, TokenView::ReturnArrow, "'->'"@) {
            Parsed::Failed(e) => Parsed::Failed(e),
            Parsed::Done { .. } => match parse_type(toks, i + 2) {
                Parsed::Failed(e) => Parsed::Failed(e),
                Parsed::Done { value: return_type, .. } => match expect(
                    toks,
                    i + 3,
                    TokenView::LeftBrace,
                    "'{'"@,
                ) {
                    Parsed::Failed(e) => Parsed::Failed(e),
                    Parsed::Done { .. } => {
                        let at_body = i + 4;
                        match parse_expression(toks, at_body) {
                            Parsed::Failed(e) => Parsed::Failed(e),
                            Parsed::Done { value: body, used: m } => match expect(
                                toks,
                                at_body + m,
                                TokenView::RightBrace,
                                "'}'"@,
                            ) {
                                Parsed::Failed(e) => Parsed::Failed(e),
                                Parsed::Done { .. } => Parsed::Done {
                                    value: FunctionDeclView {
                                        name,
                                        parameters: params,
                                        return_type,
                                        body,
                                    },
                                    used: 7 + n + m,
                                },
                            },
                        }
                    },
                },
            },
        },
    }
}

/// `fn name(parameters) -> Type { body }`
pub open spec fn parse_function_declaration(toks: Seq<Lexeme>, i: int) -> Parsed<FunctionDeclView> {
    match expect(toks, i, TokenView::Fn, "'fn'"@) {
        Parsed::Failed(e) => Parsed::Failed(e),
        Parsed::Done { .. } => shift(function_after_keyword(toks, i + 1), 1),
    }
}

/// `method name(parameters) -> Type { body }`
pub open spec fn parse_method_declaration(toks: Seq<Lexeme>, i: int) -> Parsed<FunctionDeclView> {
    match expect(toks, i, TokenView::Method, "'method'"@) {
        Parsed::Failed(e) => Parsed::Failed(e),
        Parsed::Done { .. } => shift(function_after_keyword(toks, i + 1), 1),
    }
}

/// The token after a clause of a value body: past an optional comma.
pub open spec fn after_clause(toks: Seq<Lexeme>, i: int) -> Parsed<()> {
    if head(toks, i) == TokenView::Comma {
        take(toks, i)
    } else {
        Parsed::Done { value: (), used: 0 }
    }
}

/// A clause of a value body that holds an expression: the keyword, a
/// colon, the expression and an optional comma.
pub open spec fn clause_expression(toks: Seq<Lexeme>, i: int) -> Parsed<ExprView> {
    match take(toks, i) {
        Parsed::Failed(e) => Parsed::Failed(e),
        Parsed::Done { .. } => match expect(toks, i + 1, TokenView::Colon, "':'"@) {
            Parsed::Failed(e) => Parsed::Failed(e),
            Parsed::Done { .. } => match parse_expression(toks, i + 2) {
                Parsed::Failed(e) => Parsed::Failed(e),
                Parsed::Done { value, used } => match after_clause(toks, i + 2 + used) {
                    Parsed::Failed(e) => Parsed::Failed(e),
                    Parsed::Done { used: comma, .. } => Parsed::Done {
                        value,
                        used: 2 + used + comma,
                    },
                },
            },
        },
    }
}

/// A clause of a value body that holds a boolean: the keyword, a colon,
/// `true` or `false`, and an optional comma.
pub open spec fn clause_boolean(toks: Seq<Lexeme>, i: int) -> Parsed<bool> {
    match take(toks, i) {
        Parsed::Failed(e) => Parsed::Failed(e),
        Parsed::Done { .. } => match expect(toks, i + 1, TokenView::Colon, "':'"@) {
            Parsed::Failed(e) => Parsed::Failed(e),
            Parsed::Done { .. } => match parse_boolean(toks, i + 2) {
                Parsed::Failed(e) => Parsed::Failed(e),
                Parsed::Done { value, used } => match after_clause(toks, i + 2 + used) {
                    Parsed::Failed(e) => Parsed::Failed(e),
                    Parsed::Done { used: comma, .. } => Parsed::Done {
                        value,
                        used: 2 + used + comma,
                    },
                },
            },
        },
    }
}

/// The clauses of a value body up to its closing brace, in any order, each
/// at most once; `body` holds the clauses read so far.
pub open spec fn value_clauses(toks: Seq<Lexeme>, i: int, body: ValueBodyView) -> Parsed<
    ValueBodyView,
>
    decreases pending(toks, i),
{
    match head(toks, i) {
        TokenView::RightBrace => Parsed::Done { value: body, used: 0 },
        TokenView::Validate => if body.validate is Some {
            Parsed::Failed(expected(toks, i, "at most one 'validate' clause"@))
        } else {
            match clause_expression(toks, i) {
                Parsed::Failed(e) => Parsed::Failed(e),
                Parsed::Done { value, used } => shift(
                    value_clauses(toks, i + used, ValueBodyView { validate: Some(value), ..body }),
                    used,
                ),
            }
        },
        TokenView::Normalize => if body.normalize is Some {
            Parsed::Failed(expected(toks, i, "at most one 'normalize' clause"@))
        } else {
            match clause_expression(toks, i) {
                Parsed::Failed(e) => Parsed::Failed(e),
                Parsed::Done { value, used } => shift(
                    value_clauses(toks, i + used, ValueBodyView { normalize: Some(value), ..body }),
                    used,
                ),
            }
        },
        TokenView::Unique => if body.unique is Some {
            Parsed::Failed(expected(toks, i, "at most one 'unique' clause"@))
        } else {
            match clause_boolean(toks, i) {
                Parsed::Failed(e) => Parsed::Failed(e),
                Parsed::Done { value, used } => shift(
                    value_clauses(toks, i + used, ValueBodyView { unique: Some(value), ..body }),
                    used,
                ),
            }
        },
        _ => Parsed::Failed(expected(toks, i, "'validate', 'normalize', or 'unique'"@)),
    }
}

/// The body of a value declaration, between its braces.
pub open spec fn parse_value_body(toks: Seq<Lexeme>, i: int) -> Parsed<ValueBodyView> {
    value_clauses(toks, i, ValueBodyView { validate: None, normalize: None, unique: None })
}

/// `value Name(param: Type) { clauses }`
pub open spec fn parse_value_declaration(toks: Seq<Lexeme>, i: int) -> Parsed<ValueDeclView> {
    match expect(toks, i, TokenView::Value, "'value'"@) {
        Parsed::Failed(e) => Parsed::Failed(e),
        Parsed::Done { .. } => match expect_identifier(toks, i + 1) {
            Parsed::Failed(e) => Parsed::Failed(e),
            Parsed::Done { value: name, .. } => match expect(
                toks,
                i + 2,
                TokenView::LeftParen,
                "'('"@,
            ) {
                Parsed::Failed(e) => Parsed::Failed(e),
                Parsed::Done { .. } => {
                    let at_parameter = i + 3;
                    match parse_parameter(toks, at_parameter) {
                        Parsed::Failed(e) => Parsed::Failed(e),
                        Parsed::Done { value: parameter, .. } => value_after_parameter(
                            name,
                            parameter,
                            toks,
                            at_parameter + 3,
                        ),
                    }
                },
            }, },
    }
}

/// `) { clauses }`, after the parameter of a value declaration; the span
/// counts the six tokens before.
pub open spec fn value_after_parameter(
    name: Seq<char>,
    parameter: ParameterView,
    toks: Seq<Lexeme>, i: int,
) -> Parsed<ValueDeclView> {
    match expect(toks, i, TokenView::RightParen, "')'"@) {
        Parsed::Failed(e) => Parsed::Failed(e),
        Parsed::Done { .. } => match expect(toks, i + 1, TokenView::LeftBrace, "'{'"@) {
            Parsed::Failed(e) => Parsed::Failed(e),
            Parsed::Done { .. } => {
                let inside = i + 2;
                match parse_value_body(toks, inside) {
                    Parsed::Failed(e) => Parsed::Failed(e),
                    Parsed::Done { value: body, used } => match expect(
                        toks,
                        inside + used,
                        TokenView::RightBrace,
                        "'}'"@,
                    ) {
                        Parsed::Failed(e) => Parsed::Failed(e),
                        Parsed::Done { .. } => Parsed::Done {
                            value: ValueDeclView { name, parameter, body },
                            used: 9 + used,
                        },
                    },
                }
            },
        },
    }
}

/// A declaration: a value type, or a function written with `fn` or with
/// `method`, which is the same thing.
#[verifier::opaque]
pub open spec fn parse_declaration(toks: Seq<Lexeme>, i: int) -> Parsed<DeclarationView> {
    match head(toks, i) {
        TokenView::Value => match parse_value_declaration(toks, i) {
            Parsed::Failed(e) => Parsed::Failed(e),
            Parsed::Done { value, used } => Parsed::Done {
                value: DeclarationView::Value(value),
                used,
            },
        },
        TokenView::Fn => match parse_function_declaration(toks, i) {
            Parsed::Failed(e) => Parsed::Failed(e),
            Parsed::Done { value, used } => Parsed::Done {
                value: DeclarationView::Function(value),
                used,
            },
        },
        TokenView::Method => match parse_method_declaration(toks, i) {
            Parsed::Failed(e) => Parsed::Failed(e),
            Parsed::Done { value, used } => Parsed::Done {
                value: DeclarationView::Function(value),
                used,
            },
        },
        _ => Parsed::Failed(expected(toks, i, "'value', 'fn', or 'method'"@)),
    }
}

/// Declarations up to the end of the input.
pub open spec fn declarations(toks: Seq<Lexeme>, i: int) -> Parsed<Seq<DeclarationView>>
    decreases pending(toks, i),
{
    if head(toks, i) == TokenView::Eof {
        Parsed::Done { value: Seq::empty(), used: 0 }
    } else {
        match parse_declaration(toks, i) {
            Parsed::Failed(e) => Parsed::Failed(e),
            Parsed::Done { value, used } => {
                proof {
                    reveal(parse_declaration);
                }
                match declarations(toks, i + used) {
                    Parsed::Failed(e) => Parsed::Failed(e),
                    Parsed::Done { value: more, used: further } => Parsed::Done {
                        value: seq![value] + more,
                        used: used + further,
                    },
                }
            },
        }
    }
}

/// A program: declarations up to the end of the input.
pub open spec fn parse_program(toks: Seq<Lexeme>, i: int) -> Parsed<ProgramView> {
    match declarations(toks, i) {
        Parsed::Failed(e) => Parsed::Failed(e),
        Parsed::Done { value, used } => Parsed::Done {
            value: ProgramView { declarations: value },
            used,
        },
    }
}

/// The lexer error in a fault.
pub open spec fn lexer_fault(chars: Seq<char>, message: Seq<char>, at: int) -> ErrorView {
    ErrorView::Lexer {
        message,
        line: crate::scanning::line_at(chars, at),
        column: crate::scanning::column_at(chars, at),
    }
}

/// The tokens of a source text from `pos` on: up to and including the end
/// of the input, or the first lexer error.
pub open spec fn stream(chars: Seq<char>, pos: int) -> Seq<Lexeme>
    decreases chars.len() - pos,
{
    if pos < 0 || pos > chars.len() {
        Seq::empty()
    } else {
        match next_token_at(chars, pos) {
            Scan::Fault { message, at } => seq![Lexeme::Bad(lexer_fault(chars, message, at))],
            Scan::Token { token, start, end } => {
                let first = Lexeme::Token {
                    token,
                    line: crate::scanning::line_at(chars, start),
                    column: crate::scanning::column_at(chars, start),
                };
                if token is Eof {
                    seq![first]
                } else {
                    proof {
                        crate::scanning::lemma_token_advances(chars, pos);
                    }
                    seq![first] + stream(chars, end)
                }
            },
        }
    }
}

} // verus!
