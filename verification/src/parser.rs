//! The precedence-climbing parser: it computes the grammar with one token
//! of lookahead.

use crate::ast::{
    BinaryOp, ComparisonOp, Declaration, DeclarationView, Expression, ExprView, FunctionDeclaration,
    GuardedParameterView, Literal, MatchArm, MatchArmView, MethodDeclaration, Parameter,
    ParameterWithGuard, Pattern, Program, UnaryOp, ValueBody, ValueDeclaration,
};
use crate::error::Error;
use crate::grammar::{
    arguments, call_arguments, combine, declarations, expect, expect_identifier, expected,
    function_after_keyword, Infix, infix_at, level_tail, Lexeme, literal, match_arm, match_arms,
    parameters, parse_boolean, parse_declaration, parse_expression, parse_function_declaration,
    parse_let, parse_level, parse_match, parse_method_declaration, parse_parameter,
    parse_parameter_with_guard, parse_postfix, parse_primary, parse_program, parse_type,
    parse_unary, parse_value_body, parse_value_declaration, Parsed, pending, postfix_tail, shift,
    stream, take, value_clauses,
};
use crate::lexer::{Lexer, Token};
use crate::scanning::TokenView;
use crate::types::Type;
use vstd::prelude::*;
use vstd::string::*;

verus! {

/// Whether the outcome `r` of an executable parser and the stream that it
/// leaves are what the grammar says of the stream that it found.
pub open spec fn parsed_as<T: View>(
    grammar: Parsed<T::V>,
    r: Result<T, Error>,
    before: int,
    after: int,
) -> bool {
    match grammar {
        Parsed::Done { value, used } => r matches Ok(v) && v@ == value && after == before + used,
        Parsed::Failed(e) => r matches Err(x) && x@ == e,
    }
}

/// The parser: a lexer and the one token of lookahead.
pub struct Parser {
    lexer: Lexer,
    pub current_token: Token,
    line: usize,
    column: usize,
    tokens: Ghost<Seq<Lexeme>>,
    index: Ghost<int>,
}

impl Parser {
    /// The token stream that the parser works through: the tokens of the
    /// source from where the parser was made.
    pub closed spec fn tokens(&self) -> Seq<Lexeme> {
        self.tokens@
    }

    /// The index of the current token in the stream.
    pub closed spec fn index(&self) -> int {
        self.index@
    }

    /// The current token is the token at the index, and the lexer stands
    /// right after it.
    pub closed spec fn wf(&self) -> bool {
        &&& self.lexer.wf()
        &&& 0 <= self.lexer.position() <= self.lexer.source().len()
        &&& 0 <= self.index@ < self.tokens@.len()
        &&& self.tokens@[self.index@] == (Lexeme::Token {
            token: self.current_token@,
            line: self.line as nat,
            column: self.column as nat,
        })
        &&& if self.current_token@ is Eof {
            self.index@ + 1 == self.tokens@.len()
        } else {
            self.tokens@.skip(self.index@ + 1) == stream(
                self.lexer.source(),
                self.lexer.position(),
            )
        }
    }

    /// A parser at the first token of what the lexer has left, or the
    /// lexer error that stands there.
    pub fn new(lexer: Lexer) -> (r: Result<Parser, Error>)
        requires
            lexer.wf(),
        ensures
            match stream(lexer.source(), lexer.position())[0] {
                Lexeme::Bad(e) => r matches Err(x) && x@ == e,
                Lexeme::Token { .. } => r matches Ok(p) && p.wf() && p.index() == 0 && p.tokens()
                    == stream(lexer.source(), lexer.position()),
            },
    {
        let ghost tokens = stream(lexer.source(), lexer.position());
        let mut lexer = lexer;
        proof {
            lexer.lemma_in_bounds();
            crate::scanning::lemma_token_advances(lexer.source(), lexer.position());
        }
        let current_token = match lexer.next_token() {
            Ok(t) => t,
            Err(e) => {
                return Err(e);
            },
        };
        let line = lexer.token_line();
        let column = lexer.token_column();
        proof {
            if !(current_token@ is Eof) {
                assert(tokens.skip(1) =~= stream(lexer.source(), lexer.position()));
            }
        }
        Ok(Parser { lexer, current_token, line, column, tokens: Ghost(tokens), index: Ghost(0) })
    }

    fn error_here<T>(&self, what: &str) -> (r: Result<T, Error>)
        requires
            self.wf(),
        ensures
            r matches Err(x) && x@ == expected(self.tokens(), self.index(), what@),
    {
        Err(Error::parser(crate::text::concat2("Expected ", what), self.line, self.column))
    }

    /// Moves past the current token, which is not the end of the input.
    fn advance(&mut self) -> (r: Result<(), Error>)
        requires
            old(self).wf(),
            !(old(self).current_token@ is Eof),
        ensures
            parsed_as::<()>(
                take(old(self).tokens(), old(self).index()),
                r,
                old(self).index(),
                final(self).index(),
            ),
            final(self).tokens() == old(self).tokens(),
            r is Ok ==> final(self).wf(),
    {
        let ghost following = stream(self.lexer.source(), self.lexer.position());
        proof {
            crate::scanning::lemma_token_advances(self.lexer.source(), self.lexer.position());
            assert(following.len() >= 1);
            assert(self.tokens@.skip(self.index@ + 1).len() == following.len());
            assert(self.tokens@.skip(self.index@ + 1)[0] == self.tokens@[self.index@ + 1]);
        }
        let token = match self.lexer.next_token() {
            Ok(t) => t,
            Err(e) => {
                return Err(e);
            },
        };
        self.current_token = token;
        self.line = self.lexer.token_line();
        self.column = self.lexer.token_column();
        proof {
            self.index@ = self.index@ + 1;
            if !(self.current_token@ is Eof) {
                assert(self.tokens@.skip(self.index@ + 1) =~= following.skip(1));
                assert(following.skip(1) =~= stream(
                    self.lexer.source(),
                    self.lexer.position(),
                ));
            } else {
                assert(following.len() == 1);
                assert(self.tokens@.skip(self.index@).len() == 1);
            }
        }
        Ok(())
    }

    /// Moves past the current token, which must be `expected`; `what`
    /// names it in the error.
    fn expect(&mut self, expected: Token, what: &str) -> (r: Result<(), Error>)
        requires
            old(self).wf(),
            !(expected@ is Eof),
        ensures
            parsed_as::<()>(
                expect(old(self).tokens(), old(self).index(), expected@, what@),
                r,
                old(self).index(),
                final(self).index(),
            ),
            final(self).tokens() == old(self).tokens(),
            r is Ok ==> final(self).wf(),
    {
        if crate::lexer::token_equals(&self.current_token, &expected) {
            self.advance()
        } else {
            self.error_here(what)
        }
    }

    /// Moves past the current token, which must be an identifier, and
    /// returns its name.
    fn expect_identifier(&mut self) -> (r: Result<String, Error>)
        requires
            old(self).wf(),
        ensures
            parsed_as::<String>(
                expect_identifier(old(self).tokens(), old(self).index()),
                r,
                old(self).index(),
                final(self).index(),
            ),
            final(self).tokens() == old(self).tokens(),
            r is Ok ==> final(self).wf(),
    {
        let name = match &self.current_token {
            Token::Identifier(name) => name.clone(),
            _ => {
                return self.error_here("identifier");
            },
        };
        match self.advance() {
            Ok(_) => Ok(name),
            Err(e) => Err(e),
        }
    }

    fn parse_type(&mut self) -> (r: Result<Type, Error>)
        requires
            old(self).wf(),
        ensures
            parsed_as::<Type>(
                parse_type(old(self).tokens(), old(self).index()),
                r,
                old(self).index(),
                final(self).index(),
            ),
            final(self).tokens() == old(self).tokens(),
            r is Ok ==> final(self).wf(),
    {
        let ty = match &self.current_token {
            Token::Identifier(name) => {
                if crate::text::str_equal(name.as_str(), "String") {
                    Type::String
                } else if crate::text::str_equal(name.as_str(), "Int") {
                    Type::Int
                } else if crate::text::str_equal(name.as_str(), "Bool") {
                    Type::Bool
                } else if crate::text::str_equal(name.as_str(), "Any") {
                    Type::Any
                } else {
                    Type::Value(name.clone())
                }
            },
            _ => {
                return self.error_here("type name");
            },
        };
        match self.advance() {
            Ok(_) => Ok(ty),
            Err(e) => Err(e),
        }
    }

    fn parse_boolean(&mut self) -> (r: Result<bool, Error>)
        requires
            old(self).wf(),
        ensures
            parsed_as::<bool>(
                parse_boolean(old(self).tokens(), old(self).index()),
                r,
                old(self).index(),
                final(self).index(),
            ),
            final(self).tokens() == old(self).tokens(),
            r is Ok ==> final(self).wf(),
    {
        let value = match &self.current_token {
            Token::True => true,
            Token::False => false,
            _ => {
                return self.error_here("boolean value");
            },
        };
        match self.advance() {
            Ok(_) => Ok(value),
            Err(e) => Err(e),
        }
    }
}

} // verus!

verus! {

fn infix_of(level: u8, token: &Token) -> (r: Option<Infix>)
    ensures
        r == infix_at(level as nat, token@),
{
    if level == 5 {
        match token {
            Token::Pipeline => Some(Infix::Pipeline),
            _ => None,
        }
    } else if level == 4 {
        match token {
            Token::Or => Some(Infix::Binary(BinaryOp::Or)),
            _ => None,
        }
    } else if level == 3 {
        match token {
            Token::And => Some(Infix::Binary(BinaryOp::And)),
            _ => None,
        }
    } else if level == 2 {
        match token {
            Token::Equal => Some(Infix::Comparison(ComparisonOp::Equal)),
            Token::NotEqual => Some(Infix::Comparison(ComparisonOp::NotEqual)),
            Token::Less => Some(Infix::Comparison(ComparisonOp::Less)),
            Token::Greater => Some(Infix::Comparison(ComparisonOp::Greater)),
            Token::LessEqual => Some(Infix::Comparison(ComparisonOp::LessEqual)),
            Token::GreaterEqual => Some(Infix::Comparison(ComparisonOp::GreaterEqual)),
            Token::Contains => Some(Infix::Comparison(ComparisonOp::Contains)),
            _ => None,
        }
    } else if level == 1 {
        match token {
            Token::Plus => Some(Infix::Binary(BinaryOp::Add)),
            Token::Minus => Some(Infix::Binary(BinaryOp::Subtract)),
            _ => None,
        }
    } else if level == 0 {
        match token {
            Token::Star => Some(Infix::Binary(BinaryOp::Multiply)),
            Token::Slash => Some(Infix::Binary(BinaryOp::Divide)),
            Token::Percent => Some(Infix::Binary(BinaryOp::Modulo)),
            _ => None,
        }
    } else {
        None
    }
}

fn join(op: Infix, left: Expression, right: Expression) -> (r: Expression)
    ensures
        r@ == combine(op, left@, right@),
{
    match op {
        Infix::Pipeline => Expression::Pipeline(Box::new(left), Box::new(right)),
        Infix::Binary(b) => Expression::Binary(b, Box::new(left), Box::new(right)),
        Infix::Comparison(c) => Expression::Comparison(c, Box::new(left), Box::new(right)),
    }
}

/// Whether the outcome `r` of an executable parser of a list and the
/// stream that it leaves are what the grammar says.
pub open spec fn parsed_expressions(
    grammar: Parsed<Seq<ExprView>>,
    r: Result<Vec<Expression>, Error>,
    before: int,
    after: int,
) -> bool {
    match grammar {
        Parsed::Done { value, used } => r matches Ok(v) && crate::ast::exprs_view(v@) == value
            && after == before + used,
        Parsed::Failed(e) => r matches Err(x) && x@ == e,
    }
}

/// Whether the outcome `r` of an executable parser of match arms and the
/// index that it leaves are what the grammar says.
pub open spec fn parsed_arms(
    grammar: Parsed<Seq<MatchArmView>>,
    r: Result<Vec<MatchArm>, Error>,
    before: int,
    after: int,
) -> bool {
    match grammar {
        Parsed::Done { value, used } => r matches Ok(v) && crate::ast::arms_view(v@) == value
            && after == before + used,
        Parsed::Failed(e) => r matches Err(x) && x@ == e,
    }
}

impl Parser {
    /// Parses an expression.
    pub fn parse_expression(&mut self) -> (r: Result<Expression, Error>)
        requires
            old(self).wf(),
        ensures
            parsed_as::<Expression>(
                parse_expression(old(self).tokens(), old(self).index()),
                r,
                old(self).index(),
                final(self).index(),
            ),
            final(self).tokens() == old(self).tokens(),
            r is Ok ==> final(self).wf(),
        decreases pending(old(self).tokens(), old(self).index()), 35nat,
    {
        self.parse_pipeline_expression()
    }

    /// Parses operands joined by `|>`.
    fn parse_pipeline_expression(&mut self) -> (r: Result<Expression, Error>)
        requires
            old(self).wf(),
        ensures
            parsed_as::<Expression>(
                parse_level(5, old(self).tokens(), old(self).index()),
                r,
                old(self).index(),
                final(self).index(),
            ),
            final(self).tokens() == old(self).tokens(),
            r is Ok ==> final(self).wf(),
        decreases pending(old(self).tokens(), old(self).index()), 34nat,
    {
        self.parse_binary_level(5)
    }

    /// Parses operands joined by `||`.
    fn parse_or_expression(&mut self) -> (r: Result<Expression, Error>)
        requires
            old(self).wf(),
        ensures
            parsed_as::<Expression>(
                parse_level(4, old(self).tokens(), old(self).index()),
                r,
                old(self).index(),
                final(self).index(),
            ),
            final(self).tokens() == old(self).tokens(),
            r is Ok ==> final(self).wf(),
        decreases pending(old(self).tokens(), old(self).index()), 30nat,
    {
        self.parse_binary_level(4)
    }

    /// Parses operands joined by `&&`.
    fn parse_and_expression(&mut self) -> (r: Result<Expression, Error>)
        requires
            old(self).wf(),
        ensures
            parsed_as::<Expression>(
                parse_level(3, old(self).tokens(), old(self).index()),
                r,
                old(self).index(),
                final(self).index(),
            ),
            final(self).tokens() == old(self).tokens(),
            r is Ok ==> final(self).wf(),
        decreases pending(old(self).tokens(), old(self).index()), 26nat,
    {
        self.parse_binary_level(3)
    }

    /// Parses operands joined by comparison operators.
    fn parse_comparison_expression(&mut self) -> (r: Result<Expression, Error>)
        requires
            old(self).wf(),
        ensures
            parsed_as::<Expression>(
                parse_level(2, old(self).tokens(), old(self).index()),
                r,
                old(self).index(),
                final(self).index(),
            ),
            final(self).tokens() == old(self).tokens(),
            r is Ok ==> final(self).wf(),
        decreases pending(old(self).tokens(), old(self).index()), 22nat,
    {
        self.parse_binary_level(2)
    }

    /// Parses operands joined by `+` and `-`.
    fn parse_additive_expression(&mut self) -> (r: Result<Expression, Error>)
        requires
            old(self).wf(),
        ensures
            parsed_as::<Expression>(
                parse_level(1, old(self).tokens(), old(self).index()),
                r,
                old(self).index(),
                final(self).index(),
            ),
            final(self).tokens() == old(self).tokens(),
            r is Ok ==> final(self).wf(),
        decreases pending(old(self).tokens(), old(self).index()), 18nat,
    {
        self.parse_binary_level(1)
    }

    /// Parses operands joined by `*`, `/` and `%`.
    fn parse_multiplicative_expression(&mut self) -> (r: Result<Expression, Error>)
        requires
            old(self).wf(),
        ensures
            parsed_as::<Expression>(
                parse_level(0, old(self).tokens(), old(self).index()),
                r,
                old(self).index(),
                final(self).index(),
            ),
            final(self).tokens() == old(self).tokens(),
            r is Ok ==> final(self).wf(),
        decreases pending(old(self).tokens(), old(self).index()), 14nat,
    {
        self.parse_binary_level(0)
    }

    /// Parses an expression of a precedence level.
    fn parse_binary_level(&mut self, level: u8) -> (r: Result<Expression, Error>)
        requires
            old(self).wf(),
            level <= 5,
        ensures
            parsed_as::<Expression>(
                parse_level(level as nat, old(self).tokens(), old(self).index()),
                r,
                old(self).index(),
                final(self).index(),
            ),
            final(self).tokens() == old(self).tokens(),
            r is Ok ==> final(self).wf(),
        decreases pending(old(self).tokens(), old(self).index()), 13 + 4 * level,
    {
        let first = self.parse_operand(level);
        match first {
            Err(e) => Err(e),
            Ok(left) => self.parse_level_tail(level, left),
        }
    }

    /// Parses an operand of a precedence level: an expression of the next
    /// tighter level.
    fn parse_operand(&mut self, level: u8) -> (r: Result<Expression, Error>)
        requires
            old(self).wf(),
            level <= 5,
        ensures
            parsed_as::<Expression>(
                if level == 0 {
                    parse_unary(old(self).tokens(), old(self).index())
                } else {
                    parse_level((level - 1) as nat, old(self).tokens(), old(self).index())
                },
                r,
                old(self).index(),
                final(self).index(),
            ),
            final(self).tokens() == old(self).tokens(),
            r is Ok ==> final(self).wf(),
        decreases pending(old(self).tokens(), old(self).index()), 11 + 4 * level,
    {
        if level == 5 {
            self.parse_or_expression()
        } else if level == 4 {
            self.parse_and_expression()
        } else if level == 3 {
            self.parse_comparison_expression()
        } else if level == 2 {
            self.parse_additive_expression()
        } else if level == 1 {
            self.parse_multiplicative_expression()
        } else {
            self.parse_unary_expression()
        }
    }

    /// Parses the operators of a level and their right operands.
    fn parse_level_tail(&mut self, level: u8, left: Expression) -> (r: Result<Expression, Error>)
        requires
            old(self).wf(),
            level <= 5,
        ensures
            parsed_as::<Expression>(
                level_tail(level as nat, left@, old(self).tokens(), old(self).index()),
                r,
                old(self).index(),
                final(self).index(),
            ),
            final(self).tokens() == old(self).tokens(),
            r is Ok ==> final(self).wf(),
        decreases pending(old(self).tokens(), old(self).index()), 12 + 4 * level,
    {
        match infix_of(level, &self.current_token) {
            None => {
                Ok(left)
            },
            Some(op) => {
                match self.advance() {
                    Err(e) => {
                        return Err(e);
                    },
                    Ok(_) => {},
                }
                let operand = self.parse_operand(level);
                match operand {
                    Err(e) => Err(e),
                    Ok(right) => self.parse_level_tail(level, join(op, left, right)),
                }
            },
        }
    }

    fn parse_unary_expression(&mut self) -> (r: Result<Expression, Error>)
        requires
            old(self).wf(),
        ensures
            parsed_as::<Expression>(
                parse_unary(old(self).tokens(), old(self).index()),
                r,
                old(self).index(),
                final(self).index(),
            ),
            final(self).tokens() == old(self).tokens(),
            r is Ok ==> final(self).wf(),
        decreases pending(old(self).tokens(), old(self).index()), 9nat,
    {
        let op = match &self.current_token {
            Token::Not => UnaryOp::Not,
            Token::Minus => UnaryOp::Minus,
            _ => {
                return self.parse_postfix_expression();
            },
        };
        match self.advance() {
            Err(e) => {
                return Err(e);
            },
            Ok(_) => {},
        }
        match self.parse_unary_expression() {
            Err(e) => Err(e),
            Ok(operand) => Ok(Expression::Unary(op, Box::new(operand))),
        }
    }

    fn parse_postfix_expression(&mut self) -> (r: Result<Expression, Error>)
        requires
            old(self).wf(),
        ensures
            parsed_as::<Expression>(
                parse_postfix(old(self).tokens(), old(self).index()),
                r,
                old(self).index(),
                final(self).index(),
            ),
            final(self).tokens() == old(self).tokens(),
            r is Ok ==> final(self).wf(),
        decreases pending(old(self).tokens(), old(self).index()), 8nat,
    {
        match self.parse_primary_expression() {
            Err(e) => Err(e),
            Ok(object) => self.parse_postfix_tail(object),
        }
    }

    fn parse_postfix_tail(&mut self, object: Expression) -> (r: Result<Expression, Error>)
        requires
            old(self).wf(),
        ensures
            parsed_as::<Expression>(
                postfix_tail(object@, old(self).tokens(), old(self).index()),
                r,
                old(self).index(),
                final(self).index(),
            ),
            final(self).tokens() == old(self).tokens(),
            r is Ok ==> final(self).wf(),
        decreases pending(old(self).tokens(), old(self).index()), 7nat,
    {
        match &self.current_token {
            Token::Dot => {},
            _ => {
                return Ok(object);
            },
        }
        match self.advance() {
            Err(e) => {
                return Err(e);
            },
            Ok(_) => {},
        }
        let member = match self.expect_identifier() {
            Err(e) => {
                return Err(e);
            },
            Ok(m) => m,
        };
        match &self.current_token {
            Token::LeftParen => {
                let args = match self.parse_call_arguments() {
                    Err(e) => {
                        return Err(e);
                    },
                    Ok(a) => a,
                };
                self.parse_postfix_tail(Expression::MethodCall(Box::new(object), member, args))
            },
            _ => self.parse_postfix_tail(Expression::MemberAccess(Box::new(object), member)),
        }
    }

    fn parse_call_arguments(&mut self) -> (r: Result<Vec<Expression>, Error>)
        requires
            old(self).wf(),
        ensures
            parsed_expressions(
                call_arguments(old(self).tokens(), old(self).index()),
                r,
                old(self).index(),
                final(self).index(),
            ),
            final(self).tokens() == old(self).tokens(),
            r is Ok ==> final(self).wf(),
        decreases pending(old(self).tokens(), old(self).index()), 45nat,
    {
        match self.expect(Token::LeftParen, "'('") {
            Err(e) => {
                return Err(e);
            },
            Ok(_) => {},
        }
        match &self.current_token {
            Token::RightParen => {
                match self.advance() {
                    Err(e) => Err(e),
                    Ok(_) => {
                        let empty: Vec<Expression> = Vec::new();
                        assert(crate::ast::exprs_view(empty@) =~= Seq::<ExprView>::empty());
                        Ok(empty)
                    },
                }
            },
            _ => {
                let args = match self.parse_arguments() {
                    Err(e) => {
                        return Err(e);
                    },
                    Ok(a) => a,
                };
                match self.expect(Token::RightParen, "')'") {
                    Err(e) => Err(e),
                    Ok(_) => Ok(args),
                }
            },
        }
    }

    fn parse_arguments(&mut self) -> (r: Result<Vec<Expression>, Error>)
        requires
            old(self).wf(),
        ensures
            parsed_expressions(
                arguments(old(self).tokens(), old(self).index()),
                r,
                old(self).index(),
                final(self).index(),
            ),
            final(self).tokens() == old(self).tokens(),
            r is Ok ==> final(self).wf(),
        decreases pending(old(self).tokens(), old(self).index()), 43nat,
    {
        let first = match self.parse_expression() {
            Err(e) => {
                return Err(e);
            },
            Ok(x) => x,
        };
        match &self.current_token {
            Token::Comma => {
                match self.advance() {
                    Err(e) => {
                        return Err(e);
                    },
                    Ok(_) => {},
                }
                match self.parse_arguments() {
                    Err(e) => Err(e),
                    Ok(more) => {
                        let mut all = more;
                        all.insert(0, first);
                        assert(crate::ast::exprs_view(all@) =~= seq![first@]
                            + crate::ast::exprs_view(more@));
                        Ok(all)
                    },
                }
            },
            _ => {
                let mut all: Vec<Expression> = Vec::new();
                all.push(first);
                assert(crate::ast::exprs_view(all@) =~= seq![first@]);
                Ok(all)
            },
        }
    }

    fn literal(&mut self, l: Literal) -> (r: Result<Expression, Error>)
        requires
            old(self).wf(),
            !(old(self).current_token@ is Eof),
        ensures
            parsed_as::<Expression>(
                literal(old(self).tokens(), old(self).index(), l@),
                r,
                old(self).index(),
                final(self).index(),
            ),
            final(self).tokens() == old(self).tokens(),
            r is Ok ==> final(self).wf(),
    {
        match self.advance() {
            Err(e) => Err(e),
            Ok(_) => Ok(Expression::Literal(l)),
        }
    }

    fn parse_primary_expression(&mut self) -> (r: Result<Expression, Error>)
        requires
            old(self).wf(),
        ensures
            parsed_as::<Expression>(
                parse_primary(old(self).tokens(), old(self).index()),
                r,
                old(self).index(),
                final(self).index(),
            ),
            final(self).tokens() == old(self).tokens(),
            r is Ok ==> final(self).wf(),
        decreases pending(old(self).tokens(), old(self).index()), 6nat,
    {
        match &self.current_token {
            Token::String(s) => {
                let l = Literal::String(s.clone());
                self.literal(l)
            },
            Token::Integer(n) => {
                let l = Literal::Integer(*n);
                self.literal(l)
            },
            Token::True => self.literal(Literal::Boolean(true)),
            Token::False => self.literal(Literal::Boolean(false)),
            Token::Identifier(name) => {
                let name = name.clone();
                self.parse_name(name)
            },
            Token::LeftParen => self.parse_parenthesized(),
            Token::Let => {
                match self.advance() {
                    Err(e) => Err(e),
                    Ok(_) => self.parse_let(),
                }
            },
            Token::Match => {
                match self.advance() {
                    Err(e) => Err(e),
                    Ok(_) => self.parse_match(),
                }
            },
            _ => self.error_here("expression"),
        }
    }

    fn parse_name(&mut self, name: String) -> (r: Result<Expression, Error>)
        requires
            old(self).wf(),
            old(self).current_token@ == TokenView::Identifier(name@),
        ensures
            parsed_as::<Expression>(
                parse_primary(old(self).tokens(), old(self).index()),
                r,
                old(self).index(),
                final(self).index(),
            ),
            final(self).tokens() == old(self).tokens(),
            r is Ok ==> final(self).wf(),
        decreases pending(old(self).tokens(), old(self).index()), 5nat,
    {
        match self.advance() {
            Err(e) => {
                return Err(e);
            },
            Ok(_) => {},
        }
        match &self.current_token {
            Token::LeftParen => {
                match self.parse_call_arguments() {
                    Err(e) => Err(e),
                    Ok(args) => Ok(Expression::FunctionCall(name, args)),
                }
            },
            _ => Ok(Expression::Identifier(name)),
        }
    }

    fn parse_parenthesized(&mut self) -> (r: Result<Expression, Error>)
        requires
            old(self).wf(),
            old(self).current_token@ is LeftParen,
        ensures
            parsed_as::<Expression>(
                parse_primary(old(self).tokens(), old(self).index()),
                r,
                old(self).index(),
                final(self).index(),
            ),
            final(self).tokens() == old(self).tokens(),
            r is Ok ==> final(self).wf(),
        decreases pending(old(self).tokens(), old(self).index()), 5nat,
    {
        match self.advance() {
            Err(e) => {
                return Err(e);
            },
            Ok(_) => {},
        }
        let inner = match self.parse_expression() {
            Err(e) => {
                return Err(e);
            },
            Ok(x) => x,
        };
        match self.expect(Token::RightParen, "')'") {
            Err(e) => Err(e),
            Ok(_) => Ok(inner),
        }
    }

    fn parse_let(&mut self) -> (r: Result<Expression, Error>)
        requires
            old(self).wf(),
        ensures
            parsed_as::<Expression>(
                parse_let(old(self).tokens(), old(self).index()),
                r,
                old(self).index(),
                final(self).index(),
            ),
            final(self).tokens() == old(self).tokens(),
            r is Ok ==> final(self).wf(),
        decreases pending(old(self).tokens(), old(self).index()), 46nat,
    {
        let name = match self.expect_identifier() {
            Err(e) => {
                return Err(e);
            },
            Ok(n) => n,
        };
        match self.expect(Token::Assign, "'='") {
            Err(e) => {
                return Err(e);
            },
            Ok(_) => {},
        }
        let value = match self.parse_expression() {
            Err(e) => {
                return Err(e);
            },
            Ok(x) => x,
        };
        match self.expect(Token::In, "'in'") {
            Err(e) => {
                return Err(e);
            },
            Ok(_) => {},
        }
        match self.parse_expression() {
            Err(e) => Err(e),
            Ok(body) => Ok(Expression::Let(name, Box::new(value), Box::new(body))),
        }
    }

    fn parse_match(&mut self) -> (r: Result<Expression, Error>)
        requires
            old(self).wf(),
        ensures
            parsed_as::<Expression>(
                parse_match(old(self).tokens(), old(self).index()),
                r,
                old(self).index(),
                final(self).index(),
            ),
            final(self).tokens() == old(self).tokens(),
            r is Ok ==> final(self).wf(),
        decreases pending(old(self).tokens(), old(self).index()), 47nat,
    {
        let scrutinee = match self.parse_expression() {
            Err(e) => {
                return Err(e);
            },
            Ok(x) => x,
        };
        match self.expect(Token::LeftBrace, "'{'") {
            Err(e) => {
                return Err(e);
            },
            Ok(_) => {},
        }
        let arms = match self.parse_match_arms() {
            Err(e) => {
                return Err(e);
            },
            Ok(a) => a,
        };
        match self.expect(Token::RightBrace, "'}'") {
            Err(e) => Err(e),
            Ok(_) => Ok(Expression::Match(Box::new(scrutinee), arms)),
        }
    }

    fn parse_match_arms(&mut self) -> (r: Result<Vec<MatchArm>, Error>)
        requires
            old(self).wf(),
        ensures
            parsed_arms(
                match_arms(old(self).tokens(), old(self).index()),
                r,
                old(self).index(),
                final(self).index(),
            ),
            final(self).tokens() == old(self).tokens(),
            r is Ok ==> final(self).wf(),
        decreases pending(old(self).tokens(), old(self).index()), 46nat,
    {
        match &self.current_token {
            Token::RightBrace | Token::Eof => {
                let empty: Vec<MatchArm> = Vec::new();
                assert(crate::ast::arms_view(empty@) =~= Seq::<MatchArmView>::empty());
                return Ok(empty);
            },
            _ => {},
        }
        let arm = match self.parse_match_arm() {
            Err(e) => {
                return Err(e);
            },
            Ok(a) => a,
        };
        match &self.current_token {
            Token::Comma => {
                match self.advance() {
                    Err(e) => {
                        return Err(e);
                    },
                    Ok(_) => {},
                }
            },
            _ => {},
        }
        match self.parse_match_arms() {
            Err(e) => Err(e),
            Ok(more) => {
                let mut all = more;
                all.insert(0, arm);
                assert(crate::ast::arms_view(all@) =~= seq![arm@] + crate::ast::arms_view(more@));
                Ok(all)
            },
        }
    }

    /// Parses a match arm: `Constructor(binding) => body`.
    fn parse_match_arm(&mut self) -> (r: Result<MatchArm, Error>)
        requires
            old(self).wf(),
        ensures
            parsed_as::<MatchArm>(
                match_arm(old(self).tokens(), old(self).index()),
                r,
                old(self).index(),
                final(self).index(),
            ),
            final(self).tokens() == old(self).tokens(),
            r is Ok ==> final(self).wf(),
            match_arm(
                old(self).tokens(),
                old(self).index(),
            ) matches Parsed::Done { used, .. } ==> used >= 1,
        decreases pending(old(self).tokens(), old(self).index()), 45nat,
    {
        let constructor = match self.expect_identifier() {
            Err(e) => {
                return Err(e);
            },
            Ok(n) => n,
        };
        match self.expect(Token::LeftParen, "'('") {
            Err(e) => {
                return Err(e);
            },
            Ok(_) => {},
        }
        let binding = match self.expect_identifier() {
            Err(e) => {
                return Err(e);
            },
            Ok(n) => n,
        };
        match self.expect(Token::RightParen, "')'") {
            Err(e) => {
                return Err(e);
            },
            Ok(_) => {},
        }
        match self.expect(Token::Arrow, "'=>'") {
            Err(e) => {
                return Err(e);
            },
            Ok(_) => {},
        }
        match self.parse_expression() {
            Err(e) => Err(e),
            Ok(body) => Ok(MatchArm { pattern: Pattern::Constructor(constructor, binding), body }),
        }
    }
}

} // verus!

verus! {

/// Whether the outcome `r` of an executable parser of parameters and the
/// index that it leaves are what the grammar says.
pub open spec fn parsed_parameters(
    grammar: Parsed<Seq<GuardedParameterView>>,
    r: Result<Vec<ParameterWithGuard>, Error>,
    before: int,
    after: int,
) -> bool {
    match grammar {
        Parsed::Done { value, used } => r matches Ok(v) && crate::ast::parameters_view(v@)
            == value && after == before + used,
        Parsed::Failed(e) => r matches Err(x) && x@ == e,
    }
}

/// A list parsed so far, followed by what the grammar says of the rest.
pub open spec fn extended(
    parsed: Seq<DeclarationView>,
    used: int,
    following: Parsed<Seq<DeclarationView>>,
) -> Parsed<Seq<DeclarationView>> {
    match following {
        Parsed::Done { value, used: further } => Parsed::Done {
            value: parsed + value,
            used: (used + further) as nat,
        },
        Parsed::Failed(e) => Parsed::Failed(e),
    }
}

impl Parser {
    /// Parses `name: Type`.
    fn parse_parameter(&mut self) -> (r: Result<Parameter, Error>)
        requires
            old(self).wf(),
        ensures
            parsed_as::<Parameter>(
                parse_parameter(old(self).tokens(), old(self).index()),
                r,
                old(self).index(),
                final(self).index(),
            ),
            final(self).tokens() == old(self).tokens(),
            r is Ok ==> final(self).wf(),
    {
        let name = match self.expect_identifier() {
            Err(e) => {
                return Err(e);
            },
            Ok(n) => n,
        };
        match self.expect(Token::Colon, "':'") {
            Err(e) => {
                return Err(e);
            },
            Ok(_) => {},
        }
        match self.parse_type() {
            Err(e) => Err(e),
            Ok(ty) => Ok(Parameter { name, ty }),
        }
    }

    /// Parses `name: Type`, optionally followed by `where` and a guard.
    fn parse_parameter_with_guard(&mut self) -> (r: Result<ParameterWithGuard, Error>)
        requires
            old(self).wf(),
        ensures
            parsed_as::<ParameterWithGuard>(
                parse_parameter_with_guard(old(self).tokens(), old(self).index()),
                r,
                old(self).index(),
                final(self).index(),
            ),
            final(self).tokens() == old(self).tokens(),
            r is Ok ==> final(self).wf(),
    {
        reveal(parse_parameter_with_guard);
        let p = match self.parse_parameter() {
            Err(e) => {
                return Err(e);
            },
            Ok(p) => p,
        };
        match &self.current_token {
            Token::Where => {
                match self.advance() {
                    Err(e) => {
                        return Err(e);
                    },
                    Ok(_) => {},
                }
                match self.parse_expression() {
                    Err(e) => Err(e),
                    Ok(guard) => Ok(
                        ParameterWithGuard { name: p.name, ty: p.ty, guard: Some(guard) },
                    ),
                }
            },
            _ => Ok(ParameterWithGuard { name: p.name, ty: p.ty, guard: None }),
        }
    }

    /// Parses the parameters of a function up to its closing parenthesis.
    fn parse_parameters(&mut self) -> (r: Result<Vec<ParameterWithGuard>, Error>)
        requires
            old(self).wf(),
        ensures
            parsed_parameters(
                parameters(old(self).tokens(), old(self).index()),
                r,
                old(self).index(),
                final(self).index(),
            ),
            final(self).tokens() == old(self).tokens(),
            r is Ok ==> final(self).wf(),
        decreases pending(old(self).tokens(), old(self).index()),
    {
        match &self.current_token {
            Token::RightParen => {
                let empty: Vec<ParameterWithGuard> = Vec::new();
                assert(crate::ast::parameters_view(empty@) =~= Seq::<
                    GuardedParameterView,
                >::empty());
                return Ok(empty);
            },
            _ => {},
        }
        let first = match self.parse_parameter_with_guard() {
            Err(e) => {
                return Err(e);
            },
            Ok(p) => p,
        };
        match &self.current_token {
            Token::Comma => {
                match self.advance() {
                    Err(e) => {
                        return Err(e);
                    },
                    Ok(_) => {},
                }
                match self.parse_parameters() {
                    Err(e) => Err(e),
                    Ok(more) => {
                        let mut all = more;
                        all.insert(0, first);
                        assert(crate::ast::parameters_view(all@) =~= seq![first@]
                            + crate::ast::parameters_view(more@));
                        Ok(all)
                    },
                }
            },
            Token::RightParen => {
                let mut all: Vec<ParameterWithGuard> = Vec::new();
                all.push(first);
                assert(crate::ast::parameters_view(all@) =~= seq![first@]);
                Ok(all)
            },
            _ => self.error_here("',' or ')' after parameter"),
        }
    }

    /// Parses `name(parameters) -> Type { body }`.
    fn parse_function_after_keyword(&mut self) -> (r: Result<FunctionDeclaration, Error>)
        requires
            old(self).wf(),
        ensures
            parsed_as::<FunctionDeclaration>(
                function_after_keyword(old(self).tokens(), old(self).index()),
                r,
                old(self).index(),
                final(self).index(),
            ),
            final(self).tokens() == old(self).tokens(),
            r is Ok ==> final(self).wf(),
    {
        let name = match self.expect_identifier() {
            Err(e) => {
                return Err(e);
            },
            Ok(n) => n,
        };
        match self.expect(Token::LeftParen, "'('") {
            Err(e) => {
                return Err(e);
            },
            Ok(_) => {},
        }
        let parameters = match self.parse_parameters() {
            Err(e) => {
                return Err(e);
            },
            Ok(p) => p,
        };
        match self.expect(Token::RightParen, "')'") {
            Err(e) => {
                return Err(e);
            },
            Ok(_) => {},
        }
        match self.expect(Token::ReturnArrow, "'->'") {
            Err(e) => {
                return Err(e);
            },
            Ok(_) => {},
        }
        let return_type = match self.parse_type() {
            Err(e) => {
                return Err(e);
            },
            Ok(t) => t,
        };
        match self.expect(Token::LeftBrace, "'{'") {
            Err(e) => {
                return Err(e);
            },
            Ok(_) => {},
        }
        let body = match self.parse_expression() {
            Err(e) => {
                return Err(e);
            },
            Ok(b) => b,
        };
        match self.expect(Token::RightBrace, "'}'") {
            Err(e) => Err(e),
            Ok(_) => Ok(FunctionDeclaration { name, parameters, return_type, body }),
        }
    }

    /// Parses `fn name(parameters) -> Type { body }`.
    fn parse_function_declaration(&mut self) -> (r: Result<FunctionDeclaration, Error>)
        requires
            old(self).wf(),
        ensures
            parsed_as::<FunctionDeclaration>(
                parse_function_declaration(old(self).tokens(), old(self).index()),
                r,
                old(self).index(),
                final(self).index(),
            ),
            final(self).tokens() == old(self).tokens(),
            r is Ok ==> final(self).wf(),
    {
        match self.expect(Token::Fn, "'fn'") {
            Err(e) => Err(e),
            Ok(_) => self.parse_function_after_keyword(),
        }
    }

    /// Parses `method name(parameters) -> Type { body }`.
    fn parse_method_declaration(&mut self) -> (r: Result<MethodDeclaration, Error>)
        requires
            old(self).wf(),
        ensures
            parsed_as::<MethodDeclaration>(
                parse_method_declaration(old(self).tokens(), old(self).index()),
                r,
                old(self).index(),
                final(self).index(),
            ),
            final(self).tokens() == old(self).tokens(),
            r is Ok ==> final(self).wf(),
    {
        match self.expect(Token::Method, "'method'") {
            Err(e) => {
                return Err(e);
            },
            Ok(_) => {},
        }
        match self.parse_function_after_keyword() {
            Err(e) => Err(e),
            Ok(f) => Ok(
                MethodDeclaration {
                    name: f.name,
                    parameters: f.parameters,
                    return_type: f.return_type,
                    body: f.body,
                },
            ),
        }
    }

    fn skip_clause_comma(&mut self) -> (r: Result<(), Error>)
        requires
            old(self).wf(),
        ensures
            parsed_as::<()>(
                crate::grammar::after_clause(old(self).tokens(), old(self).index()),
                r,
                old(self).index(),
                final(self).index(),
            ),
            final(self).tokens() == old(self).tokens(),
            r is Ok ==> final(self).wf(),
    {
        match &self.current_token {
            Token::Comma => self.advance(),
            _ => Ok(()),
        }
    }

    fn parse_clause_expression(&mut self) -> (r: Result<Expression, Error>)
        requires
            old(self).wf(),
            !(old(self).current_token@ is Eof),
        ensures
            parsed_as::<Expression>(
                crate::grammar::clause_expression(old(self).tokens(), old(self).index()),
                r,
                old(self).index(),
                final(self).index(),
            ),
            final(self).tokens() == old(self).tokens(),
            r is Ok ==> final(self).wf(),
            crate::grammar::clause_expression(old(self).tokens(), old(self).index())
                matches Parsed::Done { used, .. } ==> used >= 2,
    {
        match self.advance() {
            Err(e) => {
                return Err(e);
            },
            Ok(_) => {},
        }
        match self.expect(Token::Colon, "':'") {
            Err(e) => {
                return Err(e);
            },
            Ok(_) => {},
        }
        let value = match self.parse_expression() {
            Err(e) => {
                return Err(e);
            },
            Ok(v) => v,
        };
        match self.skip_clause_comma() {
            Err(e) => Err(e),
            Ok(_) => Ok(value),
        }
    }

    fn parse_unique_clause(&mut self) -> (r: Result<bool, Error>)
        requires
            old(self).wf(),
            !(old(self).current_token@ is Eof),
        ensures
            parsed_as::<bool>(
                crate::grammar::clause_boolean(old(self).tokens(), old(self).index()),
                r,
                old(self).index(),
                final(self).index(),
            ),
            final(self).tokens() == old(self).tokens(),
            r is Ok ==> final(self).wf(),
            crate::grammar::clause_boolean(old(self).tokens(), old(self).index())
                matches Parsed::Done { used, .. } ==> used >= 2,
    {
        match self.advance() {
            Err(e) => {
                return Err(e);
            },
            Ok(_) => {},
        }
        match self.expect(Token::Colon, "':'") {
            Err(e) => {
                return Err(e);
            },
            Ok(_) => {},
        }
        let value = match self.parse_boolean() {
            Err(e) => {
                return Err(e);
            },
            Ok(v) => v,
        };
        match self.skip_clause_comma() {
            Err(e) => Err(e),
            Ok(_) => Ok(value),
        }
    }

    /// Parses the clauses of a value body up to its closing brace.
    fn parse_value_body(&mut self) -> (r: Result<ValueBody, Error>)
        requires
            old(self).wf(),
        ensures
            parsed_as::<ValueBody>(
                parse_value_body(old(self).tokens(), old(self).index()),
                r,
                old(self).index(),
                final(self).index(),
            ),
            final(self).tokens() == old(self).tokens(),
            r is Ok ==> final(self).wf(),
    {
        let mut body = ValueBody { validate: None, normalize: None, unique: None };
        let ghost start = self.index();
        let ghost toks = self.tokens();
        loop
            invariant
                self.wf(),
                self.tokens() == toks,
                toks == old(self).tokens(),
                start == old(self).index(),
                start <= self.index(),
                parse_value_body(toks, start) == shift(
                    value_clauses(toks, self.index(), body@),
                    (self.index() - start) as nat,
                ),
            decreases pending(self.tokens(), self.index()),
        {
            match &self.current_token {
                Token::RightBrace => {
                    return Ok(body);
                },
                Token::Validate => {
                    if body.validate.is_some() {
                        return self.error_here("at most one 'validate' clause");
                    }
                    match self.parse_clause_expression() {
                        Err(e) => {
                            return Err(e);
                        },
                        Ok(e) => {
                            body.validate = Some(e);
                        },
                    }
                },
                Token::Normalize => {
                    if body.normalize.is_some() {
                        return self.error_here("at most one 'normalize' clause");
                    }
                    match self.parse_clause_expression() {
                        Err(e) => {
                            return Err(e);
                        },
                        Ok(e) => {
                            body.normalize = Some(e);
                        },
                    }
                },
                Token::Unique => {
                    if body.unique.is_some() {
                        return self.error_here("at most one 'unique' clause");
                    }
                    match self.parse_unique_clause() {
                        Err(e) => {
                            return Err(e);
                        },
                        Ok(b) => {
                            body.unique = Some(b);
                        },
                    }
                },
                _ => {
                    return self.error_here("'validate', 'normalize', or 'unique'");
                },
            }
        }
    }

    /// Parses `value Name(param: Type) { clauses }`.
    fn parse_value_declaration(&mut self) -> (r: Result<ValueDeclaration, Error>)
        requires
            old(self).wf(),
        ensures
            parsed_as::<ValueDeclaration>(
                parse_value_declaration(old(self).tokens(), old(self).index()),
                r,
                old(self).index(),
                final(self).index(),
            ),
            final(self).tokens() == old(self).tokens(),
            r is Ok ==> final(self).wf(),
    {
        match self.expect(Token::Value, "'value'") {
            Err(e) => {
                return Err(e);
            },
            Ok(_) => {},
        }
        let name = match self.expect_identifier() {
            Err(e) => {
                return Err(e);
            },
            Ok(n) => n,
        };
        match self.expect(Token::LeftParen, "'('") {
            Err(e) => {
                return Err(e);
            },
            Ok(_) => {},
        }
        let parameter = match self.parse_parameter() {
            Err(e) => {
                return Err(e);
            },
            Ok(p) => p,
        };
        match self.expect(Token::RightParen, "')'") {
            Err(e) => {
                return Err(e);
            },
            Ok(_) => {},
        }
        match self.expect(Token::LeftBrace, "'{'") {
            Err(e) => {
                return Err(e);
            },
            Ok(_) => {},
        }
        let body = match self.parse_value_body() {
            Err(e) => {
                return Err(e);
            },
            Ok(b) => b,
        };
        match self.expect(Token::RightBrace, "'}'") {
            Err(e) => Err(e),
            Ok(_) => Ok(ValueDeclaration { name, parameter, body }),
        }
    }

    /// Parses a declaration: a value type or a function.
    fn parse_declaration(&mut self) -> (r: Result<Declaration, Error>)
        requires
            old(self).wf(),
        ensures
            parsed_as::<Declaration>(
                parse_declaration(old(self).tokens(), old(self).index()),
                r,
                old(self).index(),
                final(self).index(),
            ),
            final(self).tokens() == old(self).tokens(),
            r is Ok ==> final(self).wf(),
            parse_declaration(old(self).tokens(), old(self).index()) matches Parsed::Done {
                used,
                ..
            } ==> used >= 1,
    {
        reveal(parse_declaration);
        match &self.current_token {
            Token::Value => match self.parse_value_declaration() {
                Err(e) => Err(e),
                Ok(d) => Ok(Declaration::Value(d)),
            },
            Token::Fn => match self.parse_function_declaration() {
                Err(e) => Err(e),
                Ok(d) => Ok(Declaration::Function(d)),
            },
            Token::Method => match self.parse_method_declaration() {
                Err(e) => Err(e),
                Ok(d) => Ok(
                    Declaration::Function(
                        FunctionDeclaration {
                            name: d.name,
                            parameters: d.parameters,
                            return_type: d.return_type,
                            body: d.body,
                        },
                    ),
                ),
            },
            _ => self.error_here("'value', 'fn', or 'method'"),
        }
    }

    /// Parses a program: declarations up to the end of the input.
    pub fn parse_program(&mut self) -> (r: Result<Program, Error>)
        requires
            old(self).wf(),
        ensures
            parsed_as::<Program>(
                parse_program(old(self).tokens(), old(self).index()),
                r,
                old(self).index(),
                final(self).index(),
            ),
            final(self).tokens() == old(self).tokens(),
            r is Ok ==> final(self).wf(),
    {
        let mut all: Vec<Declaration> = Vec::new();
        let ghost start = self.index();
        let ghost toks = self.tokens();
        assert(crate::ast::declarations_view(all@) =~= Seq::<DeclarationView>::empty());
        loop
            invariant
                self.wf(),
                self.tokens() == toks,
                toks == old(self).tokens(),
                start == old(self).index(),
                start <= self.index(),
                declarations(toks, start) == extended(
                    crate::ast::declarations_view(all@),
                    self.index() - start,
                    declarations(toks, self.index()),
                ),
            decreases pending(self.tokens(), self.index()),
        {
            match &self.current_token {
                Token::Eof => {
                    assert(crate::ast::declarations_view(all@) + Seq::<DeclarationView>::empty()
                        =~= crate::ast::declarations_view(all@));
                    return Ok(Program { declarations: all });
                },
                _ => {},
            }
            let ghost before = crate::ast::declarations_view(all@);
            let ghost at = self.index();
            match self.parse_declaration() {
                Err(e) => {
                    return Err(e);
                },
                Ok(d) => {
                    all.push(d);
                    proof {
                        assert(crate::ast::declarations_view(all@) =~= before.push(d@));
                        match declarations(toks, self.index()) {
                            Parsed::Done { value, .. } => {
                                assert(before + (seq![d@] + value) =~= before.push(d@) + value);
                            },
                            Parsed::Failed(_) => {},
                        }
                    }
                },
            }
        }
    }
}

} // verus!
