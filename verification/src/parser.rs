//! The prefix/infix dispatch table that drives precedence climbing.
//!
//! Every token kind maps to a `ParseRule`: its infix binding power and its
//! optional prefix and infix handlers.  Handlers are named by a closed enum
//! (`ParseFn`) and dispatched by exhaustive matching, so the table is plain
//! data and the whole expression grammar is determined by `get_rule`.

use vstd::prelude::*;

use crate::chunk::Opcode;
use crate::compiler::{
    CompilerParser, spec_binary, spec_expression, spec_fuel_at, spec_grouping, spec_measure,
    spec_named_variable, spec_parse_literal, spec_parse_number, spec_parse_string,
    spec_parse_precedence, spec_parse_variable_prefix, spec_run_infix, spec_run_prefix, spec_unary,
    parse_number_literal,
};
use crate::object::{Obj, ObjString};
use crate::scanner::{Token, TokenType, copy_bytes_range};
use crate::value::Value;

verus! {

/// The binding powers of the expression grammar, weakest first.
#[allow(non_camel_case_types)]
#[derive(Clone, Copy, PartialEq, Eq, Structural, Debug)]
pub enum Precedence {
    PREC_NONE,
    PREC_ASSIGNMENT,
    PREC_OR,
    PREC_AND,
    PREC_EQUAL,
    PREC_COMPARISON,
    PREC_TERM,
    PREC_FACTOR,
    PREC_UNARY,
    PREC_CALL,
    PREC_PRIMARY,
}

/// The numeric rank of a precedence level.
pub open spec fn spec_prec_rank(p: Precedence) -> int {
    match p {
        Precedence::PREC_NONE => 0,
        Precedence::PREC_ASSIGNMENT => 1,
        Precedence::PREC_OR => 2,
        Precedence::PREC_AND => 3,
        Precedence::PREC_EQUAL => 4,
        Precedence::PREC_COMPARISON => 5,
        Precedence::PREC_TERM => 6,
        Precedence::PREC_FACTOR => 7,
        Precedence::PREC_UNARY => 8,
        Precedence::PREC_CALL => 9,
        Precedence::PREC_PRIMARY => 10,
    }
}

/// The next-tighter precedence level; the tightest maps to itself.
pub open spec fn spec_prec_next(p: Precedence) -> Precedence {
    match p {
        Precedence::PREC_NONE => Precedence::PREC_ASSIGNMENT,
        Precedence::PREC_ASSIGNMENT => Precedence::PREC_OR,
        Precedence::PREC_OR => Precedence::PREC_AND,
        Precedence::PREC_AND => Precedence::PREC_EQUAL,
        Precedence::PREC_EQUAL => Precedence::PREC_COMPARISON,
        Precedence::PREC_COMPARISON => Precedence::PREC_TERM,
        Precedence::PREC_TERM => Precedence::PREC_FACTOR,
        Precedence::PREC_FACTOR => Precedence::PREC_UNARY,
        Precedence::PREC_UNARY => Precedence::PREC_CALL,
        Precedence::PREC_CALL => Precedence::PREC_PRIMARY,
        Precedence::PREC_PRIMARY => Precedence::PREC_PRIMARY,
    }
}

impl Precedence {
    /// The numeric rank of this level.
    pub fn rank(&self) -> (r: u8)
        ensures
            r == spec_prec_rank(*self),
    {
        match self {
            Precedence::PREC_NONE => 0,
            Precedence::PREC_ASSIGNMENT => 1,
            Precedence::PREC_OR => 2,
            Precedence::PREC_AND => 3,
            Precedence::PREC_EQUAL => 4,
            Precedence::PREC_COMPARISON => 5,
            Precedence::PREC_TERM => 6,
            Precedence::PREC_FACTOR => 7,
            Precedence::PREC_UNARY => 8,
            Precedence::PREC_CALL => 9,
            Precedence::PREC_PRIMARY => 10,
        }
    }

    /// The next-tighter level, used to make binary operators of equal
    /// precedence group left-to-right.
    pub fn next(&self) -> (r: Precedence)
        ensures
            r == spec_prec_next(*self),
    {
        match self {
            Precedence::PREC_NONE => Precedence::PREC_ASSIGNMENT,
            Precedence::PREC_ASSIGNMENT => Precedence::PREC_OR,
            Precedence::PREC_OR => Precedence::PREC_AND,
            Precedence::PREC_AND => Precedence::PREC_EQUAL,
            Precedence::PREC_EQUAL => Precedence::PREC_COMPARISON,
            Precedence::PREC_COMPARISON => Precedence::PREC_TERM,
            Precedence::PREC_TERM => Precedence::PREC_FACTOR,
            Precedence::PREC_FACTOR => Precedence::PREC_UNARY,
            Precedence::PREC_UNARY => Precedence::PREC_CALL,
            Precedence::PREC_CALL => Precedence::PREC_PRIMARY,
            Precedence::PREC_PRIMARY => Precedence::PREC_PRIMARY,
        }
    }
}

/// The parse handlers, named so the dispatch table is plain data.
#[derive(Clone, Copy, PartialEq, Eq, Structural, Debug)]
pub enum ParseFn {
    Grouping,
    Unary,
    Binary,
    Number,
    Variable,
    Literal,
    Str,
}

/// One row of the dispatch table.
#[derive(Clone, Copy, PartialEq, Eq, Structural, Debug)]
pub struct ParseRule {
    pub precedence: Precedence,
    pub prefix: Option<ParseFn>,
    pub infix: Option<ParseFn>,
}

impl ParseRule {
    /// The prefix handler, if the token kind can begin an expression.
    pub fn get_prefix(&self) -> (r: &Option<ParseFn>)
        ensures
            *r == self.prefix,
    {
        &self.prefix
    }

    /// The infix handler, if the token kind can continue an expression.
    pub fn get_infx(&self) -> (r: &Option<ParseFn>)
        ensures
            *r == self.infix,
    {
        &self.infix
    }

    /// The infix binding power of the token kind.
    pub fn get_precedence(&self) -> (r: &Precedence)
        ensures
            *r == self.precedence,
    {
        &self.precedence
    }
}

impl Default for ParseRule {
    /// A rule for tokens that take no part in expressions.
    fn default() -> (r: Self)
        ensures
            r == (ParseRule { precedence: Precedence::PREC_NONE, prefix: None, infix: None }),
    {
        ParseRule { precedence: Precedence::PREC_NONE, prefix: None, infix: None }
    }
}

/// The dispatch table: the rule for each token kind.
pub open spec fn spec_get_rule(t: TokenType) -> ParseRule {
    match t {
        TokenType::NUMBER => ParseRule {
            precedence: Precedence::PREC_NONE,
            prefix: Some(ParseFn::Number),
            infix: None,
        },
        TokenType::LEFT_PAREN => ParseRule {
            precedence: Precedence::PREC_NONE,
            prefix: Some(ParseFn::Grouping),
            infix: None,
        },
        TokenType::MINUS => ParseRule {
            precedence: Precedence::PREC_TERM,
            prefix: Some(ParseFn::Unary),
            infix: Some(ParseFn::Binary),
        },
        TokenType::PLUS => ParseRule {
            precedence: Precedence::PREC_TERM,
            prefix: None,
            infix: Some(ParseFn::Binary),
        },
        TokenType::SLASH => ParseRule {
            precedence: Precedence::PREC_FACTOR,
            prefix: None,
            infix: Some(ParseFn::Binary),
        },
        TokenType::STAR => ParseRule {
            precedence: Precedence::PREC_FACTOR,
            prefix: None,
            infix: Some(ParseFn::Binary),
        },
        TokenType::NOT => ParseRule {
            precedence: Precedence::PREC_NONE,
            prefix: Some(ParseFn::Unary),
            infix: None,
        },
        TokenType::NOT_EQUAL => ParseRule {
            precedence: Precedence::PREC_EQUAL,
            prefix: None,
            infix: Some(ParseFn::Binary),
        },
        TokenType::EQUAL_EQUAL => ParseRule {
            precedence: Precedence::PREC_EQUAL,
            prefix: None,
            infix: Some(ParseFn::Binary),
        },
        TokenType::GREATER => ParseRule {
            precedence: Precedence::PREC_COMPARISON,
            prefix: None,
            infix: Some(ParseFn::Binary),
        },
        TokenType::GREATER_EQUAL => ParseRule {
            precedence: Precedence::PREC_COMPARISON,
            prefix: None,
            infix: Some(ParseFn::Binary),
        },
        TokenType::LESS => ParseRule {
            precedence: Precedence::PREC_COMPARISON,
            prefix: None,
            infix: Some(ParseFn::Binary),
        },
        TokenType::LESS_EQUAL => ParseRule {
            precedence: Precedence::PREC_COMPARISON,
            prefix: None,
            infix: Some(ParseFn::Binary),
        },
        TokenType::IDENTIFIER => ParseRule {
            precedence: Precedence::PREC_NONE,
            prefix: Some(ParseFn::Variable),
            infix: None,
        },
        TokenType::STRING => ParseRule {
            precedence: Precedence::PREC_NONE,
            prefix: Some(ParseFn::Str),
            infix: None,
        },
        TokenType::TRUE => ParseRule {
            precedence: Precedence::PREC_NONE,
            prefix: Some(ParseFn::Literal),
            infix: None,
        },
        TokenType::FALSE => ParseRule {
            precedence: Precedence::PREC_NONE,
            prefix: Some(ParseFn::Literal),
            infix: None,
        },
        TokenType::NIL => ParseRule {
            precedence: Precedence::PREC_NONE,
            prefix: Some(ParseFn::Literal),
            infix: None,
        },
        _ => ParseRule { precedence: Precedence::PREC_NONE, prefix: None, infix: None },
    }
}

/// Look up the rule for a token kind.
pub fn get_rule(token_type: &TokenType) -> (r: ParseRule)
    ensures
        r == spec_get_rule(*token_type),
{
    match *token_type {
        TokenType::NUMBER => ParseRule {
            precedence: Precedence::PREC_NONE,
            prefix: Some(ParseFn::Number),
            infix: None,
        },
        TokenType::LEFT_PAREN => ParseRule {
            precedence: Precedence::PREC_NONE,
            prefix: Some(ParseFn::Grouping),
            infix: None,
        },
        TokenType::MINUS => ParseRule {
            precedence: Precedence::PREC_TERM,
            prefix: Some(ParseFn::Unary),
            infix: Some(ParseFn::Binary),
        },
        TokenType::PLUS => ParseRule {
            precedence: Precedence::PREC_TERM,
            prefix: None,
            infix: Some(ParseFn::Binary),
        },
        TokenType::SLASH => ParseRule {
            precedence: Precedence::PREC_FACTOR,
            prefix: None,
            infix: Some(ParseFn::Binary),
        },
        TokenType::STAR => ParseRule {
            precedence: Precedence::PREC_FACTOR,
            prefix: None,
            infix: Some(ParseFn::Binary),
        },
        TokenType::NOT => ParseRule {
            precedence: Precedence::PREC_NONE,
            prefix: Some(ParseFn::Unary),
            infix: None,
        },
        TokenType::NOT_EQUAL => ParseRule {
            precedence: Precedence::PREC_EQUAL,
            prefix: None,
            infix: Some(ParseFn::Binary),
        },
        TokenType::EQUAL_EQUAL => ParseRule {
            precedence: Precedence::PREC_EQUAL,
            prefix: None,
            infix: Some(ParseFn::Binary),
        },
        TokenType::GREATER => ParseRule {
            precedence: Precedence::PREC_COMPARISON,
            prefix: None,
            infix: Some(ParseFn::Binary),
        },
        TokenType::GREATER_EQUAL => ParseRule {
            precedence: Precedence::PREC_COMPARISON,
            prefix: None,
            infix: Some(ParseFn::Binary),
        },
        TokenType::LESS => ParseRule {
            precedence: Precedence::PREC_COMPARISON,
            prefix: None,
            infix: Some(ParseFn::Binary),
        },
        TokenType::LESS_EQUAL => ParseRule {
            precedence: Precedence::PREC_COMPARISON,
            prefix: None,
            infix: Some(ParseFn::Binary),
        },
        TokenType::IDENTIFIER => ParseRule {
            precedence: Precedence::PREC_NONE,
            prefix: Some(ParseFn::Variable),
            infix: None,
        },
        TokenType::STRING => ParseRule {
            precedence: Precedence::PREC_NONE,
            prefix: Some(ParseFn::Str),
            infix: None,
        },
        TokenType::TRUE => ParseRule {
            precedence: Precedence::PREC_NONE,
            prefix: Some(ParseFn::Literal),
            infix: None,
        },
        TokenType::FALSE => ParseRule {
            precedence: Precedence::PREC_NONE,
            prefix: Some(ParseFn::Literal),
            infix: None,
        },
        TokenType::NIL => ParseRule {
            precedence: Precedence::PREC_NONE,
            prefix: Some(ParseFn::Literal),
            infix: None,
        },
        _ => Default::default(),
    }
}

/// Every token kind with a positive binding power has an infix handler.
pub proof fn lemma_rank_infix(t: TokenType)
    ensures
        spec_prec_rank(spec_get_rule(t).precedence) >= 1 ==> spec_get_rule(t).infix is Some,
{
}

/// Run the named prefix handler.
pub fn run_parse_fn(compiler: &mut CompilerParser, pf: ParseFn, can_assign: bool)
    requires
        old(compiler).wf(),
    ensures
        final(compiler).wf(),
        final(compiler)@.src == old(compiler)@.src,
        spec_measure(final(compiler)@) <= spec_measure(old(compiler)@),
        forall|fuel: nat|
            fuel >= spec_fuel_at(old(compiler)@, 5) ==> spec_run_prefix(
                old(compiler)@,
                pf,
                can_assign,
                fuel,
            ) == final(compiler)@,
    decreases spec_measure(compiler@), 5int,
{
    let ghost p0 = compiler@;
    match pf {
        ParseFn::Grouping => parse_grouping(compiler, can_assign),
        ParseFn::Unary => parse_unary(compiler, can_assign),
        ParseFn::Binary => parse_binary(compiler, can_assign),
        ParseFn::Number => parse_number(compiler, can_assign),
        ParseFn::Variable => parse_variable(compiler, can_assign),
        ParseFn::Literal => parse_literal(compiler, can_assign),
        ParseFn::Str => parse_string(compiler, can_assign),
    }
    proof {
        assert forall|fuel: nat|
            fuel >= spec_fuel_at(p0, 5) implies spec_run_prefix(p0, pf, can_assign, fuel)
            == compiler@ by {
            let f = (fuel - 1) as nat;
            match pf {
                ParseFn::Grouping => {
                    assert(f >= spec_fuel_at(p0, 4));
                    assert(spec_grouping(p0, f) == compiler@);
                },
                ParseFn::Unary => {
                    assert(f >= spec_fuel_at(p0, 3));
                    assert(spec_unary(p0, f) == compiler@);
                },
                ParseFn::Binary => {
                    assert(f >= spec_fuel_at(p0, 3));
                    assert(spec_binary(p0, f) == compiler@);
                },
                ParseFn::Number => {
                    assert(spec_parse_number(p0) == compiler@);
                },
                ParseFn::Variable => {
                    assert(f >= spec_fuel_at(p0, 2));
                    assert(spec_parse_variable_prefix(p0, can_assign, f) == compiler@);
                },
                ParseFn::Literal => {
                    assert(spec_parse_literal(p0) == compiler@);
                },
                ParseFn::Str => {
                    assert(spec_parse_string(p0) == compiler@);
                },
            }
        };
    }
}

/// Run the named infix handler.
pub fn run_infix_fn(compiler: &mut CompilerParser, pf: ParseFn, can_assign: bool)
    requires
        old(compiler).wf(),
    ensures
        final(compiler).wf(),
        final(compiler)@.src == old(compiler)@.src,
        spec_measure(final(compiler)@) <= spec_measure(old(compiler)@),
        forall|fuel: nat|
            fuel >= spec_fuel_at(old(compiler)@, 5) ==> spec_run_infix(
                old(compiler)@,
                pf,
                can_assign,
                fuel,
            ) == final(compiler)@,
    decreases spec_measure(compiler@), 5int,
{
    let ghost p0 = compiler@;
    match pf {
        ParseFn::Binary => parse_binary(compiler, can_assign),
        _ => {},
    }
    proof {
        assert forall|fuel: nat|
            fuel >= spec_fuel_at(p0, 5) implies spec_run_infix(p0, pf, can_assign, fuel)
            == compiler@ by {
            let f = (fuel - 1) as nat;
            match pf {
                ParseFn::Binary => {
                    assert(f >= spec_fuel_at(p0, 3));
                    assert(spec_binary(p0, f) == compiler@);
                },
                _ => {},
            }
        };
    }
}

/// Compile a binary operator: the right operand one level tighter, then
/// the operator's instructions.
pub fn parse_binary(compiler: &mut CompilerParser, _can_assign: bool)
    requires
        old(compiler).wf(),
    ensures
        final(compiler).wf(),
        final(compiler)@.src == old(compiler)@.src,
        spec_measure(final(compiler)@) <= spec_measure(old(compiler)@),
        forall|fuel: nat|
            fuel >= spec_fuel_at(old(compiler)@, 3) ==> spec_binary(old(compiler)@, fuel)
                == final(compiler)@,
    decreases spec_measure(compiler@), 3int,
{
    let ghost p0 = compiler@;
    let op = *compiler.get_prev().get_type();
    let rule = get_rule(&op);
    let next = rule.get_precedence().next();
    proof {
        assert(spec_prec_rank(spec_prec_next(spec_get_rule(op).precedence)) >= 1);
    }
    compiler.parse_precedence(&next);
    let ghost p1 = compiler@;
    if op == TokenType::PLUS {
        compiler.emit_byte(Opcode::OP_ADD.as_byte());
    } else if op == TokenType::MINUS {
        compiler.emit_byte(Opcode::OP_SUBTRACT.as_byte());
    } else if op == TokenType::STAR {
        compiler.emit_byte(Opcode::OP_MULTIPLY.as_byte());
    } else if op == TokenType::SLASH {
        compiler.emit_byte(Opcode::OP_DIVIDE.as_byte());
    } else if op == TokenType::NOT_EQUAL {
        compiler.emit_bytes(Opcode::OP_EQUAL.as_byte(), Opcode::OP_NOT.as_byte());
    } else if op == TokenType::EQUAL_EQUAL {
        compiler.emit_byte(Opcode::OP_EQUAL.as_byte());
    } else if op == TokenType::GREATER {
        compiler.emit_byte(Opcode::OP_GREATER.as_byte());
    } else if op == TokenType::GREATER_EQUAL {
        compiler.emit_bytes(Opcode::OP_LESS.as_byte(), Opcode::OP_NOT.as_byte());
    } else if op == TokenType::LESS {
        compiler.emit_byte(Opcode::OP_LESS.as_byte());
    } else if op == TokenType::LESS_EQUAL {
        compiler.emit_bytes(Opcode::OP_GREATER.as_byte(), Opcode::OP_NOT.as_byte());
    }
    proof {
        assert forall|fuel: nat|
            fuel >= spec_fuel_at(p0, 3) implies spec_binary(p0, fuel) == compiler@ by {
            let f = (fuel - 1) as nat;
            assert(f >= spec_fuel_at(p0, 2));
            assert(spec_parse_precedence(p0, spec_prec_next(spec_get_rule(op).precedence), f)
                == p1);
        };
    }
}

/// Compile a parenthesized expression.
pub fn parse_grouping(compiler: &mut CompilerParser, _can_assign: bool)
    requires
        old(compiler).wf(),
    ensures
        final(compiler).wf(),
        final(compiler)@.src == old(compiler)@.src,
        spec_measure(final(compiler)@) <= spec_measure(old(compiler)@),
        forall|fuel: nat|
            fuel >= spec_fuel_at(old(compiler)@, 4) ==> spec_grouping(old(compiler)@, fuel)
                == final(compiler)@,
    decreases spec_measure(compiler@), 4int,
{
    let ghost p0 = compiler@;
    compiler.expression();
    let ghost p1 = compiler@;
    compiler.consume(&TokenType::RIGHT_PAREN, "Expect ')' after expression");
    proof {
        assert forall|fuel: nat|
            fuel >= spec_fuel_at(p0, 4) implies spec_grouping(p0, fuel) == compiler@ by {
            let f = (fuel - 1) as nat;
            assert(f >= spec_fuel_at(p0, 3));
            assert(spec_expression(p0, f) == p1);
        };
    }
}

/// Compile a numeric literal.
pub fn parse_number(compiler: &mut CompilerParser, _can_assign: bool)
    requires
        old(compiler).wf(),
    ensures
        final(compiler).wf(),
        final(compiler)@ == spec_parse_number(old(compiler)@),
{
    let val = parse_number_literal(compiler.get_prev().get_sized_content());
    match val {
        Some(n) => compiler.emit_constant(Value::number_val(n)),
        None => compiler.error("Invalid number literal"),
    }
}

/// Compile a variable reference (the prefix handler for identifiers).
pub fn parse_variable(compiler: &mut CompilerParser, can_assign: bool)
    requires
        old(compiler).wf(),
    ensures
        final(compiler).wf(),
        final(compiler)@.src == old(compiler)@.src,
        spec_measure(final(compiler)@) <= spec_measure(old(compiler)@),
        forall|fuel: nat|
            fuel >= spec_fuel_at(old(compiler)@, 2) ==> spec_parse_variable_prefix(
                old(compiler)@,
                can_assign,
                fuel,
            ) == final(compiler)@,
    decreases spec_measure(compiler@), 2int,
{
    let ghost p0 = compiler@;
    let token_name = compiler.get_prev().duplicate();
    named_variable(compiler, &token_name, can_assign);
    proof {
        assert forall|fuel: nat|
            fuel >= spec_fuel_at(p0, 2) implies spec_parse_variable_prefix(p0, can_assign, fuel)
            == compiler@ by {
            let f = (fuel - 1) as nat;
            assert(f >= spec_fuel_at(p0, 1));
            assert(spec_named_variable(p0, p0.prev, can_assign, f) == compiler@);
        };
    }
}

/// Compile a named variable: a store where an assignment is allowed and an
/// `=` follows, a load otherwise.
pub fn named_variable(compiler: &mut CompilerParser, name: &Token, can_assign: bool)
    requires
        old(compiler).wf(),
    ensures
        final(compiler).wf(),
        final(compiler)@.src == old(compiler)@.src,
        spec_measure(final(compiler)@) <= spec_measure(old(compiler)@),
        forall|fuel: nat|
            fuel >= spec_fuel_at(old(compiler)@, 1) ==> spec_named_variable(
                old(compiler)@,
                name@,
                can_assign,
                fuel,
            ) == final(compiler)@,
    decreases spec_measure(compiler@), 1int,
{
    let ghost p0 = compiler@;
    let arg = compiler.identifier_constant(name);
    let ghost p1 = compiler@;
    if can_assign {
        let m = compiler.match_(TokenType::EQUAL);
        let ghost p2 = compiler@;
        if m {
            compiler.expression();
            let ghost p3 = compiler@;
            compiler.emit_bytes(Opcode::OP_SET_GLOBAL.as_byte(), arg);
            proof {
                assert forall|fuel: nat|
                    fuel >= spec_fuel_at(p0, 1) implies spec_named_variable(
                    p0,
                    name@,
                    can_assign,
                    fuel,
                ) == compiler@ by {
                    let f = (fuel - 1) as nat;
                    assert(f >= spec_fuel_at(p2, 3));
                    assert(spec_expression(p2, f) == p3);
                };
            }
        } else {
            compiler.emit_bytes(Opcode::OP_GET_GLOBAL.as_byte(), arg);
            proof {
                assert forall|fuel: nat|
                    fuel >= spec_fuel_at(p0, 1) implies spec_named_variable(
                    p0,
                    name@,
                    can_assign,
                    fuel,
                ) == compiler@ by {};
            }
        }
    } else {
        compiler.emit_bytes(Opcode::OP_GET_GLOBAL.as_byte(), arg);
        proof {
            assert forall|fuel: nat|
                fuel >= spec_fuel_at(p0, 1) implies spec_named_variable(
                p0,
                name@,
                can_assign,
                fuel,
            ) == compiler@ by {};
        }
    }
}

/// Compile a unary operator: its operand, then the instruction.
pub fn parse_unary(compiler: &mut CompilerParser, _can_assign: bool)
    requires
        old(compiler).wf(),
    ensures
        final(compiler).wf(),
        final(compiler)@.src == old(compiler)@.src,
        spec_measure(final(compiler)@) <= spec_measure(old(compiler)@),
        forall|fuel: nat|
            fuel >= spec_fuel_at(old(compiler)@, 3) ==> spec_unary(old(compiler)@, fuel) == final(compiler)@,
    decreases spec_measure(compiler@), 3int,
{
    let ghost p0 = compiler@;
    let op = *compiler.get_prev().get_type();
    compiler.parse_precedence(&Precedence::PREC_UNARY);
    let ghost p1 = compiler@;
    if op == TokenType::MINUS {
        compiler.emit_byte(Opcode::OP_NEGATE.as_byte());
    } else if op == TokenType::NOT {
        compiler.emit_byte(Opcode::OP_NOT.as_byte());
    }
    proof {
        assert forall|fuel: nat|
            fuel >= spec_fuel_at(p0, 3) implies spec_unary(p0, fuel) == compiler@ by {
            let f = (fuel - 1) as nat;
            assert(f >= spec_fuel_at(p0, 2));
            assert(spec_parse_precedence(p0, Precedence::PREC_UNARY, f) == p1);
        };
    }
}

/// Compile `true`, `false` or `nil` to its dedicated instruction.
pub fn parse_literal(compiler: &mut CompilerParser, _can_assign: bool)
    requires
        old(compiler).wf(),
    ensures
        final(compiler).wf(),
        final(compiler)@ == spec_parse_literal(old(compiler)@),
{
    let op = *compiler.get_prev().get_type();
    if op == TokenType::FALSE {
        compiler.emit_byte(Opcode::OP_FALSE.as_byte());
    } else if op == TokenType::TRUE {
        compiler.emit_byte(Opcode::OP_TRUE.as_byte());
    } else if op == TokenType::NIL {
        compiler.emit_byte(Opcode::OP_NIL.as_byte());
    }
}

/// Compile a string literal: the lexeme without its quotes becomes a
/// string constant.
pub fn parse_string(compiler: &mut CompilerParser, _can_assign: bool)
    requires
        old(compiler).wf(),
    ensures
        final(compiler).wf(),
        final(compiler)@ == spec_parse_string(old(compiler)@),
{
    let bytes = {
        let text = compiler.get_prev().get_sized_content();
        if text.len() >= 2 {
            copy_bytes_range(text, 1, text.len() - 1)
        } else {
            Vec::new()
        }
    };
    proof {
        if old(compiler)@.prev.text.len() < 2 {
            assert(bytes@ =~= Seq::<u8>::empty());
        }
    }
    compiler.emit_constant(Value::obj_val(Obj::str_obj(ObjString::from(bytes))));
}

} // verus!
