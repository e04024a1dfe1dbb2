//! The compiler: a precedence-climbing, single-pass translator from tokens
//! to bytecode, with lexical-scope tracking and panic-mode error recovery.
//!
//! The compiler owns one scanner and one compiled unit.  `compile` consumes
//! the whole token stream, writes bytecode into the unit, collects
//! diagnostics instead of printing them, and reports overall success.
//!
//! Every step is modelled by a specification function over `ParserModel`, a
//! ghost image of the whole compiler state.  The recursive parsing
//! functions are modelled with an explicit fuel parameter: every
//! specification-level call passes one unit less, which makes the model
//! obviously well-founded, and each executable function proves that its
//! result equals the model for every sufficiently large fuel.  The fuel
//! thresholds are `FUEL_STEP` times the scanner measure (two per unread
//! byte, one for a buffered token) plus a small per-function rank that
//! orders the call chains which consume no input.

use vstd::prelude::*;

use crate::chunk::{Chunk, ChunkModel, Opcode, spec_opcode_byte};
use crate::object::{Obj, ObjString};
use crate::parser::{ParseFn, Precedence, spec_get_rule, spec_prec_next, spec_prec_rank};
use crate::scanner::{
    Scanner, Token, TokenModel, TokenType, spec_scan_token,
    lemma_scan_token_bounds,
};
use crate::value::{Value, ValueModel};

verus! {

/// Scope depths beyond this bound saturate; it is far beyond any real
/// program and keeps depth arithmetic inside every machine type.
pub const MAX_SCOPE_DEPTH: usize = 0x7fffffff;

/// How much fuel one unit of the scanner measure is worth in the fuel
/// thresholds of the parsing functions.
pub open spec fn spec_fuel_step() -> int {
    16
}

/// The model of a local variable: its name token and its declaration
/// depth, where depth -1 marks "declared but not yet initialized".
pub struct LocalModel {
    pub name: TokenModel,
    pub depth: int,
}

/// The model of one reported compile error: the source line, the offending
/// lexeme (empty where none applies), and the message.
pub struct DiagModel {
    pub line: int,
    pub lexeme: Seq<u8>,
    pub message: Seq<char>,
}

/// The ghost image of the whole compiler state: scanner position, token
/// lookahead, the compiled unit under construction, scope state, error
/// flags, and the diagnostics collected so far.
pub struct ParserModel {
    pub src: Seq<u8>,
    pub pos: int,
    pub line: int,
    pub current: TokenModel,
    pub prev: TokenModel,
    pub chunk: ChunkModel,
    pub locals: Seq<LocalModel>,
    pub scope_depth: int,
    pub had_error: bool,
    pub panic_mode: bool,
    pub diags: Seq<DiagModel>,
}

/// The termination measure of the parser: two per unread source byte, plus
/// one if the buffered token is not `EOF`.
pub open spec fn spec_measure(p: ParserModel) -> int {
    2 * (if p.src.len() >= p.pos {
        p.src.len() - p.pos
    } else {
        0
    }) + (if p.current.type_ == TokenType::EOF {
        0int
    } else {
        1int
    })
}

/// The fuel threshold of a parsing function of rank `rank` at state `p`:
/// any fuel at or above it makes the fuel-indexed model agree with the
/// executable compiler.
pub open spec fn spec_fuel_at(p: ParserModel, rank: int) -> int {
    spec_fuel_step() * spec_measure(p) + rank
}

/// Report an error at the given token: suppressed while panicking,
/// otherwise it sets both error flags and records a diagnostic.
pub open spec fn spec_error_at(p: ParserModel, tok: TokenModel, message: Seq<char>) -> ParserModel {
    if p.panic_mode {
        p
    } else {
        ParserModel {
            had_error: true,
            panic_mode: true,
            diags: p.diags.push(DiagModel { line: tok.line, lexeme: tok.text, message }),
            ..p
        }
    }
}

/// Report an error at the previous token.
pub open spec fn spec_error(p: ParserModel, message: Seq<char>) -> ParserModel {
    spec_error_at(p, p.prev, message)
}

/// Report an error at the current token.
pub open spec fn spec_error_at_current(p: ParserModel, message: Seq<char>) -> ParserModel {
    spec_error_at(p, p.current, message)
}

/// Append one bytecode byte, tagged with the previous token's line.
pub open spec fn spec_emit_byte(p: ParserModel, byte: u8) -> ParserModel {
    ParserModel {
        chunk: ChunkModel {
            code: p.chunk.code.push(byte),
            lines: p.chunk.lines.push(p.prev.line),
            consts: p.chunk.consts,
        },
        ..p
    }
}

/// Append two bytecode bytes.
pub open spec fn spec_emit_bytes(p: ParserModel, byte1: u8, byte2: u8) -> ParserModel {
    spec_emit_byte(spec_emit_byte(p, byte1), byte2)
}

/// Append a constant to the pool and return its one-byte index; an index
/// past 255 is a compile error and yields index 0.
pub open spec fn spec_make_constant(p: ParserModel, v: ValueModel) -> (ParserModel, u8) {
    let idx = p.chunk.consts.len() as int;
    let p1 = ParserModel {
        chunk: ChunkModel { consts: p.chunk.consts.push(v), ..p.chunk },
        ..p
    };
    if idx > 255 {
        (spec_error(p1, "Too many constant in chunk"@), 0u8)
    } else {
        (p1, idx as u8)
    }
}

/// Append a constant and emit the instruction that loads it.
pub open spec fn spec_emit_constant(p: ParserModel, v: ValueModel) -> ParserModel {
    let (p1, idx) = spec_make_constant(p, v);
    spec_emit_bytes(p1, spec_opcode_byte(Opcode::OP_CONSTANT), idx)
}

/// Store an identifier's name in the constant pool as a string constant.
pub open spec fn spec_identifier_constant(p: ParserModel, name: TokenModel) -> (ParserModel, u8) {
    spec_make_constant(p, ValueModel::Str(name.text))
}

/// Record a local variable, not yet initialized; the local list is capped.
pub open spec fn spec_add_local(p: ParserModel, tok: TokenModel) -> ParserModel {
    if p.locals.len() >= 256 {
        spec_error(p, "too many local variable"@)
    } else {
        ParserModel { locals: p.locals.push(LocalModel { name: tok, depth: -1 }), ..p }
    }
}

/// Whether the name is already declared in the innermost scope: the local
/// list is searched from the top down to the first local of an enclosing
/// scope.
pub open spec fn spec_redeclared(
    locals: Seq<LocalModel>,
    scope_depth: int,
    name: Seq<u8>,
    i: int,
) -> bool
    decreases i,
{
    if i <= 0 || i > locals.len() {
        false
    } else {
        let l = locals[i - 1];
        if l.depth != -1 && l.depth < scope_depth {
            false
        } else if l.name.text == name {
            true
        } else {
            spec_redeclared(locals, scope_depth, name, i - 1)
        }
    }
}

/// Declare the variable named by the previous token: a no-op at global
/// scope; in a block, redeclaring a name of the same scope is an error, and
/// the name is recorded as an uninitialized local.
pub open spec fn spec_declare_variable(p: ParserModel) -> ParserModel {
    if p.scope_depth == 0 {
        p
    } else {
        let p1 = if spec_redeclared(p.locals, p.scope_depth, p.prev.text, p.locals.len() as int) {
            spec_error(p, "A variable with the same name already exist"@)
        } else {
            p
        };
        spec_add_local(p1, p.prev)
    }
}

/// Mark the newest local as initialized at the current depth.
pub open spec fn spec_mark_initialized(p: ParserModel) -> ParserModel {
    if p.locals.len() == 0 {
        p
    } else {
        let i = p.locals.len() - 1;
        ParserModel {
            locals: p.locals.update(
                i as int,
                LocalModel { depth: p.scope_depth, ..p.locals[i as int] },
            ),
            ..p
        }
    }
}

/// Finish a variable declaration: locals are marked initialized, globals
/// get a define instruction naming their constant.
pub open spec fn spec_define_variable(p: ParserModel, global: u8) -> ParserModel {
    if p.scope_depth > 0 {
        spec_mark_initialized(p)
    } else {
        spec_emit_bytes(p, spec_opcode_byte(Opcode::OP_DEFINE_GLOBAL), global)
    }
}

/// Enter a block scope.
pub open spec fn spec_begin_scope(p: ParserModel) -> ParserModel {
    if p.scope_depth < MAX_SCOPE_DEPTH {
        ParserModel { scope_depth: p.scope_depth + 1, ..p }
    } else {
        p
    }
}

/// Pop every local that lives deeper than the current scope, emitting a
/// discard instruction for each.
pub open spec fn spec_pop_locals(p: ParserModel) -> ParserModel
    decreases p.locals.len(),
{
    if p.locals.len() > 0 && p.locals.last().depth > p.scope_depth {
        spec_pop_locals(
            ParserModel {
                locals: p.locals.drop_last(),
                ..spec_emit_byte(p, spec_opcode_byte(Opcode::OP_POP))
            },
        )
    } else {
        p
    }
}

/// Leave a block scope, discarding its locals.
pub open spec fn spec_end_scope(p: ParserModel) -> ParserModel {
    let d = if p.scope_depth > 0 {
        p.scope_depth - 1
    } else {
        0int
    };
    spec_pop_locals(ParserModel { scope_depth: d, ..p })
}

/// The numeric value of an all-digit lexeme.
pub open spec fn spec_digits_val(t: Seq<u8>) -> int
    decreases t.len(),
{
    if t.len() == 0 {
        0
    } else {
        spec_digits_val(t.drop_last()) * 10 + (t.last() - '0' as u8)
    }
}

/// Whether every byte of a lexeme is a digit.
pub open spec fn spec_all_digits(t: Seq<u8>) -> bool {
    forall|i: int| 0 <= i < t.len() ==> crate::scanner::is_digit_byte(#[trigger] t[i])
}

/// The value of a numeric literal, if it is a whole number that fits the
/// numeric type.
pub open spec fn spec_num_value(t: Seq<u8>) -> Option<i64> {
    if t.len() > 0 && spec_all_digits(t) && spec_digits_val(t) <= i64::MAX {
        Some(spec_digits_val(t) as i64)
    } else {
        None
    }
}

/// Compile a numeric literal: its value becomes a constant, unless it is
/// not a whole number that fits.
pub open spec fn spec_parse_number(p: ParserModel) -> ParserModel {
    match spec_num_value(p.prev.text) {
        Some(v) => spec_emit_constant(p, ValueModel::Num(v)),
        None => spec_error(p, "Invalid number literal"@),
    }
}

/// Compile a string literal: its content (the lexeme without the quotes)
/// becomes a string constant.
pub open spec fn spec_parse_string(p: ParserModel) -> ParserModel {
    let t = p.prev.text;
    let s = if t.len() >= 2 {
        t.subrange(1, t.len() - 1)
    } else {
        Seq::<u8>::empty()
    };
    spec_emit_constant(p, ValueModel::Str(s))
}

/// Compile `true`, `false` or `nil` to its dedicated instruction.
pub open spec fn spec_parse_literal(p: ParserModel) -> ParserModel {
    match p.prev.type_ {
        TokenType::FALSE => spec_emit_byte(p, spec_opcode_byte(Opcode::OP_FALSE)),
        TokenType::TRUE => spec_emit_byte(p, spec_opcode_byte(Opcode::OP_TRUE)),
        TokenType::NIL => spec_emit_byte(p, spec_opcode_byte(Opcode::OP_NIL)),
        _ => p,
    }
}

/// Pull the next token from the scanner into the lookahead, reporting and
/// skipping every `ERROR` token on the way.
pub open spec fn spec_advance_loop(p: ParserModel) -> ParserModel
    decreases p.src.len() - p.pos,
    via spec_advance_loop_decreases
{
    if p.pos < 0 || p.pos > p.src.len() {
        p
    } else {
        let r = spec_scan_token(p.src, p.pos, p.line);
        let p1 = ParserModel { current: r.tok, pos: r.pos, line: r.line, ..p };
        if r.tok.type_ == TokenType::ERROR {
            spec_advance_loop(spec_error_at_current(p1, r.tok.message))
        } else {
            p1
        }
    }
}

#[via_fn]
proof fn spec_advance_loop_decreases(p: ParserModel) {
    if 0 <= p.pos && p.pos <= p.src.len() {
        lemma_scan_token_bounds(p.src, p.pos, p.line);
    }
}

/// Step the lookahead: the current token becomes the previous one, and the
/// next non-`ERROR` token becomes current.
pub open spec fn spec_advance(p: ParserModel) -> ParserModel {
    spec_advance_loop(ParserModel { prev: p.current, ..p })
}

/// `spec_advance_loop` stays inside the buffer and never increases the
/// measure.
pub proof fn lemma_advance_loop_measure(p: ParserModel)
    requires
        0 <= p.pos <= p.src.len(),
    ensures
        p.pos <= spec_advance_loop(p).pos <= p.src.len(),
        spec_measure(spec_advance_loop(p)) <= 2 * (p.src.len() - p.pos),
        spec_advance_loop(p).src == p.src,
        spec_advance_loop(p).prev == p.prev,
    decreases p.src.len() - p.pos,
{
    lemma_scan_token_bounds(p.src, p.pos, p.line);
    let r = spec_scan_token(p.src, p.pos, p.line);
    let p1 = ParserModel { current: r.tok, pos: r.pos, line: r.line, ..p };
    if r.tok.type_ == TokenType::ERROR {
        lemma_advance_loop_measure(spec_error_at_current(p1, r.tok.message));
    }
}

/// `spec_advance` never increases the measure, and strictly decreases it
/// unless the lookahead already reached `EOF`.
pub proof fn lemma_advance_measure(p: ParserModel)
    requires
        0 <= p.pos <= p.src.len(),
    ensures
        p.pos <= spec_advance(p).pos <= p.src.len(),
        spec_measure(spec_advance(p)) <= spec_measure(p),
        p.current.type_ != TokenType::EOF ==> spec_measure(spec_advance(p)) < spec_measure(p),
        spec_advance(p).src == p.src,
        spec_advance(p).prev == p.current,
{
    lemma_advance_loop_measure(ParserModel { prev: p.current, ..p });
}

/// Consume the current token only if it has the given kind.
pub open spec fn spec_match(p: ParserModel, kind: TokenType) -> (ParserModel, bool) {
    if p.current.type_ == kind {
        (spec_advance(p), true)
    } else {
        (p, false)
    }
}

/// Consume the current token of the expected kind, or report an error at
/// it.
pub open spec fn spec_consume(p: ParserModel, kind: TokenType, message: Seq<char>) -> ParserModel {
    if p.current.type_ == kind {
        spec_advance(p)
    } else {
        spec_error_at_current(p, message)
    }
}

/// Whether the current token begins a new statement.
pub open spec fn spec_is_sync_boundary(t: TokenType) -> bool {
    t == TokenType::CLASS || t == TokenType::FUN || t == TokenType::VAR || t == TokenType::FOR
        || t == TokenType::IF || t == TokenType::WHILE || t == TokenType::PRINT || t
        == TokenType::RETURN
}

/// Skip tokens until a statement boundary: just past a `;`, or in front of
/// a token that begins a statement, or the end of the stream.
pub open spec fn spec_sync_loop(p: ParserModel) -> ParserModel
    decreases spec_measure(p),
    via spec_sync_loop_decreases
{
    if p.pos < 0 || p.pos > p.src.len() {
        p
    } else if p.current.type_ == TokenType::EOF {
        p
    } else if p.prev.type_ == TokenType::SEMICOLON {
        p
    } else if spec_is_sync_boundary(p.current.type_) {
        p
    } else {
        spec_sync_loop(spec_advance(p))
    }
}

#[via_fn]
proof fn spec_sync_loop_decreases(p: ParserModel) {
    if 0 <= p.pos && p.pos <= p.src.len() && p.current.type_ != TokenType::EOF {
        lemma_advance_measure(p);
    }
}

/// Leave panic mode and resume at the next statement boundary.
pub open spec fn spec_sync(p: ParserModel) -> ParserModel {
    spec_sync_loop(ParserModel { panic_mode: false, ..p })
}

/// Resolve a name against the locals, innermost first: the slot index of
/// the nearest local with that name, or -1; reading a local inside its own
/// initializer is an error.
pub open spec fn spec_resolve_loop(p: ParserModel, name: Seq<u8>, i: int) -> (ParserModel, int)
    decreases i,
{
    if i <= 0 || i > p.locals.len() {
        (p, -1)
    } else {
        let l = p.locals[i - 1];
        if l.name.text == name {
            if l.depth == -1 {
                (spec_error(p, "Can't read local variable in its own initializer."@), i - 1)
            } else {
                (p, i - 1)
            }
        } else {
            spec_resolve_loop(p, name, i - 1)
        }
    }
}

/// Resolve a name token against the locals.
pub open spec fn spec_resolve_local(p: ParserModel, name: TokenModel) -> (ParserModel, int) {
    spec_resolve_loop(p, name.text, p.locals.len() as int)
}

/// Consume an identifier as a variable name and declare it; at global scope
/// the name becomes a string constant whose index is returned.
pub open spec fn spec_parse_variable(p: ParserModel, message: Seq<char>) -> (ParserModel, u8) {
    let p1 = spec_consume(p, TokenType::IDENTIFIER, message);
    let p2 = spec_declare_variable(p1);
    if p2.scope_depth > 0 {
        (p2, 0u8)
    } else {
        spec_identifier_constant(p2, p2.prev)
    }
}

/// Compile an expression at the given minimum binding power: consume one
/// token and run its prefix handler, then fold infix operators while their
/// binding power is at least the minimum; a stray `=` afterwards is an
/// invalid assignment target.
pub open spec fn spec_parse_precedence(p: ParserModel, prec: Precedence, fuel: nat) -> ParserModel
    decreases fuel,
{
    if fuel == 0 {
        p
    } else {
        let f = (fuel - 1) as nat;
        let p1 = spec_advance(p);
        let can_assign = spec_prec_rank(prec) <= spec_prec_rank(Precedence::PREC_ASSIGNMENT);
        match spec_get_rule(p1.prev.type_).prefix {
            None => spec_error(p1, "Expect expression"@),
            Some(pf) => {
                let p2 = spec_run_prefix(p1, pf, can_assign, f);
                let p3 = spec_infix_loop(p2, prec, can_assign, f);
                if can_assign {
                    let (p4, m) = spec_match(p3, TokenType::EQUAL);
                    if m {
                        spec_error(p4, "invalid assignment target"@)
                    } else {
                        p4
                    }
                } else {
                    p3
                }
            },
        }
    }
}

/// Dispatch a prefix handler.
pub open spec fn spec_run_prefix(p: ParserModel, pf: ParseFn, can_assign: bool, fuel: nat) -> ParserModel
    decreases fuel,
{
    if fuel == 0 {
        p
    } else {
        let f = (fuel - 1) as nat;
        match pf {
            ParseFn::Grouping => spec_grouping(p, f),
            ParseFn::Unary => spec_unary(p, f),
            ParseFn::Binary => spec_binary(p, f),
            ParseFn::Number => spec_parse_number(p),
            ParseFn::Variable => spec_parse_variable_prefix(p, can_assign, f),
            ParseFn::Literal => spec_parse_literal(p),
            ParseFn::Str => spec_parse_string(p),
        }
    }
}

/// Dispatch an infix handler.
pub open spec fn spec_run_infix(p: ParserModel, pf: ParseFn, can_assign: bool, fuel: nat) -> ParserModel
    decreases fuel,
{
    if fuel == 0 {
        p
    } else {
        let f = (fuel - 1) as nat;
        match pf {
            ParseFn::Binary => spec_binary(p, f),
            _ => p,
        }
    }
}

/// Fold infix operators while the binding power of the current token is at
/// least the minimum requested.
pub open spec fn spec_infix_loop(p: ParserModel, prec: Precedence, can_assign: bool, fuel: nat) -> ParserModel
    decreases fuel,
{
    if fuel == 0 {
        p
    } else {
        let f = (fuel - 1) as nat;
        if spec_prec_rank(prec) <= spec_prec_rank(spec_get_rule(p.current.type_).precedence) {
            let p1 = spec_advance(p);
            match spec_get_rule(p1.prev.type_).infix {
                Some(inf) => spec_infix_loop(spec_run_infix(p1, inf, can_assign, f), prec, can_assign, f),
                None => p1,
            }
        } else {
            p
        }
    }
}

/// Compile a parenthesized expression.
pub open spec fn spec_grouping(p: ParserModel, fuel: nat) -> ParserModel
    decreases fuel,
{
    if fuel == 0 {
        p
    } else {
        let f = (fuel - 1) as nat;
        spec_consume(spec_expression(p, f), TokenType::RIGHT_PAREN, "Expect ')' after expression"@)
    }
}

/// Compile a unary operator: its operand, then the instruction.
pub open spec fn spec_unary(p: ParserModel, fuel: nat) -> ParserModel
    decreases fuel,
{
    if fuel == 0 {
        p
    } else {
        let f = (fuel - 1) as nat;
        let op = p.prev.type_;
        let p1 = spec_parse_precedence(p, Precedence::PREC_UNARY, f);
        if op == TokenType::MINUS {
            spec_emit_byte(p1, spec_opcode_byte(Opcode::OP_NEGATE))
        } else if op == TokenType::NOT {
            spec_emit_byte(p1, spec_opcode_byte(Opcode::OP_NOT))
        } else {
            p1
        }
    }
}

/// Compile a binary operator: the right operand one level tighter (so that
/// operators of equal power group left-to-right), then the instructions.
pub open spec fn spec_binary(p: ParserModel, fuel: nat) -> ParserModel
    decreases fuel,
{
    if fuel == 0 {
        p
    } else {
        let f = (fuel - 1) as nat;
        let op = p.prev.type_;
        let rule = spec_get_rule(op);
        let p1 = spec_parse_precedence(p, spec_prec_next(rule.precedence), f);
        if op == TokenType::PLUS {
            spec_emit_byte(p1, spec_opcode_byte(Opcode::OP_ADD))
        } else if op == TokenType::MINUS {
            spec_emit_byte(p1, spec_opcode_byte(Opcode::OP_SUBTRACT))
        } else if op == TokenType::STAR {
            spec_emit_byte(p1, spec_opcode_byte(Opcode::OP_MULTIPLY))
        } else if op == TokenType::SLASH {
            spec_emit_byte(p1, spec_opcode_byte(Opcode::OP_DIVIDE))
        } else if op == TokenType::NOT_EQUAL {
            spec_emit_bytes(
                p1,
                spec_opcode_byte(Opcode::OP_EQUAL),
                spec_opcode_byte(Opcode::OP_NOT),
            )
        } else if op == TokenType::EQUAL_EQUAL {
            spec_emit_byte(p1, spec_opcode_byte(Opcode::OP_EQUAL))
        } else if op == TokenType::GREATER {
            spec_emit_byte(p1, spec_opcode_byte(Opcode::OP_GREATER))
        } else if op == TokenType::GREATER_EQUAL {
            spec_emit_bytes(
                p1,
                spec_opcode_byte(Opcode::OP_LESS),
                spec_opcode_byte(Opcode::OP_NOT),
            )
        } else if op == TokenType::LESS {
            spec_emit_byte(p1, spec_opcode_byte(Opcode::OP_LESS))
        } else if op == TokenType::LESS_EQUAL {
            spec_emit_bytes(
                p1,
                spec_opcode_byte(Opcode::OP_GREATER),
                spec_opcode_byte(Opcode::OP_NOT),
            )
        } else {
            p1
        }
    }
}

/// Compile a variable reference (the prefix handler for identifiers).
pub open spec fn spec_parse_variable_prefix(p: ParserModel, can_assign: bool, fuel: nat) -> ParserModel
    decreases fuel,
{
    if fuel == 0 {
        p
    } else {
        spec_named_variable(p, p.prev, can_assign, (fuel - 1) as nat)
    }
}

/// Compile a named variable: its name becomes a string constant; at
/// assignment power a following `=` compiles a store, anything else a load.
pub open spec fn spec_named_variable(p: ParserModel, name: TokenModel, can_assign: bool, fuel: nat) -> ParserModel
    decreases fuel,
{
    if fuel == 0 {
        p
    } else {
        let f = (fuel - 1) as nat;
        let (p1, arg) = spec_identifier_constant(p, name);
        if can_assign {
            let (p2, m) = spec_match(p1, TokenType::EQUAL);
            if m {
                spec_emit_bytes(
                    spec_expression(p2, f),
                    spec_opcode_byte(Opcode::OP_SET_GLOBAL),
                    arg,
                )
            } else {
                spec_emit_bytes(p2, spec_opcode_byte(Opcode::OP_GET_GLOBAL), arg)
            }
        } else {
            spec_emit_bytes(p1, spec_opcode_byte(Opcode::OP_GET_GLOBAL), arg)
        }
    }
}

/// Compile one expression at assignment power.
pub open spec fn spec_expression(p: ParserModel, fuel: nat) -> ParserModel
    decreases fuel,
{
    if fuel == 0 {
        p
    } else {
        spec_parse_precedence(p, Precedence::PREC_ASSIGNMENT, (fuel - 1) as nat)
    }
}

/// Compile a `var` declaration: the name, its initializer (or an implicit
/// nil), the closing `;`, and the definition of the variable.
pub open spec fn spec_var_declaration(p: ParserModel, fuel: nat) -> ParserModel
    decreases fuel,
{
    if fuel == 0 {
        p
    } else {
        let f = (fuel - 1) as nat;
        let (p1, global) = spec_parse_variable(p, "Expect variable name"@);
        let (p2, m) = spec_match(p1, TokenType::EQUAL);
        let p3 = if m {
            spec_expression(p2, f)
        } else {
            spec_emit_byte(p2, spec_opcode_byte(Opcode::OP_NIL))
        };
        let p4 = spec_consume(p3, TokenType::SEMICOLON, "Expect ';' at the end of expression."@);
        spec_define_variable(p4, global)
    }
}

/// Compile a `print` statement.
pub open spec fn spec_print_statement(p: ParserModel, fuel: nat) -> ParserModel
    decreases fuel,
{
    if fuel == 0 {
        p
    } else {
        let f = (fuel - 1) as nat;
        let p1 = spec_expression(p, f);
        let p2 = spec_consume(p1, TokenType::SEMICOLON, "Expect ';' at the end of expression."@);
        spec_emit_byte(p2, spec_opcode_byte(Opcode::OP_PRINT))
    }
}

/// Compile an expression statement, discarding its value.
pub open spec fn spec_expression_statement(p: ParserModel, fuel: nat) -> ParserModel
    decreases fuel,
{
    if fuel == 0 {
        p
    } else {
        let f = (fuel - 1) as nat;
        let p1 = spec_expression(p, f);
        let p2 = spec_consume(p1, TokenType::SEMICOLON, "Expect ';' at the end of expression."@);
        spec_emit_byte(p2, spec_opcode_byte(Opcode::OP_POP))
    }
}

/// Compile the declarations of a block, up to the closing brace.
pub open spec fn spec_block_items(p: ParserModel, fuel: nat) -> ParserModel
    decreases fuel,
{
    if fuel == 0 {
        p
    } else {
        let f = (fuel - 1) as nat;
        if p.current.type_ != TokenType::RIGHT_BRACE && p.current.type_ != TokenType::EOF {
            spec_block_items(spec_declaration(p, f), f)
        } else {
            p
        }
    }
}

/// Compile a block and its closing brace.
pub open spec fn spec_block(p: ParserModel, fuel: nat) -> ParserModel
    decreases fuel,
{
    if fuel == 0 {
        p
    } else {
        let f = (fuel - 1) as nat;
        spec_consume(spec_block_items(p, f), TokenType::RIGHT_BRACE, "expect token '}'"@)
    }
}

/// Compile one statement: `print`, a block with its own scope, or a bare
/// expression.
pub open spec fn spec_statement(p: ParserModel, fuel: nat) -> ParserModel
    decreases fuel,
{
    if fuel == 0 {
        p
    } else {
        let f = (fuel - 1) as nat;
        let (p1, m) = spec_match(p, TokenType::PRINT);
        if m {
            spec_print_statement(p1, f)
        } else {
            let (p2, m2) = spec_match(p1, TokenType::LEFT_BRACE);
            if m2 {
                spec_end_scope(spec_block(spec_begin_scope(p2), f))
            } else {
                spec_expression_statement(p2, f)
            }
        }
    }
}


/// The `print` branch of `spec_statement` agrees with the chained steps.
proof fn lemma_statement_print(p0: ParserModel, p1: ParserModel, p5: ParserModel, fuel: nat)
    requires
        fuel >= spec_fuel_at(p0, 7),
        spec_match(p0, TokenType::PRINT) == (p1, true),
        spec_measure(p1) <= spec_measure(p0),
        forall|f: nat| f >= spec_fuel_at(p1, 6) ==> spec_print_statement(p1, f) == p5,
    ensures
        spec_statement(p0, fuel) == p5,
{
    let f = (fuel - 1) as nat;
    assert(f >= spec_fuel_at(p1, 6));
    assert(spec_print_statement(p1, f) == p5);
}

/// The expression branch of `spec_statement` agrees with the chained steps.
proof fn lemma_statement_expr(
    p0: ParserModel,
    p1: ParserModel,
    p2: ParserModel,
    p5: ParserModel,
    fuel: nat,
)
    requires
        fuel >= spec_fuel_at(p0, 7),
        spec_match(p0, TokenType::PRINT) == (p1, false),
        spec_match(p1, TokenType::LEFT_BRACE) == (p2, false),
        spec_measure(p2) <= spec_measure(p0),
        forall|f: nat| f >= spec_fuel_at(p2, 6) ==> spec_expression_statement(p2, f) == p5,
    ensures
        spec_statement(p0, fuel) == p5,
{
    let f = (fuel - 1) as nat;
    assert(f >= spec_fuel_at(p2, 6));
    assert(spec_expression_statement(p2, f) == p5);
}

/// Compile one declaration: a `var` declaration or a statement, resuming at
/// the next statement boundary after an error.
pub open spec fn spec_declaration(p: ParserModel, fuel: nat) -> ParserModel
    decreases fuel,
{
    if fuel == 0 {
        p
    } else {
        let f = (fuel - 1) as nat;
        let (p1, m) = spec_match(p, TokenType::VAR);
        let p2 = if m {
            spec_var_declaration(p1, f)
        } else {
            spec_statement(p1, f)
        };
        if p2.panic_mode {
            spec_sync(p2)
        } else {
            p2
        }
    }
}

/// Compile declarations until the end of the token stream.
pub open spec fn spec_declarations(p: ParserModel, fuel: nat) -> ParserModel
    decreases fuel,
{
    if fuel == 0 {
        p
    } else {
        let f = (fuel - 1) as nat;
        let (p1, m) = spec_match(p, TokenType::EOF);
        if m {
            p1
        } else {
            spec_declarations(spec_declaration(p1, f), f)
        }
    }
}

/// Finish compilation: the unit ends with a return instruction.
pub open spec fn spec_end_compiler(p: ParserModel) -> ParserModel {
    spec_emit_byte(p, spec_opcode_byte(Opcode::OP_RETURN))
}

/// Fuel that is ample for a whole compilation of the given source.
pub open spec fn spec_compile_fuel(src: Seq<u8>) -> nat {
    (32 * src.len() + 32) as nat
}

/// The model of `compile` from an arbitrary starting state.
pub open spec fn spec_compile_from(p: ParserModel) -> ParserModel {
    let p1 = spec_advance(p);
    let p2 = spec_declarations(p1, spec_compile_fuel(p.src));
    spec_end_compiler(p2)
}

/// The model of a freshly initialized token.
pub open spec fn spec_init_token() -> TokenModel {
    TokenModel {
        type_: TokenType::ERROR,
        line: 0,
        start: 0,
        len: 0,
        text: Seq::<u8>::empty(),
        message: ""@,
    }
}

/// The model of a freshly initialized compiler over the given source and
/// compiled unit.
pub open spec fn spec_init_model(src: Seq<u8>, chunk: ChunkModel) -> ParserModel {
    ParserModel {
        src,
        pos: 0,
        line: 1,
        current: spec_init_token(),
        prev: spec_init_token(),
        chunk,
        locals: Seq::<LocalModel>::empty(),
        scope_depth: 0,
        had_error: false,
        panic_mode: false,
        diags: Seq::<DiagModel>::empty(),
    }
}

/// The compilation function of the language: the whole compiler state that
/// compiling the given source text into a fresh unit produces.
pub open spec fn spec_compile(src: Seq<u8>) -> ParserModel {
    spec_compile_from(spec_init_model(src, ChunkModel::empty()))
}

/// One reported compile error: the source line, the offending lexeme where
/// one applies, and a human-readable message.
#[derive(Clone, Debug)]
pub struct Diagnostic {
    line: usize,
    lexeme: Vec<u8>,
    message: &'static str,
}

impl View for Diagnostic {
    type V = DiagModel;

    closed spec fn view(&self) -> DiagModel {
        DiagModel { line: self.line as int, lexeme: self.lexeme@, message: self.message@ }
    }
}

impl Diagnostic {
    /// The source line the error was reported at.
    pub fn get_line(&self) -> (r: usize)
        ensures
            r == self@.line,
    {
        self.line
    }

    /// The offending lexeme; empty where none applies.
    pub fn get_lexeme(&self) -> (r: &Vec<u8>)
        ensures
            r@ == self@.lexeme,
    {
        &self.lexeme
    }

    /// The message.
    pub fn get_message(&self) -> (r: &'static str)
        ensures
            r@ == self@.message,
    {
        self.message
    }
}

/// A local variable: its name token and its declaration depth, where -1
/// marks "declared but not yet initialized".
pub struct Local {
    name: Token,
    depth: i64,
}

impl View for Local {
    type V = LocalModel;

    closed spec fn view(&self) -> LocalModel {
        LocalModel { name: self.name@, depth: self.depth as int }
    }
}

impl Local {
    /// A placeholder local with an empty name at depth zero.
    pub fn new() -> (r: Self)
        ensures
            r@ == (LocalModel { name: spec_init_token(), depth: 0 }),
    {
        let r = Local { name: Token::init_token(Vec::new()), depth: 0 };
        proof {
            assert(r@.name.text =~= Seq::<u8>::empty());
        }
        r
    }
}

/// The lexical-scope state: the locals of the enclosing blocks and the
/// current scope depth.
pub struct Compiler {
    locals: Vec<Local>,
    scope_depth: usize,
}

impl Compiler {
    /// The models of the locals, in declaration order.
    pub closed spec fn locals_model(&self) -> Seq<LocalModel> {
        self.locals@.map_values(|l: Local| l@)
    }

    /// The current scope depth.
    pub closed spec fn depth_model(&self) -> int {
        self.scope_depth as int
    }

    /// A compiler state at global scope with no locals.
    pub fn new() -> (r: Self)
        ensures
            r.locals_model() == Seq::<LocalModel>::empty(),
            r.depth_model() == 0,
    {
        let r = Compiler { locals: Vec::new(), scope_depth: 0 };
        proof {
            assert(r.locals_model() =~= Seq::<LocalModel>::empty());
        }
        r
    }
}

/// The compiler: token lookahead, one scanner, one compiled unit under
/// exclusive construction, scope state, error flags, and the diagnostics
/// collected so far.
pub struct CompilerParser {
    current_compiler: Compiler,
    current: Token,
    prev: Token,
    scanner: Scanner,
    chunk: Chunk,
    had_error: bool,
    panic_mode: bool,
    diagnostics: Vec<Diagnostic>,
}

impl View for CompilerParser {
    type V = ParserModel;

    closed spec fn view(&self) -> ParserModel {
        ParserModel {
            src: self.scanner.src(),
            pos: self.scanner.pos(),
            line: self.scanner.line_no(),
            current: self.current@,
            prev: self.prev@,
            chunk: self.chunk@,
            locals: self.current_compiler.locals@.map_values(|l: Local| l@),
            scope_depth: self.current_compiler.scope_depth as int,
            had_error: self.had_error,
            panic_mode: self.panic_mode,
            diags: self.diagnostics@.map_values(|d: Diagnostic| d@),
        }
    }
}

impl CompilerParser {
    /// Well-formedness: the scanner is inside its buffer, the source leaves
    /// room for depth arithmetic, and the scope depth is below its bound.
    pub closed spec fn wf(&self) -> bool {
        &&& self.scanner.wf()
        &&& self@.src.len() < i64::MAX
        &&& 0 <= self@.scope_depth <= MAX_SCOPE_DEPTH
        &&& self@.locals.len() <= 256
    }

    /// The previous token.
    pub fn get_prev(&self) -> (r: &Token)
        ensures
            r@ == self@.prev,
    {
        &self.prev
    }

    /// The compiled unit.
    pub fn get_chunk(&self) -> (r: &Chunk)
        ensures
            r@ == self@.chunk,
    {
        &self.chunk
    }

    /// Hand the compiled unit and the diagnostics over once compilation is
    /// finished.
    pub fn into_parts(self) -> (r: (Chunk, Vec<Diagnostic>))
        ensures
            r.0@ == self@.chunk,
            r.1@.map_values(|d: Diagnostic| d@) == self@.diags,
    {
        (self.chunk, self.diagnostics)
    }

    /// The diagnostics collected so far, in order of discovery.
    pub fn get_diagnostics(&self) -> (r: &Vec<Diagnostic>)
        ensures
            r@.map_values(|d: Diagnostic| d@) == self@.diags,
            r@.len() == self@.diags.len(),
    {
        &self.diagnostics
    }

    /// A compiler over the given scanner, writing into the given unit.
    pub fn init_compiler(scanner: Scanner, chunk: Chunk) -> (r: Self)
        requires
            scanner.wf(),
            scanner.src().len() < i64::MAX,
        ensures
            r.wf(),
            r@ == (ParserModel {
                src: scanner.src(),
                pos: scanner.pos(),
                line: scanner.line_no(),
                current: spec_init_token(),
                prev: spec_init_token(),
                chunk: chunk@,
                locals: Seq::<LocalModel>::empty(),
                scope_depth: 0,
                had_error: false,
                panic_mode: false,
                diags: Seq::<DiagModel>::empty(),
            }),
    {
        let r = CompilerParser {
            current_compiler: Compiler::new(),
            current: Token::init_token(Vec::new()),
            prev: Token::init_token(Vec::new()),
            chunk,
            scanner,
            had_error: false,
            panic_mode: false,
            diagnostics: Vec::new(),
        };
        proof {
            assert(r@.current.text =~= Seq::<u8>::empty());
            assert(r@.prev.text =~= Seq::<u8>::empty());
            assert(r@.locals =~= Seq::<LocalModel>::empty());
            assert(r@.diags =~= Seq::<DiagModel>::empty());
        }
        r
    }

    /// Record an error at the given token, unless already panicking.
    fn error_at_token(&mut self, ghost_tok: Ghost<TokenModel>, line: usize, lexeme: Vec<u8>, message: &'static str)
        requires
            old(self).wf(),
            ghost_tok@.line == line as int,
            ghost_tok@.text == lexeme@,
        ensures
            final(self).wf(),
            final(self)@ == spec_error_at(old(self)@, ghost_tok@, message@),
    {
        if self.panic_mode {
            return ;
        }
        let d = Diagnostic { line, lexeme, message };
        self.diagnostics.push(d);
        self.had_error = true;
        self.panic_mode = true;
        proof {
            assert(self@.diags =~= old(self)@.diags.push(
                DiagModel { line: ghost_tok@.line, lexeme: ghost_tok@.text, message: message@ },
            ));
        }
    }

    /// Record an error at the current token.
    pub(crate) fn error_at_current(&mut self, message: &'static str)
        requires
            old(self).wf(),
        ensures
            final(self).wf(),
            final(self)@ == spec_error_at_current(old(self)@, message@),
    {
        let line = self.current.get_line();
        let lexeme = crate::value::clone_bytes(self.current.get_sized_content());
        let ghost tok = self@.current;
        self.error_at_token(Ghost(tok), line, lexeme, message);
    }

    /// Record an error at the previous token.
    pub(crate) fn error(&mut self, message: &'static str)
        requires
            old(self).wf(),
        ensures
            final(self).wf(),
            final(self)@ == spec_error(old(self)@, message@),
    {
        let line = self.prev.get_line();
        let lexeme = crate::value::clone_bytes(self.prev.get_sized_content());
        let ghost tok = self@.prev;
        self.error_at_token(Ghost(tok), line, lexeme, message);
    }

    /// Append one bytecode byte, tagged with the previous token's line.
    pub fn emit_byte(&mut self, byte: u8)
        requires
            old(self).wf(),
        ensures
            final(self).wf(),
            final(self)@ == spec_emit_byte(old(self)@, byte),
    {
        let line = self.prev.get_line();
        self.chunk.write_chunk(byte, line);
    }

    /// Append two bytecode bytes.
    pub fn emit_bytes(&mut self, byte1: u8, byte2: u8)
        requires
            old(self).wf(),
        ensures
            final(self).wf(),
            final(self)@ == spec_emit_bytes(old(self)@, byte1, byte2),
    {
        self.emit_byte(byte1);
        self.emit_byte(byte2);
    }

    /// Emit the return instruction that ends every unit.
    pub fn emit_return(&mut self)
        requires
            old(self).wf(),
        ensures
            final(self).wf(),
            final(self)@ == spec_end_compiler(old(self)@),
    {
        self.emit_byte(Opcode::OP_RETURN.as_byte());
    }

    /// Finish compilation.
    pub fn end_compiler(&mut self)
        requires
            old(self).wf(),
        ensures
            final(self).wf(),
            final(self)@ == spec_end_compiler(old(self)@),
    {
        self.emit_return();
    }

    /// Append a constant and return its one-byte index; past 255 the unit
    /// is full and a compile error is recorded.
    pub fn make_constant(&mut self, value: Value) -> (r: u8)
        requires
            old(self).wf(),
        ensures
            final(self).wf(),
            ({
                let (q, idx) = spec_make_constant(old(self)@, value@);
                final(self)@ == q && r == idx
            }),
    {
        let index = self.chunk.add_constant(value);
        if index > 255 {
            self.error("Too many constant in chunk");
            0
        } else {
            index as u8
        }
    }

    /// Append a constant and emit the instruction that loads it.
    pub fn emit_constant(&mut self, value: Value)
        requires
            old(self).wf(),
        ensures
            final(self).wf(),
            final(self)@ == spec_emit_constant(old(self)@, value@),
    {
        let idx = self.make_constant(value);
        self.emit_bytes(Opcode::OP_CONSTANT.as_byte(), idx);
    }

    /// Store an identifier's name as a string constant.
    pub fn identifier_constant(&mut self, name: &Token) -> (r: u8)
        requires
            old(self).wf(),
        ensures
            final(self).wf(),
            ({
                let (q, idx) = spec_identifier_constant(old(self)@, name@);
                final(self)@ == q && r == idx
            }),
    {
        let bytes = crate::value::clone_bytes(name.get_sized_content());
        self.make_constant(Value::obj_val(Obj::str_obj(ObjString::from(bytes))))
    }

    /// Step the lookahead, reporting and skipping `ERROR` tokens.
    fn advance(&mut self)
        requires
            old(self).wf(),
        ensures
            final(self).wf(),
            final(self)@ == spec_advance(old(self)@),
            final(self)@.src == old(self)@.src,
            spec_measure(final(self)@) <= spec_measure(old(self)@),
            old(self)@.current.type_ != TokenType::EOF ==> spec_measure(final(self)@)
                < spec_measure(old(self)@),
    {
        proof {
            lemma_advance_measure(old(self)@);
        }
        self.prev = self.current.duplicate();
        let ghost p1 = self@;
        loop
            invariant_except_break
                spec_advance_loop(p1) == spec_advance_loop(self@),
            invariant
                self.wf(),
                0 <= self@.pos <= self@.src.len(),
            ensures
                self.wf(),
                spec_advance_loop(p1) == self@,
            decreases self@.src.len() - self@.pos,
        {
            let ghost before = self@;
            proof {
                lemma_scan_token_bounds(before.src, before.pos, before.line);
            }
            let tok = self.scanner.scan_token();
            let is_err = *tok.get_type() == TokenType::ERROR;
            let msg = tok.get_message();
            self.current = tok;
            if !is_err {
                break ;
            }
            self.error_at_current(msg);
        }
    }

    /// Consume the current token only if it has the given kind.
    pub fn match_(&mut self, type_: TokenType) -> (r: bool)
        requires
            old(self).wf(),
        ensures
            final(self).wf(),
            ({
                let (q, m) = spec_match(old(self)@, type_);
                final(self)@ == q && r == m
            }),
            final(self)@.src == old(self)@.src,
            spec_measure(final(self)@) <= spec_measure(old(self)@),
            ({
                let (q, m) = spec_match(old(self)@, type_);
                m && type_ != TokenType::EOF ==> spec_measure(final(self)@) < spec_measure(
                    old(self)@,
                )
            }),
    {
        if *self.current.get_type() != type_ {
            return false;
        }
        self.advance();
        true
    }

    /// Consume the current token of the expected kind, or report an error.
    pub fn consume(&mut self, token_type: &TokenType, message: &'static str)
        requires
            old(self).wf(),
        ensures
            final(self).wf(),
            final(self)@ == spec_consume(old(self)@, *token_type, message@),
            final(self)@.src == old(self)@.src,
            spec_measure(final(self)@) <= spec_measure(old(self)@),
            old(self)@.current.type_ == *token_type && *token_type != TokenType::EOF
                ==> spec_measure(final(self)@) < spec_measure(old(self)@),
    {
        if *self.current.get_type() == *token_type {
            return self.advance();
        }
        self.error_at_current(message);
    }

    /// Whether the current token has the given kind.
    pub fn check(&self, token_kind: TokenType) -> (r: bool)
        ensures
            r == (self@.current.type_ == token_kind),
    {
        *self.current.get_type() == token_kind
    }

    /// Enter a block scope.
    pub fn begin_scope(&mut self)
        requires
            old(self).wf(),
        ensures
            final(self).wf(),
            final(self)@ == spec_begin_scope(old(self)@),
    {
        if self.current_compiler.scope_depth < MAX_SCOPE_DEPTH {
            self.current_compiler.scope_depth += 1;
        }
    }

    /// Leave a block scope, discarding its locals.
    pub fn end_scope(&mut self)
        requires
            old(self).wf(),
        ensures
            final(self).wf(),
            final(self)@ == spec_end_scope(old(self)@),
            spec_measure(final(self)@) == spec_measure(old(self)@),
            final(self)@.src == old(self)@.src,
    {
        if self.current_compiler.scope_depth > 0 {
            self.current_compiler.scope_depth -= 1;
        }
        let ghost p0 = self@;
        while self.current_compiler.locals.len() > 0 && self.current_compiler.locals[self.current_compiler.locals.len()
            - 1].depth > self.current_compiler.scope_depth as i64
            invariant
                self.wf(),
                spec_pop_locals(p0) == spec_pop_locals(self@),
                spec_measure(self@) == spec_measure(p0),
                self@.src == p0.src,
                self@.scope_depth == p0.scope_depth,
            decreases self@.locals.len(),
        {
            self.emit_byte(Opcode::OP_POP.as_byte());
            let ghost mid = self@;
            let popped = self.current_compiler.locals.pop();
            proof {
                assert(self@.locals =~= mid.locals.drop_last());
            }
        }
        proof {
            assert(spec_pop_locals(self@) == self@);
        }
    }

    /// Whether the previous token's name is already declared in the
    /// innermost scope.
    fn is_redeclared(&self) -> (r: bool)
        requires
            self.wf(),
        ensures
            r == spec_redeclared(
                self@.locals,
                self@.scope_depth,
                self@.prev.text,
                self@.locals.len() as int,
            ),
    {
        let mut i: usize = self.current_compiler.locals.len();
        loop
            invariant
                self.wf(),
                0 <= i <= self@.locals.len(),
                spec_redeclared(
                    self@.locals,
                    self@.scope_depth,
                    self@.prev.text,
                    self@.locals.len() as int,
                ) == spec_redeclared(self@.locals, self@.scope_depth, self@.prev.text, i as int),
            ensures
                spec_redeclared(
                    self@.locals,
                    self@.scope_depth,
                    self@.prev.text,
                    self@.locals.len() as int,
                ) == spec_redeclared(self@.locals, self@.scope_depth, self@.prev.text, i as int),
                i == 0 || ({
                    let l = self@.locals[i - 1];
                    (l.depth != -1 && l.depth < self@.scope_depth) || l.name.text
                        == self@.prev.text
                }),
            decreases i,
        {
            if i == 0 {
                break ;
            }
            let local = &self.current_compiler.locals[i - 1];
            if local.depth != -1 && local.depth < self.current_compiler.scope_depth as i64 {
                break ;
            }
            if crate::value::bytes_equal(
                local.name.get_sized_content(),
                self.prev.get_sized_content(),
            ) {
                break ;
            }
            i -= 1;
        }
        if i == 0 {
            return false;
        }
        let local = &self.current_compiler.locals[i - 1];
        if local.depth != -1 && local.depth < self.current_compiler.scope_depth as i64 {
            return false;
        }
        crate::value::bytes_equal(local.name.get_sized_content(), self.prev.get_sized_content())
    }

    /// Record a new local for the previous token's name.
    fn add_local(&mut self, token: &Token)
        requires
            old(self).wf(),
        ensures
            final(self).wf(),
            final(self)@ == spec_add_local(old(self)@, token@),
    {
        if self.current_compiler.locals.len() >= 256 {
            self.error("too many local variable");
            return ;
        }
        let local = Local { name: token.duplicate(), depth: -1 };
        self.current_compiler.locals.push(local);
        proof {
            assert(self@.locals =~= old(self)@.locals.push(
                LocalModel { name: token@, depth: -1 },
            ));
        }
    }

    /// Whether two tokens name the same identifier.
    fn identifier_equal(&self, first: &Token, second: &Token) -> (r: bool)
        ensures
            r == (first@.text == second@.text),
    {
        crate::value::bytes_equal(first.get_sized_content(), second.get_sized_content())
    }

    /// Declare the variable named by the previous token in the current
    /// scope.
    fn declare_variable(&mut self)
        requires
            old(self).wf(),
        ensures
            final(self).wf(),
            final(self)@ == spec_declare_variable(old(self)@),
    {
        if self.current_compiler.scope_depth == 0 {
            return ;
        }
        if self.is_redeclared() {
            self.error("A variable with the same name already exist");
        }
        let token = self.prev.duplicate();
        self.add_local(&token);
    }

    /// Mark the newest local as initialized at the current depth.
    fn mark_initialized(&mut self)
        requires
            old(self).wf(),
        ensures
            final(self).wf(),
            final(self)@ == spec_mark_initialized(old(self)@),
    {
        if self.current_compiler.locals.len() == 0 {
            return ;
        }
        let last = self.current_compiler.locals.pop();
        match last {
            Some(l) => {
                let updated = Local {
                    depth: self.current_compiler.scope_depth as i64,
                    ..l
                };
                self.current_compiler.locals.push(updated);
                proof {
                    let i = old(self)@.locals.len() - 1;
                    assert(self@.locals =~= old(self)@.locals.update(
                        i,
                        LocalModel { depth: old(self)@.scope_depth, ..old(self)@.locals[i] },
                    ));
                }
            },
            None => {},
        }
    }

    /// Finish a variable declaration.
    pub fn define_variable(&mut self, global: u8)
        requires
            old(self).wf(),
        ensures
            final(self).wf(),
            final(self)@ == spec_define_variable(old(self)@, global),
    {
        if self.current_compiler.scope_depth > 0 {
            self.mark_initialized();
            return ;
        }
        self.emit_bytes(Opcode::OP_DEFINE_GLOBAL.as_byte(), global);
    }

    /// Consume an identifier as a variable name and declare it; at global
    /// scope the name becomes a string constant whose index is returned.
    pub fn parse_variable(&mut self, error_message: &'static str) -> (r: u8)
        requires
            old(self).wf(),
        ensures
            final(self).wf(),
            ({
                let (q, idx) = spec_parse_variable(old(self)@, error_message@);
                final(self)@ == q && r == idx
            }),
            final(self)@.src == old(self)@.src,
            spec_measure(final(self)@) <= spec_measure(old(self)@),
    {
        self.consume(&TokenType::IDENTIFIER, error_message);
        self.declare_variable();
        if self.current_compiler.scope_depth > 0 {
            return 0;
        }
        let name = self.prev.duplicate();
        self.identifier_constant(&name)
    }

    /// Resolve a name against the locals, innermost first: the slot index
    /// of the nearest local with that name, or -1.
    pub fn resolve_local(&mut self, name: &Token) -> (r: i32)
        requires
            old(self).wf(),
        ensures
            final(self).wf(),
            ({
                let (q, idx) = spec_resolve_local(old(self)@, name@);
                final(self)@ == q && r as int == idx
            }),
    {
        let ghost p0 = self@;
        let mut i: usize = self.current_compiler.locals.len();
        loop
            invariant
                self.wf(),
                self@ == p0,
                0 <= i <= self@.locals.len(),
                self@.locals.len() <= 256,
                spec_resolve_loop(p0, name@.text, p0.locals.len() as int) == spec_resolve_loop(
                    p0,
                    name@.text,
                    i as int,
                ),
            ensures
                self.wf(),
                self@ == p0,
                i <= self@.locals.len(),
                spec_resolve_loop(p0, name@.text, p0.locals.len() as int) == spec_resolve_loop(
                    p0,
                    name@.text,
                    i as int,
                ),
                i == 0 || self@.locals[i - 1].name.text == name@.text,
            decreases i,
        {
            if i == 0 {
                break ;
            }
            let local = &self.current_compiler.locals[i - 1];
            if self.identifier_equal(name, &local.name) {
                break ;
            }
            i -= 1;
        }
        if i == 0 {
            return -1;
        }
        let local_depth = self.current_compiler.locals[i - 1].depth;
        if local_depth == -1 {
            self.error("Can't read local variable in its own initializer.");
        }
        (i - 1) as i32
    }

    /// Leave panic mode and skip to the next statement boundary.
    pub fn sync(&mut self)
        requires
            old(self).wf(),
        ensures
            final(self).wf(),
            final(self)@ == spec_sync(old(self)@),
            final(self)@.src == old(self)@.src,
            spec_measure(final(self)@) <= spec_measure(old(self)@),
    {
        self.panic_mode = false;
        let ghost p0 = self@;
        loop
            invariant
                self.wf(),
                self@.src == p0.src,
                spec_measure(self@) <= spec_measure(p0),
                spec_sync_loop(p0) == spec_sync_loop(self@),
            ensures
                self.wf(),
                self@.src == p0.src,
                spec_measure(self@) <= spec_measure(p0),
                spec_sync_loop(p0) == self@,
            decreases spec_measure(self@),
        {
            if *self.current.get_type() == TokenType::EOF {
                break ;
            }
            if *self.prev.get_type() == TokenType::SEMICOLON {
                break ;
            }
            let t = *self.current.get_type();
            if t == TokenType::CLASS || t == TokenType::FUN || t == TokenType::VAR || t
                == TokenType::FOR || t == TokenType::IF || t == TokenType::WHILE || t
                == TokenType::PRINT || t == TokenType::RETURN {
                break ;
            }
            self.advance();
        }
    }

    /// Whether the locals list has reached its cap (used by tests and
    /// callers that want to predict `add_local`).
    pub fn locals_len(&self) -> (r: usize)
        ensures
            r == self@.locals.len(),
    {
        self.current_compiler.locals.len()
    }

    /// Compile an expression at the given minimum binding power.
    #[verifier::rlimit(100)]
    #[verifier::spinoff_prover]
    pub fn parse_precedence(&mut self, precedence: &Precedence)
        requires
            old(self).wf(),
            spec_prec_rank(*precedence) >= 1,
        ensures
            final(self).wf(),
            final(self)@.src == old(self)@.src,
            spec_measure(final(self)@) <= spec_measure(old(self)@),
            old(self)@.current.type_ != TokenType::EOF ==> spec_measure(final(self)@)
                < spec_measure(old(self)@),
            forall|fuel: nat|
                fuel >= spec_fuel_at(old(self)@, 2) ==> spec_parse_precedence(
                    old(self)@,
                    *precedence,
                    fuel,
                ) == final(self)@,
        decreases spec_measure(self@), 2int,
    {
        let ghost p0 = self@;
        self.advance();
        let ghost p1 = self@;
        let can_assign = precedence.rank() <= Precedence::PREC_ASSIGNMENT.rank();
        let prev_kind = *self.prev.get_type();
        let rule = crate::parser::get_rule(&prev_kind);
        let prefix = *rule.get_prefix();
        match prefix {
            None => {
                self.error("Expect expression");
                proof {
                    assert forall|fuel: nat|
                        fuel >= spec_fuel_at(p0, 2) implies spec_parse_precedence(
                        p0,
                        *precedence,
                        fuel,
                    ) == self@ by {
                        assert(spec_advance(p0) == p1);
                    };
                }
            },
            Some(pf) => {
                proof {
                    lemma_advance_measure(p0);
                    assert(p1.prev == p0.current);
                    assert(spec_get_rule(TokenType::EOF).prefix is None);
                    assert(p0.current.type_ != TokenType::EOF);
                }
                crate::parser::run_parse_fn(self, pf, can_assign);
                let ghost p2 = self@;
                let ghost mut spent: int = 0;
                loop
                    invariant_except_break
                        forall|f: nat|
                            f >= spec_fuel_at(p2, 1) ==> spec_infix_loop(
                                p2,
                                *precedence,
                                can_assign,
                                f,
                            ) == spec_infix_loop(
                                self@,
                                *precedence,
                                can_assign,
                                (f - spent) as nat,
                            ),
                    invariant
                        self.wf(),
                        self@.src == p2.src,
                        spec_prec_rank(*precedence) >= 1,
                        p0 == old(self)@,
                        spec_measure(p2) < spec_measure(p0),
                        0 <= spent,
                        spent <= spec_fuel_step() * (spec_measure(p2) - spec_measure(self@)),
                        spec_measure(self@) <= spec_measure(p2),
                    ensures
                        self.wf(),
                        self@.src == p2.src,
                        spec_measure(self@) <= spec_measure(p2),
                        forall|f: nat|
                            f >= spec_fuel_at(p2, 1) ==> spec_infix_loop(
                                p2,
                                *precedence,
                                can_assign,
                                f,
                            ) == self@,
                    decreases spec_measure(self@),
                {
                    let cur_kind = *self.current.get_type();
                    let cur_rule = crate::parser::get_rule(&cur_kind);
                    if precedence.rank() > cur_rule.get_precedence().rank() {
                        proof {
                            assert forall|f: nat|
                                f >= spec_fuel_at(p2, 1) implies spec_infix_loop(
                                p2,
                                *precedence,
                                can_assign,
                                f,
                            ) == self@ by {
                                assert((f - spent) as nat >= 1);
                                assert(spec_infix_loop(
                                    self@,
                                    *precedence,
                                    can_assign,
                                    (f - spent) as nat,
                                ) == self@);
                            };
                        }
                        break ;
                    }
                    let ghost q0 = self@;
                    proof {
                        assert(q0.current.type_ != TokenType::EOF);
                    }
                    self.advance();
                    let ghost q1 = self@;
                    let inf = *crate::parser::get_rule(self.prev.get_type()).get_infx();
                    match inf {
                        Some(inf_fn) => {
                            crate::parser::run_infix_fn(self, inf_fn, can_assign);
                            proof {
                                spent = spent + 1;
                                assert forall|f: nat|
                                    f >= spec_fuel_at(p2, 1) implies spec_infix_loop(
                                    p2,
                                    *precedence,
                                    can_assign,
                                    f,
                                ) == spec_infix_loop(
                                    self@,
                                    *precedence,
                                    can_assign,
                                    (f - spent) as nat,
                                ) by {
                                    let g = (f - (spent - 1)) as nat;
                                    assert(g >= spec_fuel_at(q0, 1));
                                    assert(spec_advance(q0) == q1);
                                    assert((g - 1) as nat >= spec_fuel_at(q1, 5));
                                    assert(spec_run_infix(q1, inf_fn, can_assign, (g - 1) as nat)
                                        == self@);
                                    assert(spec_infix_loop(q0, *precedence, can_assign, g)
                                        == spec_infix_loop(
                                        self@,
                                        *precedence,
                                        can_assign,
                                        (g - 1) as nat,
                                    ));
                                    assert((f - spent) as nat == (g - 1) as nat);
                                };
                            }
                        },
                        None => {
                            proof {
                                lemma_advance_measure(q0);
                                assert(q1.prev == q0.current);
                                crate::parser::lemma_rank_infix(q0.current.type_);
                                assert(false);
                            }
                        },
                    }
                }
                let ghost p3 = self@;
                if can_assign {
                    let m = self.match_(TokenType::EQUAL);
                    if m {
                        self.error("invalid assignment target");
                    }
                }
                proof {
                    assert forall|fuel: nat|
                        fuel >= spec_fuel_at(p0, 2) implies spec_parse_precedence(
                        p0,
                        *precedence,
                        fuel,
                    ) == self@ by {
                        let f = (fuel - 1) as nat;
                        assert(spec_advance(p0) == p1);
                        assert(f >= spec_fuel_at(p1, 5));
                        assert(spec_run_prefix(p1, pf, can_assign, f) == p2);
                        assert(f >= spec_fuel_at(p2, 1));
                        assert(spec_infix_loop(p2, *precedence, can_assign, f) == p3);
                    };
                }
            },
        }
    }

    /// Compile one expression at assignment power.
    pub fn expression(&mut self)
        requires
            old(self).wf(),
        ensures
            final(self).wf(),
            final(self)@.src == old(self)@.src,
            spec_measure(final(self)@) <= spec_measure(old(self)@),
            old(self)@.current.type_ != TokenType::EOF ==> spec_measure(final(self)@)
                < spec_measure(old(self)@),
            forall|fuel: nat|
                fuel >= spec_fuel_at(old(self)@, 3) ==> spec_expression(old(self)@, fuel)
                    == final(self)@,
        decreases spec_measure(self@), 3int,
    {
        let ghost p0 = self@;
        self.parse_precedence(&Precedence::PREC_ASSIGNMENT);
        proof {
            assert forall|fuel: nat|
                fuel >= spec_fuel_at(p0, 3) implies spec_expression(p0, fuel) == self@ by {
                let f = (fuel - 1) as nat;
                assert(f >= spec_fuel_at(p0, 2));
                assert(spec_parse_precedence(p0, Precedence::PREC_ASSIGNMENT, f) == self@);
            };
        }
    }

    /// Compile a `var` declaration.
    #[verifier::rlimit(100)]
    #[verifier::spinoff_prover]
    pub fn var_declaration(&mut self)
        requires
            old(self).wf(),
        ensures
            final(self).wf(),
            final(self)@.src == old(self)@.src,
            spec_measure(final(self)@) <= spec_measure(old(self)@),
            forall|fuel: nat|
                fuel >= spec_fuel_at(old(self)@, 6) ==> spec_var_declaration(old(self)@, fuel)
                    == final(self)@,
        decreases spec_measure(self@), 6int,
    {
        let ghost p0 = self@;
        let global = self.parse_variable("Expect variable name");
        let ghost p1 = self@;
        let m = self.match_(TokenType::EQUAL);
        let ghost p2 = self@;
        if m {
            self.expression();
        } else {
            self.emit_byte(Opcode::OP_NIL.as_byte());
        }
        let ghost p3 = self@;
        self.consume(&TokenType::SEMICOLON, "Expect ';' at the end of expression.");
        self.define_variable(global);
        proof {
            assert forall|fuel: nat|
                fuel >= spec_fuel_at(p0, 6) implies spec_var_declaration(p0, fuel) == self@ by {
                let f = (fuel - 1) as nat;
                if m {
                    assert(f >= spec_fuel_at(p2, 3));
                    assert(spec_expression(p2, f) == p3);
                }
            };
        }
    }

    /// Compile a `print` statement.
    pub fn print_statement(&mut self)
        requires
            old(self).wf(),
        ensures
            final(self).wf(),
            final(self)@.src == old(self)@.src,
            spec_measure(final(self)@) <= spec_measure(old(self)@),
            old(self)@.current.type_ != TokenType::EOF ==> spec_measure(final(self)@)
                < spec_measure(old(self)@),
            forall|fuel: nat|
                fuel >= spec_fuel_at(old(self)@, 6) ==> spec_print_statement(old(self)@, fuel)
                    == final(self)@,
        decreases spec_measure(self@), 6int,
    {
        let ghost p0 = self@;
        self.expression();
        let ghost p1 = self@;
        self.consume(&TokenType::SEMICOLON, "Expect ';' at the end of expression.");
        self.emit_byte(Opcode::OP_PRINT.as_byte());
        proof {
            assert forall|fuel: nat|
                fuel >= spec_fuel_at(p0, 6) implies spec_print_statement(p0, fuel) == self@ by {
                let f = (fuel - 1) as nat;
                assert(f >= spec_fuel_at(p0, 3));
                assert(spec_expression(p0, f) == p1);
            };
        }
    }

    /// Compile an expression statement, discarding its value.
    pub fn expression_statement(&mut self)
        requires
            old(self).wf(),
        ensures
            final(self).wf(),
            final(self)@.src == old(self)@.src,
            spec_measure(final(self)@) <= spec_measure(old(self)@),
            old(self)@.current.type_ != TokenType::EOF ==> spec_measure(final(self)@)
                < spec_measure(old(self)@),
            forall|fuel: nat|
                fuel >= spec_fuel_at(old(self)@, 6) ==> spec_expression_statement(
                    old(self)@,
                    fuel,
                ) == final(self)@,
        decreases spec_measure(self@), 6int,
    {
        let ghost p0 = self@;
        self.expression();
        let ghost p1 = self@;
        self.consume(&TokenType::SEMICOLON, "Expect ';' at the end of expression.");
        self.emit_byte(Opcode::OP_POP.as_byte());
        proof {
            assert forall|fuel: nat|
                fuel >= spec_fuel_at(p0, 6) implies spec_expression_statement(p0, fuel)
                    == self@ by {
                let f = (fuel - 1) as nat;
                assert(f >= spec_fuel_at(p0, 3));
                assert(spec_expression(p0, f) == p1);
            };
        }
    }

    /// Compile the declarations of a block, up to the closing brace.
    #[verifier::rlimit(100)]
    #[verifier::spinoff_prover]
    pub fn block(&mut self)
        requires
            old(self).wf(),
        ensures
            final(self).wf(),
            final(self)@.src == old(self)@.src,
            spec_measure(final(self)@) <= spec_measure(old(self)@),
            forall|fuel: nat|
                fuel >= spec_fuel_at(old(self)@, 10) ==> spec_block(old(self)@, fuel) == final(self)@,
        decreases spec_measure(self@), 10int,
    {
        let ghost p0 = self@;
        let ghost mut spent: int = 0;
        loop
            invariant_except_break
                forall|f: nat|
                    f >= spec_fuel_at(p0, 9) ==> spec_block_items(p0, f) == spec_block_items(
                        self@,
                        (f - spent) as nat,
                    ),
            invariant
                self.wf(),
                self@.src == p0.src,
                p0 == old(self)@,
                0 <= spent,
                spent <= spec_fuel_step() * (spec_measure(p0) - spec_measure(self@)),
                spec_measure(self@) <= spec_measure(p0),
            ensures
                self.wf(),
                self@.src == p0.src,
                spec_measure(self@) <= spec_measure(p0),
                forall|f: nat| f >= spec_fuel_at(p0, 9) ==> spec_block_items(p0, f) == self@,
            decreases spec_measure(self@),
        {
            if self.check(TokenType::RIGHT_BRACE) || self.check(TokenType::EOF) {
                proof {
                    assert forall|f: nat|
                        f >= spec_fuel_at(p0, 9) implies spec_block_items(p0, f) == self@ by {
                        assert((f - spent) as nat >= 1);
                        assert(spec_block_items(self@, (f - spent) as nat) == self@);
                    };
                }
                break ;
            }
            let ghost q0 = self@;
            self.declaration();
            proof {
                spent = spent + 1;
                assert forall|f: nat|
                    f >= spec_fuel_at(p0, 9) implies spec_block_items(p0, f) == spec_block_items(
                    self@,
                    (f - spent) as nat,
                ) by {
                    let g = (f - (spent - 1)) as nat;
                    assert(g >= spec_fuel_at(q0, 9));
                    assert((g - 1) as nat >= spec_fuel_at(q0, 8));
                    assert(spec_declaration(q0, (g - 1) as nat) == self@);
                    assert(spec_block_items(q0, g) == spec_block_items(self@, (g - 1) as nat));
                    assert((f - spent) as nat == (g - 1) as nat);
                };
            }
        }
        let ghost p_items = self@;
        self.consume(&TokenType::RIGHT_BRACE, "expect token '}'");
        proof {
            assert forall|fuel: nat|
                fuel >= spec_fuel_at(p0, 10) implies spec_block(p0, fuel) == self@ by {
                let f = (fuel - 1) as nat;
                assert(f >= spec_fuel_at(p0, 9));
                assert(spec_block_items(p0, f) == p_items);
                assert(spec_consume(p_items, TokenType::RIGHT_BRACE, "expect token '}'"@)
                    == self@);
            };
        }
    }

    /// Compile a block statement inside a scope of its own.
    #[verifier::rlimit(100)]
    #[verifier::spinoff_prover]
    fn scoped_block(&mut self)
        requires
            old(self).wf(),
        ensures
            final(self).wf(),
            final(self)@.src == old(self)@.src,
            spec_measure(final(self)@) <= spec_measure(old(self)@),
            forall|fuel: nat|
                fuel >= spec_fuel_at(old(self)@, 10) ==> spec_end_scope(
                    spec_block(spec_begin_scope(old(self)@), fuel),
                ) == final(self)@,
        decreases spec_measure(self@), 11int,
    {
        let ghost p2 = self@;
        self.begin_scope();
        let ghost p3 = self@;
        proof {
            assert(spec_measure(p3) == spec_measure(p2));
        }
        self.block();
        let ghost p4 = self@;
        self.end_scope();
        proof {
            assert forall|fuel: nat|
                fuel >= spec_fuel_at(p2, 10) implies spec_end_scope(
                spec_block(spec_begin_scope(p2), fuel),
            ) == self@ by {
                assert(spec_begin_scope(p2) == p3);
                assert(spec_measure(p3) == spec_measure(p2));
                assert(fuel >= spec_fuel_at(p3, 10));
                assert(spec_block(p3, fuel) == p4);
                assert(spec_end_scope(p4) == self@);
            };
        }
    }

    /// Compile one statement: `print`, a block with its own scope, or a
    /// bare expression.
    #[verifier::rlimit(100)]
    pub fn statement(&mut self)
        requires
            old(self).wf(),
        ensures
            final(self).wf(),
            final(self)@.src == old(self)@.src,
            spec_measure(final(self)@) <= spec_measure(old(self)@),
            old(self)@.current.type_ != TokenType::EOF ==> spec_measure(final(self)@)
                < spec_measure(old(self)@),
            forall|fuel: nat|
                fuel >= spec_fuel_at(old(self)@, 7) ==> spec_statement(old(self)@, fuel) == final(self)@,
        decreases spec_measure(self@), 7int,
    {
        let ghost p0 = self@;
        let m = self.match_(TokenType::PRINT);
        let ghost p1 = self@;
        if m {
            self.print_statement();
            proof {
                assert forall|fuel: nat|
                    fuel >= spec_fuel_at(p0, 7) implies spec_statement(p0, fuel) == self@ by {
                    lemma_statement_print(p0, p1, self@, fuel);
                };
            }
        } else {
            let m2 = self.match_(TokenType::LEFT_BRACE);
            let ghost p2 = self@;
            if m2 {
                self.scoped_block();
                proof {
                    assert forall|fuel: nat|
                        fuel >= spec_fuel_at(p0, 7) implies spec_statement(p0, fuel) == self@ by {
                        let f = (fuel - 1) as nat;
                        assert(spec_match(p0, TokenType::PRINT) == (p1, false));
                        assert(spec_match(p1, TokenType::LEFT_BRACE) == (p2, true));
                        assert(f >= spec_fuel_at(p2, 10));
                        assert(spec_end_scope(spec_block(spec_begin_scope(p2), f as nat))
                            == self@);
                        assert(spec_statement(p0, fuel) == self@);
                    };
                }
            } else {
                self.expression_statement();
                proof {
                    assert forall|fuel: nat|
                        fuel >= spec_fuel_at(p0, 7) implies spec_statement(p0, fuel) == self@ by {
                        lemma_statement_expr(p0, p1, p2, self@, fuel);
                    };
                }
            }
        }
    }

    /// Compile one declaration, resuming at the next statement boundary
    /// after an error.
    #[verifier::rlimit(100)]
    #[verifier::spinoff_prover]
    pub fn declaration(&mut self)
        requires
            old(self).wf(),
        ensures
            final(self).wf(),
            final(self)@.src == old(self)@.src,
            spec_measure(final(self)@) <= spec_measure(old(self)@),
            old(self)@.current.type_ != TokenType::EOF ==> spec_measure(final(self)@)
                < spec_measure(old(self)@),
            forall|fuel: nat|
                fuel >= spec_fuel_at(old(self)@, 8) ==> spec_declaration(old(self)@, fuel)
                    == final(self)@,
        decreases spec_measure(self@), 8int,
    {
        let ghost p0 = self@;
        let m = self.match_(TokenType::VAR);
        let ghost p1 = self@;
        if m {
            self.var_declaration();
        } else {
            self.statement();
        }
        let ghost p2 = self@;
        let panicking = self.panic_mode;
        if panicking {
            self.sync();
        }
        proof {
            assert forall|fuel: nat|
                fuel >= spec_fuel_at(p0, 8) implies spec_declaration(p0, fuel) == self@ by {
                let f = (fuel - 1) as nat;
                if m {
                    assert(f >= spec_fuel_at(p1, 6));
                    assert(spec_var_declaration(p1, f) == p2);
                } else {
                    assert(f >= spec_fuel_at(p1, 7));
                    assert(spec_statement(p1, f) == p2);
                }
            };
        }
    }

    /// Consume the whole token stream, compiling declarations into the
    /// unit, and report overall success: true exactly when no compile error
    /// was recorded.
    #[verifier::rlimit(100)]
    #[verifier::spinoff_prover]
    pub fn compile(&mut self) -> (r: bool)
        requires
            old(self).wf(),
        ensures
            final(self).wf(),
            final(self)@ == spec_compile_from(old(self)@),
            r == !final(self)@.had_error,
    {
        let ghost p0 = self@;
        self.advance();
        let ghost p1 = self@;
        let ghost mut spent: int = 0;
        loop
            invariant_except_break
                forall|f: nat|
                    f >= spec_fuel_at(p1, 9) ==> spec_declarations(p1, f) == spec_declarations(
                        self@,
                        (f - spent) as nat,
                    ),
            invariant
                self.wf(),
                self@.src == p1.src,
                0 <= spent,
                spent <= spec_fuel_step() * (spec_measure(p1) - spec_measure(self@)),
                spec_measure(self@) <= spec_measure(p1),
            ensures
                self.wf(),
                self@.src == p1.src,
                forall|f: nat| f >= spec_fuel_at(p1, 9) ==> spec_declarations(p1, f) == self@,
            decreases spec_measure(self@),
        {
            let ghost q0 = self@;
            let done = self.match_(TokenType::EOF);
            if done {
                proof {
                    assert forall|f: nat|
                        f >= spec_fuel_at(p1, 9) implies spec_declarations(p1, f) == self@ by {
                        assert((f - spent) as nat >= 1);
                        assert(spec_declarations(q0, (f - spent) as nat) == self@);
                    };
                }
                break ;
            }
            self.declaration();
            proof {
                spent = spent + 1;
                assert forall|f: nat|
                    f >= spec_fuel_at(p1, 9) implies spec_declarations(p1, f) == spec_declarations(
                    self@,
                    (f - spent) as nat,
                ) by {
                    let g = (f - (spent - 1)) as nat;
                    assert(g >= spec_fuel_at(q0, 9));
                    assert((g - 1) as nat >= spec_fuel_at(q0, 8));
                    assert(spec_declaration(q0, (g - 1) as nat) == self@);
                    assert(spec_declarations(q0, g) == spec_declarations(self@, (g - 1) as nat));
                    assert((f - spent) as nat == (g - 1) as nat);
                };
            }
        }
        self.end_compiler();
        proof {
            assert(spec_measure(p1) <= 2 * p0.src.len() + 1);
            assert(spec_compile_fuel(p0.src) >= spec_fuel_at(p1, 9));
            assert(spec_declarations(p1, spec_compile_fuel(p0.src)) == spec_declarations(
                p1,
                spec_compile_fuel(p1.src),
            ));
        }
        !self.had_error
    }
}

/// Compilation is idempotent: compiling the same source text twice into
/// two separate compiled units yields the same overall outcome,
/// byte-identical bytecode, line tables and constant pools, and the same
/// diagnostics.  The whole compiler state is pinned by `compile`'s
/// postcondition, so two compilers over equal sources cannot diverge.
pub proof fn lemma_compile_deterministic(src: Seq<u8>, p1: ParserModel, p2: ParserModel)
    requires
        p1 == spec_compile(src),
        p2 == spec_compile(src),
    ensures
        p1.had_error == p2.had_error,
        p1.chunk.code == p2.chunk.code,
        p1.chunk.lines == p2.chunk.lines,
        p1.chunk.consts == p2.chunk.consts,
        p1.diags == p2.diags,
{
}

/// Whether every local from index `j` up to `i` belongs to the scope being
/// declared in: none of them is an initialized local of an enclosing
/// scope.
pub open spec fn spec_same_scope_from(
    locals: Seq<LocalModel>,
    scope_depth: int,
    j: int,
    i: int,
) -> bool {
    forall|k: int|
        j <= k < i ==> !((#[trigger] locals[k]).depth != -1 && locals[k].depth < scope_depth)
}

/// Redeclaration is detected exactly when a local of the innermost scope
/// bears the same name: a local separated from the top of the list by an
/// initialized local of an enclosing scope never triggers the error.
pub proof fn lemma_redeclared_characterisation(
    locals: Seq<LocalModel>,
    scope_depth: int,
    name: Seq<u8>,
    i: int,
)
    requires
        0 <= i <= locals.len(),
    ensures
        spec_redeclared(locals, scope_depth, name, i) <==> exists|j: int|
            0 <= j < i && (#[trigger] locals[j]).name.text == name && spec_same_scope_from(
                locals,
                scope_depth,
                j,
                i,
            ),
    decreases i,
{
    if i > 0 {
        let l = locals[i - 1];
        lemma_redeclared_characterisation(locals, scope_depth, name, i - 1);
        if l.depth != -1 && l.depth < scope_depth {
            assert forall|j: int|
                0 <= j < i && (#[trigger] locals[j]).name.text == name implies
                !spec_same_scope_from(locals, scope_depth, j, i) by {
                assert(j <= i - 1 < i);
                assert(locals[i - 1].depth != -1 && locals[i - 1].depth < scope_depth);
            }
        } else if l.name.text == name {
            assert(locals[i - 1].name.text == name && spec_same_scope_from(
                locals,
                scope_depth,
                i - 1,
                i,
            ));
        } else {
            assert forall|j: int|
                0 <= j < i - 1 && (#[trigger] locals[j]).name.text == name implies
                (spec_same_scope_from(locals, scope_depth, j, i) <==> spec_same_scope_from(
                    locals,
                    scope_depth,
                    j,
                    i - 1,
                )) by {}
        }
    }
}

/// `spec_digits_val` of an all-digit lexeme is never negative.
proof fn lemma_digits_val_nonneg(t: Seq<u8>)
    requires
        spec_all_digits(t),
    ensures
        spec_digits_val(t) >= 0,
    decreases t.len(),
{
    if t.len() > 0 {
        assert(spec_all_digits(t.drop_last())) by {
            assert(forall|i: int|
                0 <= i < t.drop_last().len() ==> t.drop_last()[i] == t[i]);
        }
        lemma_digits_val_nonneg(t.drop_last());
    }
}

/// Extending an all-digit lexeme never shrinks its value.
proof fn lemma_digits_val_prefix(t: Seq<u8>, i: int)
    requires
        spec_all_digits(t),
        0 <= i <= t.len(),
    ensures
        spec_digits_val(t.subrange(0, i)) <= spec_digits_val(t),
    decreases t.len() - i,
{
    if i < t.len() {
        assert(t.subrange(0, i + 1).drop_last() =~= t.subrange(0, i));
        assert(spec_all_digits(t.subrange(0, i))) by {
            assert(forall|j: int|
                0 <= j < i ==> t.subrange(0, i)[j] == t[j]);
        }
        lemma_digits_val_nonneg(t.subrange(0, i));
        assert(spec_digits_val(t.subrange(0, i + 1)) == spec_digits_val(t.subrange(0, i)) * 10 + (
        t.subrange(0, i + 1).last() - '0' as u8));
        assert(spec_digits_val(t.subrange(0, i)) <= spec_digits_val(t.subrange(0, i + 1)));
        lemma_digits_val_prefix(t, i + 1);
    } else {
        assert(t.subrange(0, i) =~= t);
    }
}

/// Parse a numeric literal: its value, if it is a whole number that fits
/// the numeric type.
pub(crate) fn parse_number_literal(t: &Vec<u8>) -> (r: Option<i64>)
    ensures
        r == spec_num_value(t@),
{
    if t.len() == 0 {
        return None;
    }
    let mut acc: u64 = 0;
    let mut i: usize = 0;
    while i < t.len()
        invariant
            0 < t@.len(),
            i <= t@.len(),
            spec_all_digits(t@.subrange(0, i as int)),
            acc <= i64::MAX as u64,
            acc as int == spec_digits_val(t@.subrange(0, i as int)),
        decreases t@.len() - i,
    {
        let c = t[i];
        if !crate::scanner::is_digit_exec(c) {
            proof {
                assert(!spec_all_digits(t@));
            }
            return None;
        }
        let d = (c - '0' as u8) as u64;
        proof {
            assert(t@.subrange(0, (i + 1) as int).drop_last() =~= t@.subrange(0, i as int));
            assert(t@.subrange(0, (i + 1) as int).last() == t@[i as int]);
            assert(spec_all_digits(t@.subrange(0, (i + 1) as int))) by {
                assert(forall|j: int|
                    0 <= j < i + 1 ==> t@.subrange(0, (i + 1) as int)[j] == t@[j]);
            }
        }
        if acc > (9223372036854775807u64 - d) / 10 {
            proof {
                assert(acc * 10 + d > i64::MAX) by (nonlinear_arith)
                    requires
                        acc > (9223372036854775807u64 - d) / 10,
                        d <= 9,
                ;
                assert(spec_digits_val(t@.subrange(0, (i + 1) as int)) > i64::MAX);
                if spec_all_digits(t@) {
                    lemma_digits_val_prefix(t@, i + 1);
                    assert(spec_digits_val(t@) > i64::MAX);
                }
            }
            return None;
        }
        proof {
            assert(acc * 10 + d <= i64::MAX) by (nonlinear_arith)
                requires
                    acc <= (9223372036854775807u64 - d) / 10,
                    d <= 9,
            ;
        }
        acc = acc * 10 + d;
        i += 1;
    }
    proof {
        assert(t@.subrange(0, t@.len() as int) =~= t@);
    }
    Some(acc as i64)
}

} // verus!
