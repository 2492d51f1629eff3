//! The parser: turns source text into an AST.
//!
//! Statements are parsed by recursive descent; expressions by precedence
//! climbing over the operator tiers of the language (lowest first):
//! logical `and`/`or`; comparisons; additive `+`/`-`; multiplicative
//! `*`/`/`/`%`; prefix `-`/`!`. All binary operators associate to the left.
//!
//! A semicolon ends an assignment, expression, `return`, `break` or
//! `continue` statement; statements that end with a block need none, and
//! extra semicolons between statements are skipped.
//!
//! The grammar is defined by the spec functions [`parse_spec`] and its
//! companions (`sp_statement`, `sp_expression`, ...): [`parse`] succeeds
//! exactly when [`grammar_accepts`] holds of the text, and then returns
//! exactly the tree `parse_spec` gives. In the spec functions, a recursion
//! position is routed through [`sp_bump`], which forces progress so that
//! the recursion visibly terminates; the parser itself always moves
//! forward, so the detour never changes a value.

use vstd::prelude::*;

use crate::compiler::ast::{ast_view, AstNode, AstV, BinaryOperationKind, Number,
    UnaryOperationKind};
use crate::compiler::lexer::{lemma_tokens_view, lex_spec, tokenize, tokens_view, Token, TokenV};
use crate::runtime::error::ParseError;
use crate::runtime::types::utilities::str_chars;

verus! {

/// The tokens of the source with, at the end, the position for reporting an
/// unexpected end of input.
struct Tokens {
    items: Vec<(Token, usize)>,
    end_position: usize,
}

impl Tokens {
    /// How many tokens there are.
    spec fn len(&self) -> nat {
        self.items@.len()
    }

    /// The models of the tokens.
    spec fn view_tokens(&self) -> Seq<TokenV> {
        tokens_view(self.items@)
    }

    /// Small enough that stepping a few positions past the end cannot
    /// overflow a position.
    spec fn wf(&self) -> bool {
        self.items@.len() + 16 < usize::MAX
    }
}

/// A recursion position with forced progress: the position itself where it
/// has moved forward and stays in range, and the next position otherwise.
/// The parser always moves forward, so the second branch is never taken;
/// it only makes termination visible to the recursion checker.
pub open spec fn sp_bump(p: nat, floor: nat, len: nat) -> nat {
    if floor < p && p <= len {
        p
    } else {
        floor + 1
    }
}

/// Whether the statement that begins with this token ends with a block, so
/// that no semicolon is required after it.
pub open spec fn sp_starts_block(t: TokenV) -> bool {
    match t {
        TokenV::If | TokenV::For | TokenV::While | TokenV::Loop => true,
        _ => false,
    }
}

/// Whether a token cannot begin a returned expression, so `return` before
/// it returns nothing.
pub open spec fn sp_ends_expression(t: TokenV) -> bool {
    match t {
        TokenV::Semicolon | TokenV::RBrace => true,
        _ => false,
    }
}

/// The binary operation of a token with its precedence tier, if the token
/// is a binary operator.
pub open spec fn sp_binop_of(t: TokenV) -> Option<(BinaryOperationKind, u32)> {
    match t {
        TokenV::And => Some((BinaryOperationKind::And, 1u32)),
        TokenV::Or => Some((BinaryOperationKind::Or, 1u32)),
        TokenV::Eq => Some((BinaryOperationKind::Equal, 2u32)),
        TokenV::Ne => Some((BinaryOperationKind::NotEqual, 2u32)),
        TokenV::Lt => Some((BinaryOperationKind::LessThan, 2u32)),
        TokenV::Le => Some((BinaryOperationKind::LessThanOrEqual, 2u32)),
        TokenV::Gt => Some((BinaryOperationKind::GreaterThan, 2u32)),
        TokenV::Ge => Some((BinaryOperationKind::GreaterThanOrEqual, 2u32)),
        TokenV::Plus => Some((BinaryOperationKind::Add, 3u32)),
        TokenV::Minus => Some((BinaryOperationKind::Subtract, 3u32)),
        TokenV::Star => Some((BinaryOperationKind::Multiply, 4u32)),
        TokenV::Slash => Some((BinaryOperationKind::Divide, 4u32)),
        TokenV::Percent => Some((BinaryOperationKind::Remainder, 4u32)),
        _ => None,
    }
}

/// The first position at or after `pos` that holds no semicolon.
pub open spec fn sp_skip_semicolons(toks: Seq<TokenV>, pos: nat) -> nat
    decreases toks.len() - pos,
{
    if pos < toks.len() && (toks[pos as int] matches TokenV::Semicolon) {
        sp_skip_semicolons(toks, pos + 1)
    } else {
        pos
    }
}

/// Parse statements up to the end of input or a closing brace, as a block.
pub open spec fn sp_statement_list(toks: Seq<TokenV>, pos: nat) -> Option<(AstV, nat)>
    decreases toks.len() - pos, 9int,
{
    match sp_statements(toks, pos) {
        Some((nodes, p)) => Some((AstV::Block(nodes), p)),
        None => None,
    }
}

/// Parse statements up to the end of input or a closing brace.
pub open spec fn sp_statements(toks: Seq<TokenV>, pos: nat) -> Option<(Seq<AstV>, nat)>
    decreases toks.len() - pos, 8int,
{
    let q0 = sp_skip_semicolons(toks, pos);
    let q: nat = if pos <= q0 && q0 <= toks.len() {
        q0
    } else {
        pos
    };
    if q >= toks.len() {
        Some((Seq::empty(), q))
    } else if (toks[q as int] matches TokenV::RBrace) {
        Some((Seq::empty(), q))
    } else {
        match sp_statement(toks, q) {
            None => None,
            Some((node, p)) => {
                let pn = sp_bump(p, q, toks.len());
                match sp_statements(toks, pn) {
                    None => None,
                    Some((rest, p2)) => Some((seq![node] + rest, p2)),
                }
            },
        }
    }
}

/// Parse a statement that is not a block statement, without its
/// terminating semicolon.
pub open spec fn sp_simple_statement(toks: Seq<TokenV>, pos: nat) -> Option<(AstV, nat)>
    decreases toks.len() - pos, 6int,
{
    if pos >= toks.len() {
        None
    } else {
        match toks[pos as int] {
            TokenV::Return => {
                let after = pos + 1;
                if after < toks.len() && !sp_ends_expression(toks[after as int]) {
                    match sp_expression(toks, after, 1) {
                        Some((value, p2)) => Some(
                            (AstV::Return { value: Some(Box::new(value)) }, p2),
                        ),
                        None => None,
                    }
                } else {
                    Some((AstV::Return { value: None }, after as nat))
                }
            },
            TokenV::Break => Some((AstV::Break, (pos + 1) as nat)),
            TokenV::Continue => Some((AstV::Continue, (pos + 1) as nat)),
            TokenV::Identifier(_) | TokenV::Fn => {
                if pos + 1 < toks.len() && (toks[(pos + 1) as int] matches TokenV::Assign) {
                    sp_assignment(toks, pos)
                } else {
                    sp_expression(toks, pos, 1)
                }
            },
            _ => sp_expression(toks, pos, 1),
        }
    }
}

/// Parse a single statement, including its terminating semicolon where one
/// is required.
pub open spec fn sp_statement(toks: Seq<TokenV>, pos: nat) -> Option<(AstV, nat)>
    decreases toks.len() - pos, 7int,
{
    if pos >= toks.len() {
        None
    } else if sp_starts_block(toks[pos as int]) {
        sp_block_statement(toks, pos)
    } else {
        match sp_simple_statement(toks, pos) {
            None => None,
            Some((node, p)) => if p < toks.len() {
                match toks[p as int] {
                    TokenV::Semicolon => Some((node, (p + 1) as nat)),
                    TokenV::RBrace => Some((node, p)),
                    _ => None,
                }
            } else {
                Some((node, p))
            },
        }
    }
}

/// Parse a statement that ends with a block: if, for, while or loop.
pub open spec fn sp_block_statement(toks: Seq<TokenV>, pos: nat) -> Option<(AstV, nat)>
    decreases toks.len() - pos, 6int,
{
    if pos >= toks.len() {
        None
    } else {
        match toks[pos as int] {
            TokenV::If => sp_if(toks, pos),
            TokenV::While => {
                match sp_expression(toks, pos + 1, 1) {
                    None => None,
                    Some((condition, p)) => {
                        match sp_braced_block(toks, sp_bump(p, pos, toks.len())) {
                            None => None,
                            Some((body, p2)) => Some(
                                (
                                    AstV::While {
                                        condition: Box::new(condition),
                                        body: Box::new(body),
                                    },
                                    p2,
                                ),
                            ),
                        }
                    },
                }
            },
            TokenV::Loop => {
                match sp_braced_block(toks, pos + 1) {
                    None => None,
                    Some((body, p)) => Some((AstV::Loop { body: Box::new(body) }, p)),
                }
            },
            TokenV::For => sp_for(toks, pos),
            _ => None,
        }
    }
}

/// Parse an if statement starting at its `if` (or `elseif`) keyword.
pub open spec fn sp_if(toks: Seq<TokenV>, pos: nat) -> Option<(AstV, nat)>
    decreases toks.len() - pos, 5int,
{
    if pos >= toks.len() {
        None
    } else {
        match sp_expression(toks, pos + 1, 1) {
        None => None,
        Some((condition, p)) => {
            match sp_braced_block(toks, sp_bump(p, pos, toks.len())) {
                None => None,
                Some((body, p2)) => {
                    let pb = sp_bump(p2, pos, toks.len());
                    if pb < toks.len() && (toks[pb as int] matches TokenV::Elseif) {
                        match sp_if(toks, pb) {
                            None => None,
                            Some((nested, p3)) => Some(
                                (
                                    AstV::If {
                                        condition: Box::new(condition),
                                        body: Box::new(body),
                                        else_body: Some(Box::new(nested)),
                                    },
                                    p3,
                                ),
                            ),
                        }
                    } else if pb < toks.len() && (toks[pb as int] matches TokenV::Else) {
                        match sp_braced_block(toks, pb + 1) {
                            None => None,
                            Some((els, p3)) => Some(
                                (
                                    AstV::If {
                                        condition: Box::new(condition),
                                        body: Box::new(body),
                                        else_body: Some(Box::new(els)),
                                    },
                                    p3,
                                ),
                            ),
                        }
                    } else {
                        Some(
                            (
                                AstV::If {
                                    condition: Box::new(condition),
                                    body: Box::new(body),
                                    else_body: None,
                                },
                                p2,
                            ),
                        )
                    }
                },
            }
        },
        }
    }
}

/// Expect a semicolon at `pos` and step over it.
pub open spec fn sp_expect_semicolon(toks: Seq<TokenV>, pos: nat) -> Option<nat> {
    if pos < toks.len() && (toks[pos as int] matches TokenV::Semicolon) {
        Some((pos + 1) as nat)
    } else {
        None
    }
}

/// Parse a for statement: `for init; cond; incr { body }` with each of the
/// three parts optional.
pub open spec fn sp_for(toks: Seq<TokenV>, pos: nat) -> Option<(AstV, nat)>
    decreases toks.len() - pos, 5int,
{
    if pos >= toks.len() {
        None
    } else {
        match sp_for_init(toks, pos) {
            None => None,
            Some((initialization, p1)) => sp_for_from_cond(toks, pos, initialization, p1),
        }
    }
}

/// The rest of a for statement after its initialization: the first
/// semicolon, then the condition phase on.
pub open spec fn sp_for_from_cond(
    toks: Seq<TokenV>,
    pos: nat,
    initialization: Option<Box<AstV>>,
    p1: nat,
) -> Option<(AstV, nat)>
    decreases toks.len() - pos, 4int,
{
    if pos >= toks.len() {
        None
    } else {
        match sp_expect_semicolon(toks, p1) {
            None => None,
            Some(p2) => {
                match sp_for_cond(toks, pos, p2) {
                    None => None,
                    Some((condition, p3)) => sp_for_from_incr(
                        toks,
                        pos,
                        initialization,
                        condition,
                        p3,
                    ),
                }
            },
        }
    }
}

/// The rest of a for statement after its condition: the second semicolon,
/// then the increment phase and the body.
pub open spec fn sp_for_from_incr(
    toks: Seq<TokenV>,
    pos: nat,
    initialization: Option<Box<AstV>>,
    condition: Option<Box<AstV>>,
    p3: nat,
) -> Option<(AstV, nat)>
    decreases toks.len() - pos, 3int,
{
    if pos >= toks.len() {
        None
    } else {
        match sp_expect_semicolon(toks, p3) {
            None => None,
            Some(p4) => {
                match sp_for_incr(toks, pos, p4) {
                    None => None,
                    Some((increment, p5)) => {
                        match sp_braced_block(toks, sp_bump(p5, pos, toks.len())) {
                            None => None,
                            Some((body, p6)) => Some(
                                (
                                    AstV::For {
                                        initialization,
                                        condition,
                                        increment,
                                        body: Box::new(body),
                                    },
                                    p6,
                                ),
                            ),
                        }
                    },
                }
            },
        }
    }
}

/// The initialization phase of a for statement, starting right after the
/// `for` keyword at `pos`: an assignment, or nothing before the semicolon.
pub open spec fn sp_for_init(toks: Seq<TokenV>, pos: nat) -> Option<(Option<Box<AstV>>, nat)>
    decreases toks.len() - pos, 2int,
{
    let p0 = pos + 1;
    if p0 < toks.len() && !(toks[p0 as int] matches TokenV::Semicolon) {
        match sp_assignment(toks, p0) {
            Some((init, q)) => Some((Some(Box::new(init)), sp_bump(q, pos, toks.len()))),
            None => None,
        }
    } else {
        Some((None, p0 as nat))
    }
}

/// The condition phase of a for statement whose `for` keyword stands at
/// `pos`: an expression at `from`, or nothing before the semicolon.
pub open spec fn sp_for_cond(toks: Seq<TokenV>, pos: nat, from: nat) -> Option<
    (Option<Box<AstV>>, nat),
>
    decreases toks.len() - pos, 2int,
{
    let p = sp_bump(from, pos, toks.len());
    if p < toks.len() && !(toks[p as int] matches TokenV::Semicolon) {
        match sp_expression(toks, p, 1) {
            Some((cond, q)) => Some((Some(Box::new(cond)), sp_bump(q, pos, toks.len()))),
            None => None,
        }
    } else {
        Some((None, p))
    }
}

/// The increment phase of a for statement whose `for` keyword stands at
/// `pos`: an assignment at `from`, or nothing before the body's brace.
pub open spec fn sp_for_incr(toks: Seq<TokenV>, pos: nat, from: nat) -> Option<
    (Option<Box<AstV>>, nat),
>
    decreases toks.len() - pos, 2int,
{
    let p = sp_bump(from, pos, toks.len());
    if p < toks.len() && !(toks[p as int] matches TokenV::LBrace) {
        match sp_assignment(toks, p) {
            Some((incr, q)) => Some((Some(Box::new(incr)), sp_bump(q, pos, toks.len()))),
            None => None,
        }
    } else {
        Some((None, p))
    }
}

/// Parse `{ statements }` into a block node.
pub open spec fn sp_braced_block(toks: Seq<TokenV>, pos: nat) -> Option<(AstV, nat)>
    decreases toks.len() - pos, 10int,
{
    if pos >= toks.len() {
        None
    } else if !(toks[pos as int] matches TokenV::LBrace) {
        None
    } else {
        match sp_statement_list(toks, pos + 1) {
            None => None,
            Some((body, p)) => {
                let pb = sp_bump(p, pos, toks.len());
                if pb < toks.len() && (toks[pb as int] matches TokenV::RBrace) {
                    Some((body, (pb + 1) as nat))
                } else {
                    None
                }
            },
        }
    }
}

/// Parse an assignment: `identifier = expression`; the keyword `fn` doubles
/// as the variable of that name.
pub open spec fn sp_assignment(toks: Seq<TokenV>, pos: nat) -> Option<(AstV, nat)>
    decreases toks.len() - pos, 4int,
{
    if pos >= toks.len() {
        None
    } else {
        let name: Option<Seq<char>> = match toks[pos as int] {
            TokenV::Identifier(n) => Some(n),
            TokenV::Fn => Some("fn"@),
            _ => None,
        };
        match name {
            None => None,
            Some(identifier) => {
                if pos + 1 < toks.len() && (toks[(pos + 1) as int] matches TokenV::Assign) {
                    match sp_expression(toks, pos + 2, 1) {
                        Some((value, p)) => Some(
                            (AstV::Assignment { identifier, value: Box::new(value) }, p),
                        ),
                        None => None,
                    }
                } else {
                    None
                }
            },
        }
    }
}

/// Parse an expression whose binary operators all have precedence at least
/// `min_prec`.
pub open spec fn sp_expression(toks: Seq<TokenV>, pos: nat, min_prec: u32) -> Option<(AstV, nat)>
    decreases toks.len() - pos, 3int,
{
    if pos >= toks.len() {
        None
    } else {
        match sp_unary(toks, pos) {
            None => None,
            Some((lhs, p)) => sp_binary_rest(toks, lhs, sp_bump(p, pos, toks.len()), min_prec),
        }
    }
}

/// Extend a parsed left operand with binary operators of precedence at
/// least `min_prec`, associating to the left.
pub open spec fn sp_binary_rest(toks: Seq<TokenV>, lhs: AstV, pos: nat, min_prec: u32) -> Option<
    (AstV, nat),
>
    decreases toks.len() - pos, 4int,
{
    if pos >= toks.len() {
        Some((lhs, pos))
    } else {
        match sp_binop_of(toks[pos as int]) {
            None => Some((lhs, pos)),
            Some((kind, prec)) => {
                if prec < min_prec {
                    Some((lhs, pos))
                } else {
                    match sp_expression(toks, pos + 1, (prec + 1) as u32) {
                        None => None,
                        Some((rhs, p)) => {
                            let combined = AstV::BinaryOperation {
                                kind,
                                left: Box::new(lhs),
                                right: Box::new(rhs),
                            };
                            sp_binary_rest(
                                toks,
                                combined,
                                sp_bump(p, pos, toks.len()),
                                min_prec,
                            )
                        },
                    }
                }
            },
        }
    }
}

/// Parse a prefix-operator expression: any run of `-` and `!` before a
/// primary.
pub open spec fn sp_unary(toks: Seq<TokenV>, pos: nat) -> Option<(AstV, nat)>
    decreases toks.len() - pos, 2int,
{
    if pos >= toks.len() {
        None
    } else {
        match toks[pos as int] {
            TokenV::Minus => {
                match sp_unary(toks, pos + 1) {
                    Some((operand, p)) => Some(
                        (
                            AstV::UnaryOperation {
                                kind: UnaryOperationKind::Negate,
                                operand: Box::new(operand),
                            },
                            p,
                        ),
                    ),
                    None => None,
                }
            },
            TokenV::Bang => {
                match sp_unary(toks, pos + 1) {
                    Some((operand, p)) => Some(
                        (
                            AstV::UnaryOperation {
                                kind: UnaryOperationKind::Not,
                                operand: Box::new(operand),
                            },
                            p,
                        ),
                    ),
                    None => None,
                }
            },
            _ => sp_primary(toks, pos),
        }
    }
}

/// Parse an expression primary: a literal, an identifier, a function call,
/// a function definition, or a parenthesized expression.
pub open spec fn sp_primary(toks: Seq<TokenV>, pos: nat) -> Option<(AstV, nat)>
    decreases toks.len() - pos, 1int,
{
    if pos >= toks.len() {
        None
    } else {
        match toks[pos as int] {
            TokenV::Integer(x) => Some(
                (AstV::NumberLiteral(Number::Integer(x)), (pos + 1) as nat),
            ),
            TokenV::Float(bits) => Some(
                (AstV::NumberLiteral(Number::Float(bits)), (pos + 1) as nat),
            ),
            TokenV::Str(s) => Some((AstV::StringLiteral(s), (pos + 1) as nat)),
            TokenV::True => Some((AstV::BooleanLiteral(true), (pos + 1) as nat)),
            TokenV::False => Some((AstV::BooleanLiteral(false), (pos + 1) as nat)),
            TokenV::Nil => Some((AstV::NilLiteral, (pos + 1) as nat)),
            TokenV::LParen => {
                match sp_expression(toks, pos + 1, 1) {
                    None => None,
                    Some((inner, p)) => {
                        let pb = sp_bump(p, pos, toks.len());
                        if pb < toks.len() && (toks[pb as int] matches TokenV::RParen) {
                            Some((inner, (pb + 1) as nat))
                        } else {
                            None
                        }
                    },
                }
            },
            TokenV::Identifier(name) => {
                if pos + 1 < toks.len() && (toks[(pos + 1) as int] matches TokenV::LParen) {
                    sp_call(toks, pos, name)
                } else {
                    Some((AstV::Identifier(name), (pos + 1) as nat))
                }
            },
            TokenV::Fn => {
                if sp_fn_def_ahead(toks, pos) {
                    sp_function_def(toks, pos)
                } else if pos + 1 < toks.len() && (toks[(pos + 1) as int] matches TokenV::LParen) {
                    sp_call(toks, pos, "fn"@)
                } else {
                    Some((AstV::Identifier("fn"@), (pos + 1) as nat))
                }
            },
            _ => None,
        }
    }
}

/// Whether the `fn` at `pos` begins a function definition: an opening
/// parenthesis, a possibly empty comma-separated list of parameter names, a
/// closing parenthesis, and an opening brace. `fn` that begins anything
/// else is the variable named `fn`.
pub open spec fn sp_fn_def_ahead(toks: Seq<TokenV>, pos: nat) -> bool {
    if pos + 1 >= toks.len() || !(toks[(pos + 1) as int] matches TokenV::LParen) {
        false
    } else if pos + 2 < toks.len() && (toks[(pos + 2) as int] matches TokenV::RParen) {
        pos + 3 < toks.len() && (toks[(pos + 3) as int] matches TokenV::LBrace)
    } else {
        sp_params_ahead(toks, pos + 2)
    }
}

/// Whether a parameter list followed by a closing parenthesis and an
/// opening brace stands at `j`.
pub open spec fn sp_params_ahead(toks: Seq<TokenV>, j: nat) -> bool
    decreases toks.len() - j,
{
    if j >= toks.len() || !(toks[j as int] matches TokenV::Identifier(_)) {
        false
    } else if j + 1 >= toks.len() {
        false
    } else {
        match toks[(j + 1) as int] {
            TokenV::Comma => if j + 2 <= toks.len() {
                sp_params_ahead(toks, j + 2)
            } else {
                false
            },
            TokenV::RParen => j + 2 < toks.len() && (toks[(j + 2) as int] matches TokenV::LBrace),
            _ => false,
        }
    }
}

/// Parse a function call: `identifier(arg, ...)`, starting at the
/// identifier, whose next token is the opening parenthesis.
pub open spec fn sp_call(toks: Seq<TokenV>, pos: nat, identifier: Seq<char>) -> Option<
    (AstV, nat),
>
    decreases toks.len() - pos, 0int,
{
    if pos + 2 > toks.len() {
        None
    } else if pos + 2 < toks.len() && (toks[(pos + 2) as int] matches TokenV::RParen) {
        Some((AstV::FunctionCall { identifier, args: Seq::empty() }, (pos + 3) as nat))
    } else {
        match sp_call_args(toks, pos + 2) {
            None => None,
            Some((args, p)) => Some((AstV::FunctionCall { identifier, args }, p)),
        }
    }
}

/// Parse the comma-separated arguments of a call, ending after the closing
/// parenthesis.
pub open spec fn sp_call_args(toks: Seq<TokenV>, pos: nat) -> Option<(Seq<AstV>, nat)>
    decreases toks.len() - pos, 5int,
{
    if pos >= toks.len() {
        None
    } else {
        match sp_expression(toks, pos, 1) {
            None => None,
            Some((arg, p0)) => {
                let p = sp_bump(p0, pos, toks.len());
                if p >= toks.len() {
                    None
                } else {
                    match toks[p as int] {
                        TokenV::Comma => {
                            match sp_call_args(toks, p + 1) {
                                None => None,
                                Some((rest, p2)) => Some((seq![arg] + rest, p2)),
                            }
                        },
                        TokenV::RParen => Some((seq![arg], (p + 1) as nat)),
                        _ => None,
                    }
                }
            },
        }
    }
}

/// Parse a function definition: `fn(name, ...) { statements }`, starting at
/// the `fn` keyword.
pub open spec fn sp_function_def(toks: Seq<TokenV>, pos: nat) -> Option<(AstV, nat)>
    decreases toks.len() - pos, 0int,
{
    if pos + 1 >= toks.len() || !(toks[(pos + 1) as int] matches TokenV::LParen) {
        None
    } else {
        let params_step: Option<(Seq<Seq<char>>, nat)> = if pos + 2 < toks.len() && (toks[(pos + 2) as int]
            matches TokenV::RParen) {
            Some((Seq::empty(), (pos + 3) as nat))
        } else {
            sp_params(toks, pos + 2)
        };
        match params_step {
            None => None,
            Some((args, p)) => {
                match sp_braced_block(toks, sp_bump(p, pos, toks.len())) {
                    None => None,
                    Some((body, p2)) => Some(
                        (AstV::FunctionDef { args, body: Box::new(body) }, p2),
                    ),
                }
            },
        }
    }
}

/// Parse the comma-separated parameter names of a function definition,
/// ending after the closing parenthesis.
pub open spec fn sp_params(toks: Seq<TokenV>, pos: nat) -> Option<(Seq<Seq<char>>, nat)>
    decreases toks.len() - pos,
{
    if pos >= toks.len() {
        None
    } else {
        match toks[pos as int] {
            TokenV::Identifier(name) => {
                if pos + 1 >= toks.len() {
                    None
                } else {
                    match toks[(pos + 1) as int] {
                        TokenV::Comma => if pos + 2 <= toks.len() {
                            match sp_params(toks, pos + 2) {
                                None => None,
                                Some((rest, p)) => Some((seq![name] + rest, p)),
                            }
                        } else {
                            None
                        },
                        TokenV::RParen => Some((seq![name], (pos + 2) as nat)),
                        _ => None,
                    }
                }
            },
            _ => None,
        }
    }
}

/// The tree of a source text: its token sequence parsed as a script, when
/// the text lexes, the whole token sequence is one script, and the token
/// count stays within the machine bound of [`parse`].
pub open spec fn parse_spec(s: Seq<char>) -> Option<AstV> {
    match lex_spec(s, 0) {
        None => None,
        Some(ts) => if ts.len() + 16 >= usize::MAX {
            None
        } else {
            match sp_statement_list(ts, 0) {
                Some((node, p)) => if p == ts.len() {
                    Some(node)
                } else {
                    None
                },
                None => None,
            }
        },
    }
}

/// Whether the text is a script of the grammar.
pub open spec fn grammar_accepts(s: Seq<char>) -> bool {
    parse_spec(s) is Some
}

/// A syntax error at the position of the token at `pos`.
fn error_at(tokens: &Tokens, pos: usize, expected: &str) -> (r: ParseError) {
    let position = if pos < tokens.items.len() {
        tokens.items[pos].1
    } else {
        tokens.end_position
    };
    ParseError { position, expected: expected.to_owned() }
}

/// Try to parse a string into an [`AstNode`].
///
/// Succeeds exactly when the text is a script of the grammar
/// ([`grammar_accepts`]), and then returns exactly the tree
/// [`parse_spec`] gives; the root is a block of the script's statements.
pub fn parse(s: &str) -> (r: Result<AstNode, ParseError>)
    ensures
        r is Ok <==> grammar_accepts(s@),
        r matches Ok(a) ==> parse_spec(s@) == Some(ast_view(a)),
{
    let chars = str_chars(s);
    let items = match tokenize(&chars) {
        Ok(t) => t,
        Err(e) => {
            return Err(e);
        },
    };
    proof {
        lemma_tokens_view(items@);
    }
    if items.len() >= usize::MAX - 16 {
        return Err(ParseError { position: 0, expected: "a shorter script".to_owned() });
    }
    let tokens = Tokens { items, end_position: chars.len() };
    let (node, pos) = match parse_statement_list(&tokens, 0) {
        Ok(x) => x,
        Err(e) => {
            return Err(e);
        },
    };
    if pos < tokens.items.len() {
        return Err(error_at(&tokens, pos, "a statement"));
    }
    Ok(node)
}

/// Skip semicolons from `pos` on.
fn skip_semicolons(tokens: &Tokens, pos: usize) -> (r: usize)
    requires
        tokens.wf(),
        pos <= tokens.len(),
    ensures
        pos <= r <= tokens.len(),
        r == sp_skip_semicolons(tokens.view_tokens(), pos as nat),
    decreases tokens.len() - pos,
{
    proof {
        lemma_tokens_view(tokens.items@);
    }
    if pos < tokens.items.len() {
        if let Token::Semicolon = &tokens.items[pos].0 {
            skip_semicolons(tokens, pos + 1)
        } else {
            pos
        }
    } else {
        pos
    }
}

/// Parse statements until the end of input or a closing brace, into a
/// block node.
fn parse_statement_list(tokens: &Tokens, pos: usize) -> (r: Result<(AstNode, usize), ParseError>)
    requires
        tokens.wf(),
        pos <= tokens.len(),
    ensures
        r matches Ok((node, p)) ==> pos <= p <= tokens.len() && sp_statement_list(
            tokens.view_tokens(),
            pos as nat,
        ) == Some((ast_view(node), p as nat)),
        r is Err ==> sp_statement_list(tokens.view_tokens(), pos as nat) is None,
    decreases tokens.len() - pos, 9int,
{
    let mut nodes: Vec<AstNode> = Vec::new();
    proof {
        assert(crate::compiler::ast::asts_view(nodes@) =~= Seq::<AstV>::empty());
    }
    let p = match parse_statements_into(tokens, pos, &mut nodes) {
        Ok(p) => p,
        Err(e) => {
            return Err(e);
        },
    };
    proof {
        match sp_statements(tokens.view_tokens(), pos as nat) {
            Some((ns, sp)) => {
                assert(Seq::<AstV>::empty() + ns =~= ns);
            },
            None => {},
        }
    }
    Ok((AstNode::Block(nodes), p))
}

/// Parse statements into the vector until the end of input or a closing
/// brace.
fn parse_statements_into(tokens: &Tokens, pos: usize, nodes: &mut Vec<AstNode>) -> (r: Result<
    usize,
    ParseError,
>)
    requires
        tokens.wf(),
        pos <= tokens.len(),
    ensures
        r matches Ok(p) ==> pos <= p <= tokens.len() && (sp_statements(
            tokens.view_tokens(),
            pos as nat,
        ) matches Some((ns, sp)) && sp == p as nat && crate::compiler::ast::asts_view(
            final(nodes)@,
        ) == crate::compiler::ast::asts_view(old(nodes)@) + ns),
        r is Err ==> sp_statements(tokens.view_tokens(), pos as nat) is None,
    decreases tokens.len() - pos, 8int,
{
    proof {
        lemma_tokens_view(tokens.items@);
    }
    let pos2 = skip_semicolons(tokens, pos);
    if pos2 >= tokens.items.len() {
        proof {
            assert(crate::compiler::ast::asts_view(nodes@) + Seq::<AstV>::empty()
                =~= crate::compiler::ast::asts_view(nodes@));
        }
        return Ok(pos2);
    }
    if let Token::RBrace = &tokens.items[pos2].0 {
        proof {
            assert(crate::compiler::ast::asts_view(nodes@) + Seq::<AstV>::empty()
                =~= crate::compiler::ast::asts_view(nodes@));
        }
        return Ok(pos2);
    }
    let (node, p) = match parse_statement(tokens, pos2) {
        Ok(x) => x,
        Err(e) => {
            return Err(e);
        },
    };
    let ghost mid_nodes = nodes@;
    let ghost node_v = ast_view(node);
    nodes.push(node);
    proof {
        crate::compiler::ast::lemma_asts_view(mid_nodes);
        crate::compiler::ast::lemma_asts_view(nodes@);
        assert(crate::compiler::ast::asts_view(nodes@) =~= crate::compiler::ast::asts_view(
            mid_nodes,
        ).push(node_v));
    }
    let r = parse_statements_into(tokens, p, nodes);
    proof {
        if r is Ok {
            match sp_statements(tokens.view_tokens(), p as nat) {
                Some((ns_rest, _sp)) => {
                    assert(crate::compiler::ast::asts_view(mid_nodes).push(node_v)
                        =~= crate::compiler::ast::asts_view(mid_nodes) + seq![node_v]);
                    assert(crate::compiler::ast::asts_view(old(nodes)@) + (seq![node_v] + ns_rest)
                        =~= (crate::compiler::ast::asts_view(old(nodes)@) + seq![node_v])
                        + ns_rest);
                },
                None => {},
            }
        }
    }
    r
}

/// Whether the statement that begins with this token ends with a block, so
/// that no semicolon is required after it.
fn starts_block_statement(token: &Token) -> (r: bool)
    ensures
        r == sp_starts_block(crate::compiler::lexer::token_view(*token)),
{
    match token {
        Token::If | Token::For | Token::While | Token::Loop => true,
        _ => false,
    }
}

/// Parse a single statement, including its terminating semicolon where one
/// is required.
#[verifier::rlimit(100)]
#[verifier::spinoff_prover]
fn parse_statement(tokens: &Tokens, pos: usize) -> (r: Result<(AstNode, usize), ParseError>)
    requires
        tokens.wf(),
        pos < tokens.len(),
    ensures
        r matches Ok((node, p)) ==> pos < p <= tokens.len() && sp_statement(
            tokens.view_tokens(),
            pos as nat,
        ) == Some((ast_view(node), p as nat)),
        r is Err ==> sp_statement(tokens.view_tokens(), pos as nat) is None,
    decreases tokens.len() - pos, 7int,
{
    proof {
        lemma_tokens_view(tokens.items@);
    }
    if starts_block_statement(&tokens.items[pos].0) {
        return parse_block_statement(tokens, pos);
    }
    let (node, p) = match parse_simple_statement(tokens, pos) {
        Ok(x) => x,
        Err(e) => {
            return Err(e);
        },
    };
    // A non-block statement must be followed by a semicolon, a closing
    // brace, or the end of input.
    if p < tokens.items.len() {
        match &tokens.items[p].0 {
            Token::Semicolon => Ok((node, p + 1)),
            Token::RBrace => Ok((node, p)),
            _ => Err(error_at(tokens, p, "a semicolon after the statement")),
        }
    } else {
        Ok((node, p))
    }
}

/// Parse a statement that is not a block statement, without its
/// terminating semicolon.
#[verifier::rlimit(100)]
#[verifier::spinoff_prover]
fn parse_simple_statement(tokens: &Tokens, pos: usize) -> (r: Result<
    (AstNode, usize),
    ParseError,
>)
    requires
        tokens.wf(),
        pos < tokens.len(),
    ensures
        r matches Ok((node, p)) ==> pos < p <= tokens.len() && sp_simple_statement(
            tokens.view_tokens(),
            pos as nat,
        ) == Some((ast_view(node), p as nat)),
        r is Err ==> sp_simple_statement(tokens.view_tokens(), pos as nat) is None,
    decreases tokens.len() - pos, 6int,
{
    proof {
        lemma_tokens_view(tokens.items@);
    }
    match &tokens.items[pos].0 {
        Token::Return => {
            let after = pos + 1;
            if after < tokens.items.len() && !ends_expression_here(&tokens.items[after].0) {
                let (value, p2) = match parse_expression(tokens, after, 1) {
                    Ok(x) => x,
                    Err(e) => {
                        return Err(e);
                    },
                };
                Ok((AstNode::Return { value: Some(Box::new(value)) }, p2))
            } else {
                Ok((AstNode::Return { value: None }, after))
            }
        },
        Token::Break => Ok((AstNode::Break, pos + 1)),
        Token::Continue => Ok((AstNode::Continue, pos + 1)),
        Token::Identifier(_) | Token::Fn => {
            if pos + 1 < tokens.items.len() && (match &tokens.items[pos + 1].0 {
                Token::Assign => true,
                _ => false,
            }) {
                parse_assignment(tokens, pos)
            } else {
                parse_expression(tokens, pos, 1)
            }
        },
        _ => parse_expression(tokens, pos, 1),
    }
}

/// Whether a token cannot begin a returned expression, so `return` before
/// it returns nothing.
fn ends_expression_here(token: &Token) -> (r: bool)
    ensures
        r == sp_ends_expression(crate::compiler::lexer::token_view(*token)),
{
    match token {
        Token::Semicolon | Token::RBrace => true,
        _ => false,
    }
}

/// Parse a statement that ends with a block: if, for, while or loop.
#[verifier::rlimit(100)]
#[verifier::spinoff_prover]
fn parse_block_statement(tokens: &Tokens, pos: usize) -> (r: Result<(AstNode, usize), ParseError>)
    requires
        tokens.wf(),
        pos < tokens.len(),
    ensures
        r matches Ok((node, p)) ==> pos < p <= tokens.len() && sp_block_statement(
            tokens.view_tokens(),
            pos as nat,
        ) == Some((ast_view(node), p as nat)),
        r is Err ==> sp_block_statement(tokens.view_tokens(), pos as nat) is None,
    decreases tokens.len() - pos, 6int,
{
    proof {
        lemma_tokens_view(tokens.items@);
    }
    match &tokens.items[pos].0 {
        Token::If => parse_if(tokens, pos),
        Token::While => {
            let (condition, p) = match parse_expression(tokens, pos + 1, 1) {
                Ok(x) => x,
                Err(e) => {
                    return Err(e);
                },
            };
            let (body, p2) = match parse_braced_block(tokens, p) {
                Ok(x) => x,
                Err(e) => {
                    return Err(e);
                },
            };
            Ok(
                (
                    AstNode::While { condition: Box::new(condition), body: Box::new(body) },
                    p2,
                ),
            )
        },
        Token::Loop => {
            let (body, p) = match parse_braced_block(tokens, pos + 1) {
                Ok(x) => x,
                Err(e) => {
                    return Err(e);
                },
            };
            Ok((AstNode::Loop { body: Box::new(body) }, p))
        },
        Token::For => parse_for(tokens, pos),
        _ => Err(error_at(tokens, pos, "a statement")),
    }
}

/// Parse an if statement starting at its `if` (or `elseif`) keyword. Its
/// condition, then its braced body; an `elseif` continues as a nested if in
/// the else branch, an `else` adds its braced block there.
fn parse_if(tokens: &Tokens, pos: usize) -> (r: Result<(AstNode, usize), ParseError>)
    requires
        tokens.wf(),
        pos < tokens.len(),
    ensures
        r matches Ok((node, p)) ==> pos < p <= tokens.len() && sp_if(
            tokens.view_tokens(),
            pos as nat,
        ) == Some((ast_view(node), p as nat)),
        r is Err ==> sp_if(tokens.view_tokens(), pos as nat) is None,
    decreases tokens.len() - pos, 5int,
{
    proof {
        lemma_tokens_view(tokens.items@);
    }
    let (condition, p) = match parse_expression(tokens, pos + 1, 1) {
        Ok(x) => x,
        Err(e) => {
            return Err(e);
        },
    };
    let (body, p2) = match parse_braced_block(tokens, p) {
        Ok(x) => x,
        Err(e) => {
            return Err(e);
        },
    };
    if p2 < tokens.items.len() {
        match &tokens.items[p2].0 {
            Token::Elseif => {
                let (nested, p3) = match parse_if(tokens, p2) {
                    Ok(x) => x,
                    Err(e) => {
                        return Err(e);
                    },
                };
                return Ok(
                    (
                        AstNode::If {
                            condition: Box::new(condition),
                            body: Box::new(body),
                            else_body: Some(Box::new(nested)),
                        },
                        p3,
                    ),
                );
            },
            Token::Else => {
                let (els, p3) = match parse_braced_block(tokens, p2 + 1) {
                    Ok(x) => x,
                    Err(e) => {
                        return Err(e);
                    },
                };
                return Ok(
                    (
                        AstNode::If {
                            condition: Box::new(condition),
                            body: Box::new(body),
                            else_body: Some(Box::new(els)),
                        },
                        p3,
                    ),
                );
            },
            _ => {},
        }
    }
    Ok(
        (
            AstNode::If { condition: Box::new(condition), body: Box::new(body), else_body: None },
            p2,
        ),
    )
}

/// Parse a for statement: `for init; cond; incr { body }` with each of the
/// three parts optional.
#[verifier::rlimit(100)]
#[verifier::spinoff_prover]
fn parse_for(tokens: &Tokens, pos: usize) -> (r: Result<(AstNode, usize), ParseError>)
    requires
        tokens.wf(),
        pos < tokens.len(),
    ensures
        r matches Ok((node, p)) ==> pos < p <= tokens.len() && sp_for(
            tokens.view_tokens(),
            pos as nat,
        ) == Some((ast_view(node), p as nat)),
        r is Err ==> sp_for(tokens.view_tokens(), pos as nat) is None,
    decreases tokens.len() - pos, 5int,
{
    proof {
        lemma_tokens_view(tokens.items@);
    }
    let (initialization, p1) = match parse_for_init(tokens, pos) {
        Ok(x) => x,
        Err(e) => {
            return Err(e);
        },
    };
    let ghost iv = opt_box_view(&initialization);
    let p2 = match expect_semicolon(tokens, p1) {
        Ok(x) => x,
        Err(e) => {
            proof {
                assert(sp_for_from_cond(tokens.view_tokens(), pos as nat, iv, p1 as nat)
                    is None);
            }
            return Err(e);
        },
    };
    let (condition, p3) = match parse_for_cond(tokens, pos, p2) {
        Ok(x) => x,
        Err(e) => {
            proof {
                assert(sp_for_from_cond(tokens.view_tokens(), pos as nat, iv, p1 as nat)
                    is None);
            }
            return Err(e);
        },
    };
    let ghost cv = opt_box_view(&condition);
    let p4 = match expect_semicolon(tokens, p3) {
        Ok(x) => x,
        Err(e) => {
            proof {
                assert(sp_for_from_incr(tokens.view_tokens(), pos as nat, iv, cv, p3 as nat)
                    is None);
            }
            return Err(e);
        },
    };
    let (increment, p5) = match parse_for_incr(tokens, pos, p4) {
        Ok(x) => x,
        Err(e) => {
            proof {
                assert(sp_for_from_incr(tokens.view_tokens(), pos as nat, iv, cv, p3 as nat)
                    is None);
            }
            return Err(e);
        },
    };
    let ghost nv = opt_box_view(&increment);
    let (body, p6) = match parse_braced_block(tokens, p5) {
        Ok(x) => x,
        Err(e) => {
            proof {
                assert(sp_for_from_incr(tokens.view_tokens(), pos as nat, iv, cv, p3 as nat)
                    is None);
            }
            return Err(e);
        },
    };
    let ghost bv = ast_view(body);
    let result = AstNode::For { initialization, condition, increment, body: Box::new(body) };
    proof {
        assert(ast_view(result) == AstV::For {
            initialization: iv,
            condition: cv,
            increment: nv,
            body: Box::new(bv),
        });
        assert(sp_for_from_incr(tokens.view_tokens(), pos as nat, iv, cv, p3 as nat) == Some(
            (ast_view(result), p6 as nat),
        ));
        assert(sp_for_from_cond(tokens.view_tokens(), pos as nat, iv, p1 as nat) == Some(
            (ast_view(result), p6 as nat),
        ));
    }
    Ok((result, p6))
}

/// The model of an optional boxed node.
spec fn opt_box_view(o: &Option<Box<AstNode>>) -> Option<Box<AstV>> {
    match o {
        Some(b) => Some(Box::new(ast_view(**b))),
        None => None,
    }
}

/// The initialization phase of a for statement, starting right after the
/// `for` keyword at `pos`.
fn parse_for_init(tokens: &Tokens, pos: usize) -> (r: Result<
    (Option<Box<AstNode>>, usize),
    ParseError,
>)
    requires
        tokens.wf(),
        pos < tokens.len(),
    ensures
        r matches Ok((init, p)) ==> pos < p <= tokens.len() && sp_for_init(
            tokens.view_tokens(),
            pos as nat,
        ) == Some((opt_box_view(&init), p as nat)),
        r is Err ==> sp_for_init(tokens.view_tokens(), pos as nat) is None,
    decreases tokens.len() - pos, 2int,
{
    proof {
        lemma_tokens_view(tokens.items@);
    }
    let p0 = pos + 1;
    if p0 < tokens.items.len() && (match &tokens.items[p0].0 {
        Token::Semicolon => false,
        _ => true,
    }) {
        let (init, q) = match parse_assignment(tokens, p0) {
            Ok(x) => x,
            Err(e) => {
                return Err(e);
            },
        };
        Ok((Some(Box::new(init)), q))
    } else {
        Ok((None, p0))
    }
}

/// The condition phase of a for statement whose `for` keyword stands at
/// `pos`, starting at `from`.
fn parse_for_cond(tokens: &Tokens, pos: usize, from: usize) -> (r: Result<
    (Option<Box<AstNode>>, usize),
    ParseError,
>)
    requires
        tokens.wf(),
        pos < from,
        from <= tokens.len(),
    ensures
        r matches Ok((cond, p)) ==> pos < p <= tokens.len() && sp_for_cond(
            tokens.view_tokens(),
            pos as nat,
            from as nat,
        ) == Some((opt_box_view(&cond), p as nat)),
        r is Err ==> sp_for_cond(tokens.view_tokens(), pos as nat, from as nat) is None,
    decreases tokens.len() - pos, 2int,
{
    proof {
        lemma_tokens_view(tokens.items@);
    }
    if from < tokens.items.len() && (match &tokens.items[from].0 {
        Token::Semicolon => false,
        _ => true,
    }) {
        let (cond, q) = match parse_expression(tokens, from, 1) {
            Ok(x) => x,
            Err(e) => {
                return Err(e);
            },
        };
        Ok((Some(Box::new(cond)), q))
    } else {
        Ok((None, from))
    }
}

/// The increment phase of a for statement whose `for` keyword stands at
/// `pos`, starting at `from`.
fn parse_for_incr(tokens: &Tokens, pos: usize, from: usize) -> (r: Result<
    (Option<Box<AstNode>>, usize),
    ParseError,
>)
    requires
        tokens.wf(),
        pos < from,
        from <= tokens.len(),
    ensures
        r matches Ok((incr, p)) ==> pos < p <= tokens.len() && sp_for_incr(
            tokens.view_tokens(),
            pos as nat,
            from as nat,
        ) == Some((opt_box_view(&incr), p as nat)),
        r is Err ==> sp_for_incr(tokens.view_tokens(), pos as nat, from as nat) is None,
    decreases tokens.len() - pos, 2int,
{
    proof {
        lemma_tokens_view(tokens.items@);
    }
    if from < tokens.items.len() && (match &tokens.items[from].0 {
        Token::LBrace => false,
        _ => true,
    }) {
        let (incr, q) = match parse_assignment(tokens, from) {
            Ok(x) => x,
            Err(e) => {
                return Err(e);
            },
        };
        Ok((Some(Box::new(incr)), q))
    } else {
        Ok((None, from))
    }
}

/// Expect a semicolon at `pos` and step over it.
fn expect_semicolon(tokens: &Tokens, pos: usize) -> (r: Result<usize, ParseError>)
    requires
        tokens.wf(),
        pos <= tokens.len(),
    ensures
        r matches Ok(p) ==> pos < p <= tokens.len() && sp_expect_semicolon(
            tokens.view_tokens(),
            pos as nat,
        ) == Some(p as nat),
        r is Err ==> sp_expect_semicolon(tokens.view_tokens(), pos as nat) is None,
{
    proof {
        lemma_tokens_view(tokens.items@);
    }
    if pos < tokens.items.len() {
        match &tokens.items[pos].0 {
            Token::Semicolon => Ok(pos + 1),
            _ => Err(error_at(tokens, pos, "a semicolon")),
        }
    } else {
        Err(error_at(tokens, pos, "a semicolon"))
    }
}

/// Parse `{ statements }` into a block node.
fn parse_braced_block(tokens: &Tokens, pos: usize) -> (r: Result<(AstNode, usize), ParseError>)
    requires
        tokens.wf(),
        pos <= tokens.len(),
    ensures
        r matches Ok((node, p)) ==> pos < p <= tokens.len() && sp_braced_block(
            tokens.view_tokens(),
            pos as nat,
        ) == Some((ast_view(node), p as nat)),
        r is Err ==> sp_braced_block(tokens.view_tokens(), pos as nat) is None,
    decreases tokens.len() - pos, 10int,
{
    proof {
        lemma_tokens_view(tokens.items@);
    }
    if pos >= tokens.items.len() {
        return Err(error_at(tokens, pos, "an opening brace"));
    }
    match &tokens.items[pos].0 {
        Token::LBrace => {},
        _ => {
            return Err(error_at(tokens, pos, "an opening brace"));
        },
    }
    let (body, p) = match parse_statement_list(tokens, pos + 1) {
        Ok(x) => x,
        Err(e) => {
            return Err(e);
        },
    };
    if p < tokens.items.len() {
        match &tokens.items[p].0 {
            Token::RBrace => Ok((body, p + 1)),
            _ => Err(error_at(tokens, p, "a closing brace")),
        }
    } else {
        Err(error_at(tokens, p, "a closing brace"))
    }
}

/// Parse an assignment: `identifier = expression`; the keyword `fn`
/// doubles as the variable of that name.
fn parse_assignment(tokens: &Tokens, pos: usize) -> (r: Result<(AstNode, usize), ParseError>)
    requires
        tokens.wf(),
        pos <= tokens.len(),
    ensures
        r matches Ok((node, p)) ==> pos < p <= tokens.len() && sp_assignment(
            tokens.view_tokens(),
            pos as nat,
        ) == Some((ast_view(node), p as nat)),
        r is Err ==> sp_assignment(tokens.view_tokens(), pos as nat) is None,
    decreases tokens.len() - pos, 5int,
{
    proof {
        lemma_tokens_view(tokens.items@);
    }
    if pos >= tokens.items.len() {
        return Err(error_at(tokens, pos, "an assignment"));
    }
    let identifier = match &tokens.items[pos].0 {
        Token::Identifier(name) => name.clone(),
        Token::Fn => "fn".to_owned(),
        _ => {
            return Err(error_at(tokens, pos, "an identifier"));
        },
    };
    if pos + 1 >= tokens.items.len() {
        return Err(error_at(tokens, pos + 1, "an equals sign"));
    }
    match &tokens.items[pos + 1].0 {
        Token::Assign => {},
        _ => {
            return Err(error_at(tokens, pos + 1, "an equals sign"));
        },
    }
    let (value, p) = match parse_expression(tokens, pos + 2, 1) {
        Ok(x) => x,
        Err(e) => {
            return Err(e);
        },
    };
    Ok((AstNode::Assignment { identifier, value: Box::new(value) }, p))
}

/// The binary operation of a token with its precedence tier, if the token
/// is a binary operator.
fn binop_of(token: &Token) -> (r: Option<(BinaryOperationKind, u32)>)
    ensures
        r == sp_binop_of(crate::compiler::lexer::token_view(*token)),
        r matches Some((k, prec)) ==> 1 <= prec <= 4,
{
    match token {
        Token::And => Some((BinaryOperationKind::And, 1)),
        Token::Or => Some((BinaryOperationKind::Or, 1)),
        Token::Eq => Some((BinaryOperationKind::Equal, 2)),
        Token::Ne => Some((BinaryOperationKind::NotEqual, 2)),
        Token::Lt => Some((BinaryOperationKind::LessThan, 2)),
        Token::Le => Some((BinaryOperationKind::LessThanOrEqual, 2)),
        Token::Gt => Some((BinaryOperationKind::GreaterThan, 2)),
        Token::Ge => Some((BinaryOperationKind::GreaterThanOrEqual, 2)),
        Token::Plus => Some((BinaryOperationKind::Add, 3)),
        Token::Minus => Some((BinaryOperationKind::Subtract, 3)),
        Token::Star => Some((BinaryOperationKind::Multiply, 4)),
        Token::Slash => Some((BinaryOperationKind::Divide, 4)),
        Token::Percent => Some((BinaryOperationKind::Remainder, 4)),
        _ => None,
    }
}

/// Parse an expression whose binary operators all have precedence at least
/// `min_prec`.
fn parse_expression(tokens: &Tokens, pos: usize, min_prec: u32) -> (r: Result<
    (AstNode, usize),
    ParseError,
>)
    requires
        tokens.wf(),
        pos <= tokens.len(),
    ensures
        r matches Ok((node, p)) ==> pos < p <= tokens.len() && sp_expression(
            tokens.view_tokens(),
            pos as nat,
            min_prec,
        ) == Some((ast_view(node), p as nat)),
        r is Err ==> sp_expression(tokens.view_tokens(), pos as nat, min_prec) is None,
    decreases tokens.len() - pos, 4int,
{
    proof {
        lemma_tokens_view(tokens.items@);
    }
    if pos >= tokens.items.len() {
        return Err(error_at(tokens, pos, "an expression"));
    }
    let (lhs, p) = match parse_unary(tokens, pos) {
        Ok(x) => x,
        Err(e) => {
            return Err(e);
        },
    };
    parse_binary_rest(tokens, lhs, p, min_prec)
}

/// Extend a parsed left operand with binary operators of precedence at
/// least `min_prec`, associating to the left.
fn parse_binary_rest(tokens: &Tokens, lhs: AstNode, pos: usize, min_prec: u32) -> (r: Result<
    (AstNode, usize),
    ParseError,
>)
    requires
        tokens.wf(),
        pos <= tokens.len(),
    ensures
        r matches Ok((node, p)) ==> pos <= p <= tokens.len() && sp_binary_rest(
            tokens.view_tokens(),
            ast_view(lhs),
            pos as nat,
            min_prec,
        ) == Some((ast_view(node), p as nat)),
        r is Err ==> sp_binary_rest(tokens.view_tokens(), ast_view(lhs), pos as nat, min_prec)
            is None,
    decreases tokens.len() - pos, 5int,
{
    proof {
        lemma_tokens_view(tokens.items@);
    }
    if pos >= tokens.items.len() {
        return Ok((lhs, pos));
    }
    let (kind, prec) = match binop_of(&tokens.items[pos].0) {
        Some(x) => x,
        None => {
            return Ok((lhs, pos));
        },
    };
    if prec < min_prec {
        return Ok((lhs, pos));
    }
    let (rhs, p) = match parse_expression(tokens, pos + 1, prec + 1) {
        Ok(x) => x,
        Err(e) => {
            return Err(e);
        },
    };
    let combined = AstNode::BinaryOperation { kind, left: Box::new(lhs), right: Box::new(rhs) };
    parse_binary_rest(tokens, combined, p, min_prec)
}

/// Parse a prefix-operator expression: any run of `-` and `!` before a
/// primary.
fn parse_unary(tokens: &Tokens, pos: usize) -> (r: Result<(AstNode, usize), ParseError>)
    requires
        tokens.wf(),
        pos <= tokens.len(),
    ensures
        r matches Ok((node, p)) ==> pos < p <= tokens.len() && sp_unary(
            tokens.view_tokens(),
            pos as nat,
        ) == Some((ast_view(node), p as nat)),
        r is Err ==> sp_unary(tokens.view_tokens(), pos as nat) is None,
    decreases tokens.len() - pos, 3int,
{
    proof {
        lemma_tokens_view(tokens.items@);
    }
    if pos >= tokens.items.len() {
        return Err(error_at(tokens, pos, "an expression"));
    }
    match &tokens.items[pos].0 {
        Token::Minus => {
            let (operand, p) = match parse_unary(tokens, pos + 1) {
                Ok(x) => x,
                Err(e) => {
                    return Err(e);
                },
            };
            Ok(
                (
                    AstNode::UnaryOperation {
                        kind: UnaryOperationKind::Negate,
                        operand: Box::new(operand),
                    },
                    p,
                ),
            )
        },
        Token::Bang => {
            let (operand, p) = match parse_unary(tokens, pos + 1) {
                Ok(x) => x,
                Err(e) => {
                    return Err(e);
                },
            };
            Ok(
                (
                    AstNode::UnaryOperation {
                        kind: UnaryOperationKind::Not,
                        operand: Box::new(operand),
                    },
                    p,
                ),
            )
        },
        _ => parse_primary(tokens, pos),
    }
}

/// Parse an expression primary: a literal, an identifier, a function call,
/// a function definition, or a parenthesized expression.
#[verifier::rlimit(100)]
#[verifier::spinoff_prover]
fn parse_primary(tokens: &Tokens, pos: usize) -> (r: Result<(AstNode, usize), ParseError>)
    requires
        tokens.wf(),
        pos < tokens.len(),
    ensures
        r matches Ok((node, p)) ==> pos < p <= tokens.len() && sp_primary(
            tokens.view_tokens(),
            pos as nat,
        ) == Some((ast_view(node), p as nat)),
        r is Err ==> sp_primary(tokens.view_tokens(), pos as nat) is None,
    decreases tokens.len() - pos, 2int,
{
    proof {
        lemma_tokens_view(tokens.items@);
    }
    match &tokens.items[pos].0 {
        Token::Integer(x) => Ok((AstNode::NumberLiteral(Number::Integer(*x)), pos + 1)),
        Token::Float(bits) => Ok((AstNode::NumberLiteral(Number::Float(*bits)), pos + 1)),
        Token::Str(s) => Ok((AstNode::StringLiteral(s.clone()), pos + 1)),
        Token::True => Ok((AstNode::BooleanLiteral(true), pos + 1)),
        Token::False => Ok((AstNode::BooleanLiteral(false), pos + 1)),
        Token::Nil => Ok((AstNode::NilLiteral, pos + 1)),
        Token::LParen => {
            let (inner, p) = match parse_expression(tokens, pos + 1, 1) {
                Ok(x) => x,
                Err(e) => {
                    return Err(e);
                },
            };
            if p < tokens.items.len() {
                match &tokens.items[p].0 {
                    Token::RParen => Ok((inner, p + 1)),
                    _ => Err(error_at(tokens, p, "a closing parenthesis")),
                }
            } else {
                Err(error_at(tokens, p, "a closing parenthesis"))
            }
        },
        Token::Identifier(name) => parse_named_primary(tokens, pos, name.clone()),
        Token::Fn => parse_fn_primary(tokens, pos),
        _ => Err(error_at(tokens, pos, "an expression")),
    }
}

/// Parse the primary that begins with an identifier: a call if an opening
/// parenthesis follows, the identifier itself otherwise.
fn parse_named_primary(tokens: &Tokens, pos: usize, name: String) -> (r: Result<
    (AstNode, usize),
    ParseError,
>)
    requires
        tokens.wf(),
        pos < tokens.len(),
        tokens.view_tokens()[pos as int] == TokenV::Identifier(name@),
    ensures
        r matches Ok((node, p)) ==> pos < p <= tokens.len() && sp_primary(
            tokens.view_tokens(),
            pos as nat,
        ) == Some((ast_view(node), p as nat)),
        r is Err ==> sp_primary(tokens.view_tokens(), pos as nat) is None,
    decreases tokens.len() - pos, 1int,
{
    proof {
        lemma_tokens_view(tokens.items@);
    }
    if pos + 1 < tokens.items.len() && (match &tokens.items[pos + 1].0 {
        Token::LParen => true,
        _ => false,
    }) {
        parse_call(tokens, pos, name)
    } else {
        Ok((AstNode::Identifier(name), pos + 1))
    }
}

/// Parse the primary that begins with the `fn` keyword: a function
/// definition where one stands, the variable named `fn` otherwise.
fn parse_fn_primary(tokens: &Tokens, pos: usize) -> (r: Result<(AstNode, usize), ParseError>)
    requires
        tokens.wf(),
        pos < tokens.len(),
        tokens.view_tokens()[pos as int] == TokenV::Fn,
    ensures
        r matches Ok((node, p)) ==> pos < p <= tokens.len() && sp_primary(
            tokens.view_tokens(),
            pos as nat,
        ) == Some((ast_view(node), p as nat)),
        r is Err ==> sp_primary(tokens.view_tokens(), pos as nat) is None,
    decreases tokens.len() - pos, 1int,
{
    proof {
        lemma_tokens_view(tokens.items@);
    }
    if function_def_ahead(tokens, pos) {
        parse_function_def(tokens, pos)
    } else if pos + 1 < tokens.items.len() && (match &tokens.items[pos + 1].0 {
        Token::LParen => true,
        _ => false,
    }) {
        parse_call(tokens, pos, "fn".to_owned())
    } else {
        Ok((AstNode::Identifier("fn".to_owned()), pos + 1))
    }
}

/// Whether the `fn` at `pos` begins a function definition; see
/// [`sp_fn_def_ahead`].
fn function_def_ahead(tokens: &Tokens, pos: usize) -> (r: bool)
    requires
        tokens.wf(),
        pos < tokens.len(),
    ensures
        r == sp_fn_def_ahead(tokens.view_tokens(), pos as nat),
{
    proof {
        lemma_tokens_view(tokens.items@);
    }
    if pos + 1 >= tokens.items.len() {
        return false;
    }
    match &tokens.items[pos + 1].0 {
        Token::LParen => {},
        _ => {
            return false;
        },
    }
    if pos + 2 < tokens.items.len() && (match &tokens.items[pos + 2].0 {
        Token::RParen => true,
        _ => false,
    }) {
        return pos + 3 < tokens.items.len() && (match &tokens.items[pos + 3].0 {
            Token::LBrace => true,
            _ => false,
        });
    }
    params_ahead(tokens, pos + 2)
}

/// Whether a parameter list followed by a closing parenthesis and an
/// opening brace stands at `j`.
fn params_ahead(tokens: &Tokens, j: usize) -> (r: bool)
    requires
        tokens.wf(),
        j <= tokens.len(),
    ensures
        r == sp_params_ahead(tokens.view_tokens(), j as nat),
    decreases tokens.len() - j,
{
    proof {
        lemma_tokens_view(tokens.items@);
    }
    if j >= tokens.items.len() {
        return false;
    }
    match &tokens.items[j].0 {
        Token::Identifier(_) => {},
        _ => {
            return false;
        },
    }
    if j + 1 >= tokens.items.len() {
        return false;
    }
    match &tokens.items[j + 1].0 {
        Token::Comma => params_ahead(tokens, j + 2),
        Token::RParen => j + 2 < tokens.items.len() && (match &tokens.items[j + 2].0 {
            Token::LBrace => true,
            _ => false,
        }),
        _ => false,
    }
}

/// Parse a function call: `identifier(arg, ...)`, starting at the
/// identifier, whose next token is the opening parenthesis.
fn parse_call(tokens: &Tokens, pos: usize, identifier: String) -> (r: Result<
    (AstNode, usize),
    ParseError,
>)
    requires
        tokens.wf(),
        pos + 2 <= tokens.len(),
    ensures
        r matches Ok((node, p)) ==> pos < p <= tokens.len() && sp_call(
            tokens.view_tokens(),
            pos as nat,
            identifier@,
        ) == Some((ast_view(node), p as nat)),
        r is Err ==> sp_call(tokens.view_tokens(), pos as nat, identifier@) is None,
    decreases tokens.len() - pos, 0int,
{
    proof {
        lemma_tokens_view(tokens.items@);
    }
    // The opening parenthesis sits at pos + 1.
    if pos + 2 < tokens.items.len() && (match &tokens.items[pos + 2].0 {
        Token::RParen => true,
        _ => false,
    }) {
        let args: Vec<AstNode> = Vec::new();
        proof {
            assert(crate::compiler::ast::asts_view(args@) =~= Seq::<AstV>::empty());
        }
        return Ok((AstNode::FunctionCall { identifier, args }, pos + 3));
    }
    let (args, p) = match parse_call_args(tokens, pos + 2) {
        Ok(x) => x,
        Err(e) => {
            return Err(e);
        },
    };
    Ok((AstNode::FunctionCall { identifier, args }, p))
}

/// Parse the comma-separated arguments of a call, ending after the closing
/// parenthesis.
fn parse_call_args(tokens: &Tokens, pos: usize) -> (r: Result<(Vec<AstNode>, usize), ParseError>)
    requires
        tokens.wf(),
        pos <= tokens.len(),
    ensures
        r matches Ok((args, p)) ==> pos < p <= tokens.len() && sp_call_args(
            tokens.view_tokens(),
            pos as nat,
        ) == Some((crate::compiler::ast::asts_view(args@), p as nat)),
        r is Err ==> sp_call_args(tokens.view_tokens(), pos as nat) is None,
    decreases tokens.len() - pos, 5int,
{
    proof {
        lemma_tokens_view(tokens.items@);
    }
    if pos >= tokens.items.len() {
        return Err(error_at(tokens, pos, "an argument"));
    }
    let (arg, p) = match parse_expression(tokens, pos, 1) {
        Ok(x) => x,
        Err(e) => {
            return Err(e);
        },
    };
    if p >= tokens.items.len() {
        return Err(error_at(tokens, p, "a comma or a closing parenthesis"));
    }
    match &tokens.items[p].0 {
        Token::Comma => {
            let (rest, p2) = match parse_call_args(tokens, p + 1) {
                Ok(x) => x,
                Err(e) => {
                    return Err(e);
                },
            };
            let ghost arg_v = ast_view(arg);
            let ghost rest_view = rest@;
            let mut args: Vec<AstNode> = Vec::new();
            args.push(arg);
            let mut rest_mut = rest;
            args.append(&mut rest_mut);
            proof {
                crate::compiler::ast::lemma_asts_view(args@);
                crate::compiler::ast::lemma_asts_view(rest_view);
                assert(crate::compiler::ast::asts_view(args@) =~= seq![arg_v]
                    + crate::compiler::ast::asts_view(rest_view));
            }
            Ok((args, p2))
        },
        Token::RParen => {
            let ghost arg_v = ast_view(arg);
            let mut args: Vec<AstNode> = Vec::new();
            args.push(arg);
            proof {
                crate::compiler::ast::lemma_asts_view(args@);
                assert(crate::compiler::ast::asts_view(args@) =~= seq![arg_v]);
            }
            Ok((args, p + 1))
        },
        _ => Err(error_at(tokens, p, "a comma or a closing parenthesis")),
    }
}

/// Parse a function definition: `fn(name, ...) { statements }`, starting at
/// the `fn` keyword.
fn parse_function_def(tokens: &Tokens, pos: usize) -> (r: Result<(AstNode, usize), ParseError>)
    requires
        tokens.wf(),
        pos < tokens.len(),
    ensures
        r matches Ok((node, p)) ==> pos < p <= tokens.len() && sp_function_def(
            tokens.view_tokens(),
            pos as nat,
        ) == Some((ast_view(node), p as nat)),
        r is Err ==> sp_function_def(tokens.view_tokens(), pos as nat) is None,
    decreases tokens.len() - pos, 0int,
{
    proof {
        lemma_tokens_view(tokens.items@);
    }
    if pos + 1 >= tokens.items.len() {
        return Err(error_at(tokens, pos + 1, "an opening parenthesis"));
    }
    match &tokens.items[pos + 1].0 {
        Token::LParen => {},
        _ => {
            return Err(error_at(tokens, pos + 1, "an opening parenthesis"));
        },
    }
    let (args, p) = if pos + 2 < tokens.items.len() && (match &tokens.items[pos + 2].0 {
        Token::RParen => true,
        _ => false,
    }) {
        let none: Vec<String> = Vec::new();
        proof {
            assert(crate::compiler::ast::names_view(none@) =~= Seq::<Seq<char>>::empty());
        }
        (none, pos + 3)
    } else {
        match parse_params(tokens, pos + 2) {
            Ok(x) => x,
            Err(e) => {
                return Err(e);
            },
        }
    };
    let (body, p3) = match parse_braced_block(tokens, p) {
        Ok(x) => x,
        Err(e) => {
            return Err(e);
        },
    };
    Ok((AstNode::FunctionDef { args, body: Box::new(body) }, p3))
}

/// Parse the comma-separated parameter names of a function definition,
/// ending after the closing parenthesis.
fn parse_params(tokens: &Tokens, pos: usize) -> (r: Result<(Vec<String>, usize), ParseError>)
    requires
        tokens.wf(),
        pos <= tokens.len(),
    ensures
        r matches Ok((names, p)) ==> pos < p <= tokens.len() && sp_params(
            tokens.view_tokens(),
            pos as nat,
        ) == Some((crate::compiler::ast::names_view(names@), p as nat)),
        r is Err ==> sp_params(tokens.view_tokens(), pos as nat) is None,
    decreases tokens.len() - pos,
{
    proof {
        lemma_tokens_view(tokens.items@);
    }
    if pos >= tokens.items.len() {
        return Err(error_at(tokens, pos, "a parameter name"));
    }
    let name = match &tokens.items[pos].0 {
        Token::Identifier(n) => n.clone(),
        _ => {
            return Err(error_at(tokens, pos, "a parameter name"));
        },
    };
    if pos + 1 >= tokens.items.len() {
        return Err(error_at(tokens, pos + 1, "a comma or a closing parenthesis"));
    }
    match &tokens.items[pos + 1].0 {
        Token::Comma => {
            let (rest, p) = match parse_params(tokens, pos + 2) {
                Ok(x) => x,
                Err(e) => {
                    return Err(e);
                },
            };
            let ghost name_v = name@;
            let ghost rest_view = rest@;
            let mut names: Vec<String> = Vec::new();
            names.push(name);
            let mut rest_mut = rest;
            names.append(&mut rest_mut);
            proof {
                crate::compiler::ast::lemma_names_view(names@);
                crate::compiler::ast::lemma_names_view(rest_view);
                assert(crate::compiler::ast::names_view(names@) =~= seq![name_v]
                    + crate::compiler::ast::names_view(rest_view));
            }
            Ok((names, p))
        },
        Token::RParen => {
            let ghost name_v = name@;
            let mut names: Vec<String> = Vec::new();
            names.push(name);
            proof {
                crate::compiler::ast::lemma_names_view(names@);
                assert(crate::compiler::ast::names_view(names@) =~= seq![name_v]);
            }
            Ok((names, pos + 2))
        },
        _ => Err(error_at(tokens, pos + 1, "a comma or a closing parenthesis")),
    }
}

} // verus!
