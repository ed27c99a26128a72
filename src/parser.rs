//! The recursive-descent parser, proved to follow the grammar.
use vstd::prelude::*;

use crate::ast::{
    expr_models, lemma_call_model, BinaryOp, DeclModel, Declaration, ExprModel, Expression,
    Function, FunctionModel, Program, ProgramModel, Statement, StmtModel, Type, UnaryOp,
};
use crate::context::Context;
use crate::grammar::{
    arg_list_at, atom_at, binary_at, binary_of, block_at, block_items_at, call_args_at, decl_at,
    decl_rest_at, expr_at, expression_parsed, fn_args_at, function_at, lemma_statement_consumes,
    parsed, pointer_rest_at, program_from, rest, shift, statement_at, tier_allows, tier_rank,
    unary_at, unary_of,
};
use crate::lexer::{lex, tokens_model, Operator, Token, TokenModel};
use crate::lexical::lexed;

verus! {

/// The cursor stands at or before the end of its tokens.
pub open spec fn ready(c: Context) -> bool {
    c.pos() <= c.tokens().len()
}

/// The token models under a cursor.
pub open spec fn tm(c: Context) -> Seq<TokenModel> {
    tokens_model(c.tokens())
}

/// `r` is what the grammar gives (`spec`) for the cursor `before`, and on success `after` has
/// moved past the tokens consumed.
pub open spec fn expr_outcome(
    r: Result<Expression, String>,
    spec: Option<(ExprModel, nat)>,
    before: Context,
    after: Context,
) -> bool {
    &&& after.tokens() == before.tokens()
    &&& match spec {
        Some((e, n)) => r matches Ok(x) && x.model() == e && after.pos() == before.pos() + n
            && ready(after),
        None => r is Err,
    }
}

/// Hands out the current token and advances, but never moves past the end.
fn take(context: &mut Context) -> (r: Option<Token>)
    requires
        ready(*old(context)),
    ensures
        final(context).tokens() == old(context).tokens(),
        r == old(context).current(),
        final(context).pos() == (if old(context).pos() < old(context).tokens().len() {
            old(context).pos() + 1
        } else {
            old(context).pos()
        }),
{
    if context.is_exhausted() {
        None
    } else {
        context.next()
    }
}

/// The binary operator that an operator token stands for; `&` has none.
fn lexer_op_to_parser_op(op: Operator) -> (r: Option<BinaryOp>)
    ensures
        r == binary_of(op),
{
    match op {
        Operator::Asterisk => Some(BinaryOp::Multiply),
        Operator::Add => Some(BinaryOp::Add),
        Operator::Subtract => Some(BinaryOp::Subtract),
        Operator::Divide => Some(BinaryOp::Divide),
        Operator::Modulo => Some(BinaryOp::Modulo),
        Operator::And => Some(BinaryOp::And),
        Operator::Or => Some(BinaryOp::Or),
        Operator::Assign => Some(BinaryOp::Assign),
        Operator::Reference => None,
    }
}

/// The prefix operator that an operator token stands for.
fn lexer_op_to_unary_op(op: Operator) -> (r: Option<UnaryOp>)
    ensures
        r == unary_of(op),
{
    match op {
        Operator::Add => Some(UnaryOp::DontNegate),
        Operator::Subtract => Some(UnaryOp::Negate),
        Operator::Reference => Some(UnaryOp::Reference),
        Operator::Asterisk => Some(UnaryOp::Dereference),
        _ => None,
    }
}

/// The binary operator of precedence tier `tier` that an operator token stands for.
fn tier_operator(op: Operator, tier: u8) -> (r: Option<BinaryOp>)
    ensures
        r == (match binary_of(op) {
            Some(b) => if tier_allows(tier as nat, b) {
                Some(b)
            } else {
                None
            },
            None => None,
        }),
{
    match lexer_op_to_parser_op(op) {
        Some(b) => {
            let allowed = if tier == 0 {
                b == BinaryOp::And || b == BinaryOp::Or
            } else if tier == 1 {
                b == BinaryOp::Add || b == BinaryOp::Subtract
            } else {
                b == BinaryOp::Multiply || b == BinaryOp::Divide
            };
            if allowed {
                Some(b)
            } else {
                None
            }
        },
        None => None,
    }
}

/// Parses a literal, a variable, or a function call with its argument list.
#[verifier::rlimit(40)]
fn atom(context: &mut Context) -> (r: Result<Expression, String>)
    requires
        ready(*old(context)),
    ensures
        expr_outcome(r, atom_at(tm(*old(context)), old(context).pos()), *old(context), *final(context)),
    decreases rest(tm(*old(context)), old(context).pos()), 1nat,
{
    let ghost ts = tm(*context);
    let ghost toks = context.tokens();
    let ghost i = context.pos();
    match take(context) {
        Some(Token::String(s)) => Ok(Expression::String(s)),
        Some(Token::Character(c)) => Ok(Expression::Character(c)),
        Some(Token::Number(n)) => Ok(Expression::Number(n)),
        Some(Token::Identifier(id)) => {
            match context.peek() {
                Some(Token::LParen) => {
                    let _ = take(context);
                    match context.peek() {
                        Some(Token::RParen) => {
                            let _ = take(context);
                            let args: Vec<Expression> = Vec::new();
                            proof {
                                lemma_call_model(id, args);
                                assert(expr_models(args@) =~= Seq::<ExprModel>::empty());
                            }
                            Ok(Expression::FunctionCall { name: id, args })
                        },
                        _ => {
                            let first = match expression(context) {
                                Ok(e) => e,
                                Err(msg) => return Err(msg),
                            };
                            let mut arguments: Vec<Expression> = Vec::new();
                            arguments.push(first);
                            assert(expr_models(arguments@) =~= seq![first.model()]);
                            loop
                                invariant
                                    i == old(context).pos(),
                                    toks == old(context).tokens(),
                                    context.tokens() == toks,
                                    ts == tm(*context),
                                    ready(*context),
                                    i + 2 < context.pos(),
                                    atom_at(ts, i) == shift(
                                        call_args_at(ts, context.pos(), id@, expr_models(arguments@)),
                                        (context.pos() - i) as nat,
                                    ),
                                decreases rest(ts, context.pos()),
                            {
                                match take(context) {
                                    Some(Token::RParen) => {
                                        proof {
                                            lemma_call_model(id, arguments);
                                        }
                                        return Ok(Expression::FunctionCall { name: id, args: arguments });
                                    },
                                    Some(Token::Comma) => {
                                        let e = match expression(context) {
                                            Ok(e) => e,
                                            Err(msg) => return Err(msg),
                                        };
                                        let ghost before = expr_models(arguments@);
                                        arguments.push(e);
                                        assert(expr_models(arguments@) =~= before.push(e.model()));
                                    },
                                    _ => {
                                        return Err("unexpected token in function call arguments".to_string());
                                    },
                                }
                            }
                        },
                    }
                },
                _ => Ok(Expression::Variable(id)),
            }
        },
        _ => Err("expected atom token".to_string()),
    }
}

/// Parses a prefix operator (`+`, `-`, `&`, `*`) applied to an atom, or an atom.
fn unary_op(context: &mut Context) -> (r: Result<Expression, String>)
    requires
        ready(*old(context)),
    ensures
        expr_outcome(r, unary_at(tm(*old(context)), old(context).pos()), *old(context), *final(context)),
    decreases rest(tm(*old(context)), old(context).pos()), 2nat,
{
    match context.peek() {
        Some(Token::Operator(op)) => match lexer_op_to_unary_op(op) {
            Some(u) => {
                let _ = take(context);
                match atom(context) {
                    Ok(rhs) => Ok(Expression::UnaryOp(u, Box::new(rhs))),
                    Err(msg) => Err(msg),
                }
            },
            None => atom(context),
        },
        _ => atom(context),
    }
}

/// Parses one precedence tier: an operand of the next tighter tier and, where an operator of
/// this tier follows, that operator and the rest at this same tier, which gives right-leaning
/// trees within a tier.
fn binary_operator_helper(context: &mut Context, tier: u8) -> (r: Result<Expression, String>)
    requires
        ready(*old(context)),
        tier <= 2,
    ensures
        expr_outcome(
            r,
            binary_at(tm(*old(context)), old(context).pos(), tier as nat),
            *old(context),
            *final(context),
        ),
    decreases rest(tm(*old(context)), old(context).pos()), tier_rank(tier as nat),
{
    let lhs = if tier >= 2 {
        unary_op(context)
    } else {
        binary_operator_helper(context, tier + 1)
    };
    let lhs = match lhs {
        Ok(e) => e,
        Err(msg) => return Err(msg),
    };
    match context.peek() {
        Some(Token::Operator(o)) => match tier_operator(o, tier) {
            Some(op) => {
                let _ = take(context);
                match binary_operator_helper(context, tier) {
                    Ok(rhs) => Ok(Expression::BinaryOp(Box::new(lhs), op, Box::new(rhs))),
                    Err(msg) => Err(msg),
                }
            },
            None => Ok(lhs),
        },
        _ => Ok(lhs),
    }
}

/// Parses an expression, starting at the loosest tier (`&&`, `||`), then `+` and `-`, then
/// `*` and `/`, then prefix operators and atoms.
pub fn expression(context: &mut Context) -> (r: Result<Expression, String>)
    requires
        ready(*old(context)),
    ensures
        expr_outcome(r, expr_at(tm(*old(context)), old(context).pos()), *old(context), *final(context)),
    decreases rest(tm(*old(context)), old(context).pos()), 6nat,
{
    binary_operator_helper(context, 0)
}

/// Parses an expression statement: an expression and a semicolon.
fn statement(context: &mut Context) -> (r: Result<Statement, String>)
    requires
        ready(*old(context)),
    ensures
        final(context).tokens() == old(context).tokens(),
        match statement_at(tm(*old(context)), old(context).pos()) {
            Some((st, n)) => r matches Ok(x) && x@ == st && final(context).pos() == old(
                context,
            ).pos() + n && ready(*final(context)),
            None => r is Err,
        },
{
    let expr = match expression(context) {
        Ok(e) => e,
        Err(msg) => return Err(msg),
    };
    match take(context) {
        Some(Token::Semicolon) => Ok(Statement::Expression(expr)),
        Some(_) => Err("unexpected token after expression".to_string()),
        None => Err("expected semicolon after statement".to_string()),
    }
}

/// The models of a sequence of statements.
pub open spec fn stmt_models(ss: Seq<Statement>) -> Seq<StmtModel> {
    ss.map_values(|st: Statement| st@)
}

/// The models of a sequence of declarations.
pub open spec fn decl_models(ds: Seq<Declaration>) -> Seq<DeclModel> {
    ds.map_values(|d: Declaration| d@)
}

/// The models of a sequence of strings.
pub open spec fn names(ss: Seq<String>) -> Seq<Seq<char>> {
    ss.map_values(|s: String| s@)
}

/// Parses a statement block: `{`, statements, `}`, or else a single statement.
fn statement_block(context: &mut Context) -> (r: Result<Vec<Statement>, String>)
    requires
        ready(*old(context)),
    ensures
        final(context).tokens() == old(context).tokens(),
        match block_at(tm(*old(context)), old(context).pos()) {
            Some((body, n)) => r matches Ok(v) && stmt_models(v@) == body && final(context).pos()
                == old(context).pos() + n && ready(*final(context)),
            None => r is Err,
        },
{
    let ghost ts = tm(*context);
    let ghost toks = context.tokens();
    let ghost i = context.pos();
    match context.peek() {
        Some(Token::LBrace) => {
            let _ = take(context);
            let mut statements: Vec<Statement> = Vec::new();
            assert(stmt_models(statements@) =~= Seq::<StmtModel>::empty());
            loop
                invariant
                    i == old(context).pos(),
                    toks == old(context).tokens(),
                    context.tokens() == toks,
                    ts == tm(*context),
                    ready(*context),
                    i < context.pos(),
                    block_at(ts, i) == shift(
                        block_items_at(ts, context.pos(), stmt_models(statements@)),
                        (context.pos() - i) as nat,
                    ),
                decreases rest(ts, context.pos()),
            {
                proof {
                    lemma_statement_consumes(ts, context.pos());
                }
                match context.peek() {
                    Some(Token::RBrace) => {
                        let _ = take(context);
                        return Ok(statements);
                    },
                    Some(_) => {
                        let st = match statement(context) {
                            Ok(st) => st,
                            Err(msg) => return Err(msg),
                        };
                        let ghost before = stmt_models(statements@);
                        statements.push(st);
                        assert(stmt_models(statements@) =~= before.push(st@));
                    },
                    None => {
                        return Err("unterminated statement block".to_string());
                    },
                }
            }
        },
        Some(_) => {
            let st = match statement(context) {
                Ok(st) => st,
                Err(msg) => return Err(msg),
            };
            let mut statements: Vec<Statement> = Vec::new();
            statements.push(st);
            assert(stmt_models(statements@) =~= seq![st@]);
            Ok(statements)
        },
        None => Err("expected statement in statement block".to_string()),
    }
}

/// `r` is the declaration that the grammar gives (`spec`) for the cursor `before`, and on
/// success `after` has moved past the tokens consumed.
pub open spec fn decl_outcome(
    r: Result<Declaration, String>,
    spec: Option<(DeclModel, nat)>,
    before: Context,
    after: Context,
) -> bool {
    &&& after.tokens() == before.tokens()
    &&& match spec {
        Some((d, n)) => r matches Ok(x) && x@ == d && after.pos() == before.pos() + n && ready(
            after,
        ),
        None => r is Err,
    }
}

/// Parses the asterisks and the name of a pointer declaration, whose identifiers `identifiers`
/// and first asterisk were read: the last identifier is the base type, the others modifiers.
fn pointer_declaration(context: &mut Context, identifiers: Vec<String>) -> (r: Result<
    Declaration,
    String,
>)
    requires
        ready(*old(context)),
        old(context).pos() >= 1,
        identifiers@.len() >= 1,
    ensures
        decl_outcome(
            r,
            pointer_rest_at(tm(*old(context)), old(context).pos(), names(identifiers@), 1),
            *old(context),
            *final(context),
        ),
{
    let ghost ts = tm(*context);
    let ghost toks = context.tokens();
    let ghost i = context.pos();
    let ghost ids = names(identifiers@);
    let mut modifiers = identifiers;
    let base_name = modifiers.pop().unwrap();
    assert(names(modifiers@) =~= ids.drop_last());
    let mut pointer_levels: usize = 1;
    loop
        invariant
            i == old(context).pos(),
            i >= 1,
            ids == names(identifiers@),
            toks == old(context).tokens(),
            context.tokens() == toks,
            ts == tm(*context),
            ready(*context),
            i <= context.pos(),
            pointer_levels == 1 + context.pos() - i,
            names(modifiers@) == ids.drop_last(),
            base_name@ == ids.last(),
            pointer_rest_at(ts, i, ids, 1) == shift(
                pointer_rest_at(ts, context.pos(), ids, pointer_levels as nat),
                (context.pos() - i) as nat,
            ),
        decreases rest(ts, context.pos()),
    {
        proof {
            context.lemma_bounds();
        }
        match take(context) {
            Some(Token::Operator(Operator::Asterisk)) => {
                pointer_levels = pointer_levels + 1;
            },
            Some(Token::Identifier(name)) => {
                return Ok(
                    Declaration {
                        _type: Type { base_name, modifiers, length: None, pointer_levels },
                        name,
                    },
                );
            },
            _ => {
                return Err(
                    "expected either variable name or asterisk after asterisk in declaration".to_string(),
                );
            },
        }
    }
}

/// Parses a declaration `ident+ (asterisk+ ident)?`. Without an asterisk the last identifier
/// is the name and the one before it the base type; the token that ends the run of
/// identifiers is left for the caller.
fn declaration(context: &mut Context) -> (r: Result<Declaration, String>)
    requires
        ready(*old(context)),
    ensures
        decl_outcome(r, decl_at(tm(*old(context)), old(context).pos()), *old(context), *final(context)),
{
    let ghost ts = tm(*context);
    let ghost toks = context.tokens();
    let ghost i = context.pos();
    let mut identifiers: Vec<String> = Vec::new();
    match take(context) {
        Some(Token::Identifier(ident)) => {
            identifiers.push(ident);
            assert(names(identifiers@) =~= seq![ident@]);
        },
        _ => {
            return Err("expected identifier at beginning of declaration".to_string());
        },
    }
    loop
        invariant
            i == old(context).pos(),
            toks == old(context).tokens(),
            context.tokens() == toks,
            ts == tm(*context),
            ready(*context),
            i < context.pos(),
            identifiers@.len() >= 1,
            decl_at(ts, i) == shift(
                decl_rest_at(ts, context.pos(), names(identifiers@)),
                (context.pos() - i) as nat,
            ),
        decreases rest(ts, context.pos()),
    {
        match context.peek() {
            Some(Token::Identifier(ident)) => {
                let _ = take(context);
                let ghost before = names(identifiers@);
                identifiers.push(ident);
                assert(names(identifiers@) =~= before.push(ident@));
            },
            Some(Token::Operator(Operator::Asterisk)) => {
                let _ = take(context);
                return pointer_declaration(context, identifiers);
            },
            _ => {
                if identifiers.len() < 2 {
                    return Err("expected at least two identifiers before semicolon".to_string());
                }
                let ghost ids = names(identifiers@);
                let name = identifiers.pop().unwrap();
                let base_name = identifiers.pop().unwrap();
                assert(names(identifiers@) =~= ids.subrange(0, ids.len() - 2));
                return Ok(
                    Declaration {
                        _type: Type { base_name, modifiers: identifiers, length: None, pointer_levels: 0 },
                        name,
                    },
                );
            },
        }
    }
}

/// Parses a function's argument list from just past its `(` through the `)`: empty, or
/// declarations separated by commas.
fn argument_list(context: &mut Context) -> (r: Result<Vec<Declaration>, String>)
    requires
        ready(*old(context)),
    ensures
        final(context).tokens() == old(context).tokens(),
        match arg_list_at(tm(*old(context)), old(context).pos()) {
            Some((args, n)) => r matches Ok(v) && decl_models(v@) == args && final(context).pos()
                == old(context).pos() + n && ready(*final(context)),
            None => r is Err,
        },
{
    let ghost ts = tm(*context);
    let ghost toks = context.tokens();
    let ghost i = context.pos();
    let mut arguments: Vec<Declaration> = Vec::new();
    match context.peek() {
        Some(Token::RParen) => {
            let _ = take(context);
            assert(decl_models(arguments@) =~= Seq::<DeclModel>::empty());
            return Ok(arguments);
        },
        _ => {},
    }
    let first = match declaration(context) {
        Ok(d) => d,
        Err(msg) => return Err(msg),
    };
    arguments.push(first);
    assert(decl_models(arguments@) =~= seq![first@]);
    loop
        invariant
            i == old(context).pos(),
            toks == old(context).tokens(),
            context.tokens() == toks,
            ts == tm(*context),
            ready(*context),
            i < context.pos(),
            arg_list_at(ts, i) == shift(
                fn_args_at(ts, context.pos(), decl_models(arguments@)),
                (context.pos() - i) as nat,
            ),
        decreases rest(ts, context.pos()),
    {
        match take(context) {
            Some(Token::RParen) => {
                return Ok(arguments);
            },
            Some(Token::Comma) => {
                let d = match declaration(context) {
                    Ok(d) => d,
                    Err(msg) => return Err(msg),
                };
                let ghost before = decl_models(arguments@);
                arguments.push(d);
                assert(decl_models(arguments@) =~= before.push(d@));
            },
            Some(_) => {
                return Err("unexpected token while parsing function argument list".to_string());
            },
            None => {
                return Err("unexpected end of input in function argument list".to_string());
            },
        }
    }
}

/// Parses a function definition from just past the `(` of its argument list: the arguments,
/// then the body. The name and return type come from `signature`.
fn function_definition(context: &mut Context, signature: Declaration) -> (r: Result<
    Function,
    String,
>)
    requires
        ready(*old(context)),
    ensures
        final(context).tokens() == old(context).tokens(),
        match function_at(tm(*old(context)), old(context).pos(), signature@) {
            Some((f, n)) => r matches Ok(x) && x@ == f && final(context).pos() == old(context).pos()
                + n && ready(*final(context)),
            None => r is Err,
        },
{
    let arguments = match argument_list(context) {
        Ok(a) => a,
        Err(msg) => return Err(msg),
    };
    let statements = match statement_block(context) {
        Ok(s) => s,
        Err(msg) => return Err(msg),
    };
    Ok(
        Function {
            name: signature.name,
            arguments,
            return_type: signature._type,
            statements,
        },
    )
}

/// Parses a whole program: global declarations ending in `;` and function definitions, until
/// the tokens run out.
fn program(context: &mut Context) -> (r: Result<Program, String>)
    requires
        ready(*old(context)),
    ensures
        match program_from(tm(*old(context)), old(context).pos(), Seq::empty(), Seq::empty()) {
            Some(p) => r matches Ok(x) && x@ == p,
            None => r is Err,
        },
{
    let ghost ts = tm(*context);
    let ghost toks = context.tokens();
    let ghost i = context.pos();
    let mut globals: Vec<Declaration> = Vec::new();
    let mut functions: Vec<Function> = Vec::new();
    assert(decl_models(globals@) =~= Seq::<DeclModel>::empty());
    assert(functions@.map_values(|f: Function| f@) =~= Seq::<FunctionModel>::empty());
    loop
        invariant
            i == old(context).pos(),
            toks == old(context).tokens(),
            context.tokens() == toks,
            ts == tm(*context),
            ready(*context),
            program_from(ts, i, Seq::empty(), Seq::empty()) == program_from(
                ts,
                context.pos(),
                decl_models(globals@),
                functions@.map_values(|f: Function| f@),
            ),
        decreases rest(ts, context.pos()),
    {
        match context.peek() {
            Some(Token::Identifier(_)) => {
                let declaration = match declaration(context) {
                    Ok(d) => d,
                    Err(msg) => return Err(msg),
                };
                match take(context) {
                    Some(Token::Semicolon) => {
                        let ghost before = decl_models(globals@);
                        globals.push(declaration);
                        assert(decl_models(globals@) =~= before.push(declaration@));
                    },
                    Some(Token::LParen) => {
                        let function = match function_definition(context, declaration) {
                            Ok(f) => f,
                            Err(msg) => return Err(msg),
                        };
                        let ghost before = functions@.map_values(|f: Function| f@);
                        functions.push(function);
                        assert(functions@.map_values(|f: Function| f@) =~= before.push(function@));
                    },
                    _ => {
                        return Err(
                            "expected semicolon after global variable declaration".to_string(),
                        );
                    },
                }
            },
            Some(_) => {
                return Err("unexpected token at top level".to_string());
            },
            None => {
                return Ok(Program { globals, functions });
            },
        }
    }
}

/// The model of a parse result: the program's model, or `None` for an error.
pub open spec fn program_result_model(r: Result<Program, String>) -> Option<ProgramModel> {
    match r {
        Ok(p) => Some(p@),
        Err(_) => None,
    }
}

/// The model of an expression parse result: the expression's model, or `None` for an error.
pub open spec fn expr_result_model(r: Result<Expression, String>) -> Option<ExprModel> {
    match r {
        Ok(e) => Some(e.model()),
        Err(_) => None,
    }
}

/// Parses a token sequence into a program: each top-level construct is a declaration
/// followed by `;` (a global variable) or by `(` (a function definition). No tokens give an
/// empty program; the first syntax error aborts the parse.
pub fn parse(tokens: Vec<Token>) -> (r: Result<Program, String>)
    ensures
        program_result_model(r) == parsed(tokens_model(tokens@)),
{
    let mut context = Context::new(tokens);
    program(&mut context)
}

/// Lexes source text and parses the tokens into a program.
pub fn parse_str(s: &str) -> (r: Result<Program, String>)
    ensures
        program_result_model(r) == match lexed(s@) {
            Some(ts) => parsed(ts),
            None => None,
        },
{
    let tokens = match lex(s) {
        Ok(t) => t,
        Err(msg) => return Err(msg),
    };
    parse(tokens)
}

/// Parses a token sequence that must form exactly one expression.
pub fn parse_expr(tokens: Vec<Token>) -> (r: Result<Expression, String>)
    ensures
        expr_result_model(r) == expression_parsed(tokens_model(tokens@)),
{
    let mut context = Context::new(tokens);
    let expr = match expression(&mut context) {
        Ok(e) => e,
        Err(msg) => return Err(msg),
    };
    if !context.is_exhausted() {
        return Err("tokens remained after parsing expression".to_string());
    }
    Ok(expr)
}

/// Lexes source text and parses the tokens as exactly one expression.
pub fn parse_expr_str(s: &str) -> (r: Result<Expression, String>)
    ensures
        expr_result_model(r) == match lexed(s@) {
            Some(ts) => expression_parsed(ts),
            None => None,
        },
{
    let tokens = match lex(s) {
        Ok(t) => t,
        Err(msg) => return Err(msg),
    };
    parse_expr(tokens)
}

} // verus!
