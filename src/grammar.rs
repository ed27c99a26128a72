//! The grammar as spec functions over token models: what each parse function reads from a
//! given index, and how many tokens it consumes.
use vstd::prelude::*;

use crate::ast::{BinaryOp, DeclModel, ExprModel, FunctionModel, ProgramModel, StmtModel, TypeModel, UnaryOp};
use crate::lexer::{Operator, TokenModel};

verus! {

/// The token at index `i`, if any.
pub open spec fn tok(ts: Seq<TokenModel>, i: nat) -> Option<TokenModel> {
    if i < ts.len() {
        Some(ts[i as int])
    } else {
        None
    }
}

/// How many tokens are left from index `i`.
pub open spec fn rest(ts: Seq<TokenModel>, i: nat) -> nat {
    if i <= ts.len() {
        (ts.len() - i) as nat
    } else {
        0
    }
}

/// Adds `k` to the count of tokens consumed.
pub open spec fn shift<A>(r: Option<(A, nat)>, k: nat) -> Option<(A, nat)> {
    match r {
        Some((a, n)) => Some((a, n + k)),
        None => None,
    }
}

/// The binary meaning of an operator token; `&` has none.
pub open spec fn binary_of(op: Operator) -> Option<BinaryOp> {
    match op {
        Operator::Asterisk => Some(BinaryOp::Multiply),
        Operator::Add => Some(BinaryOp::Add),
        Operator::Subtract => Some(BinaryOp::Subtract),
        Operator::Divide => Some(BinaryOp::Divide),
        Operator::Modulo => Some(BinaryOp::Modulo),
        Operator::And => Some(BinaryOp::And),
        Operator::Or => Some(BinaryOp::Or),
        Operator::Assign => Some(BinaryOp::Assign),
        Operator::Reference => None,
    }
}

/// The prefix meaning of an operator token.
pub open spec fn unary_of(op: Operator) -> Option<UnaryOp> {
    match op {
        Operator::Add => Some(UnaryOp::DontNegate),
        Operator::Subtract => Some(UnaryOp::Negate),
        Operator::Reference => Some(UnaryOp::Reference),
        Operator::Asterisk => Some(UnaryOp::Dereference),
        _ => None,
    }
}

/// The operators of each precedence tier, loosest first: tier 0 holds `&&` and `||`, tier 1
/// `+` and `-`, tier 2 (and above) `*` and `/`.
pub open spec fn tier_allows(tier: nat, op: BinaryOp) -> bool {
    if tier == 0 {
        op == BinaryOp::And || op == BinaryOp::Or
    } else if tier == 1 {
        op == BinaryOp::Add || op == BinaryOp::Subtract
    } else {
        op == BinaryOp::Multiply || op == BinaryOp::Divide
    }
}

/// The binary operator of tier `tier` that the token at `i` stands for, if any.
pub open spec fn tier_op(ts: Seq<TokenModel>, i: nat, tier: nat) -> Option<BinaryOp> {
    match tok(ts, i) {
        Some(TokenModel::Operator(o)) => match binary_of(o) {
            Some(b) => if tier_allows(tier, b) {
                Some(b)
            } else {
                None
            },
            None => None,
        },
        _ => None,
    }
}

pub open spec fn tier_rank(tier: nat) -> nat {
    if tier >= 2 {
        3
    } else {
        (5 - tier) as nat
    }
}

// Each parse function below reads the tokens from index `i` and gives what it parsed with the
// number of tokens it consumed, or `None` for a syntax error.

/// An expression: the loosest tier.
pub open spec fn expr_at(ts: Seq<TokenModel>, i: nat) -> Option<(ExprModel, nat)>
    decreases rest(ts, i), 6nat,
{
    binary_at(ts, i, 0)
}

/// One tier of binary operators: an operand of the next tighter tier, then, where an operator
/// of this tier follows, the operator and the rest at this same tier as the right-hand side.
pub open spec fn binary_at(ts: Seq<TokenModel>, i: nat, tier: nat) -> Option<(ExprModel, nat)>
    decreases rest(ts, i), tier_rank(tier),
{
    let lhs = if tier >= 2 {
        unary_at(ts, i)
    } else {
        binary_at(ts, i, tier + 1)
    };
    match lhs {
        Some((l, n)) => match tier_op(ts, i + n, tier) {
            Some(op) => match binary_at(ts, i + n + 1, tier) {
                Some((r, m)) => Some(
                    (ExprModel::BinaryOp(Box::new(l), op, Box::new(r)), n + 1 + m),
                ),
                None => None,
            },
            None => Some((l, n)),
        },
        None => None,
    }
}

/// A prefix operator applied to an atom, or an atom.
pub open spec fn unary_at(ts: Seq<TokenModel>, i: nat) -> Option<(ExprModel, nat)>
    decreases rest(ts, i), 2nat,
{
    match tok(ts, i) {
        Some(TokenModel::Operator(o)) => match unary_of(o) {
            Some(u) => match atom_at(ts, i + 1) {
                Some((e, n)) => Some((ExprModel::UnaryOp(u, Box::new(e)), n + 1)),
                None => None,
            },
            None => atom_at(ts, i),
        },
        _ => atom_at(ts, i),
    }
}

/// A literal, a variable, or a function call `name(args, ...)`.
pub open spec fn atom_at(ts: Seq<TokenModel>, i: nat) -> Option<(ExprModel, nat)>
    decreases rest(ts, i), 1nat,
{
    match tok(ts, i) {
        Some(TokenModel::Str(s)) => Some((ExprModel::Str(s), 1)),
        Some(TokenModel::Character(c)) => Some((ExprModel::Character(c), 1)),
        Some(TokenModel::Number(n)) => Some((ExprModel::Number(n), 1)),
        Some(TokenModel::Identifier(id)) => if tok(ts, i + 1) == Some(TokenModel::LParen) {
            if tok(ts, i + 2) == Some(TokenModel::RParen) {
                Some((ExprModel::FunctionCall(id, Seq::empty()), 3))
            } else {
                match expr_at(ts, i + 2) {
                    Some((e, n)) => shift(call_args_at(ts, i + 2 + n, id, seq![e]), 2 + n),
                    None => None,
                }
            }
        } else {
            Some((ExprModel::Variable(id), 1))
        },
        _ => None,
    }
}

/// The rest of a call's argument list after an argument: `)` ends it, `,` and an expression
/// add an argument.
pub open spec fn call_args_at(ts: Seq<TokenModel>, j: nat, name: Seq<char>, args: Seq<ExprModel>) -> Option<(ExprModel, nat)>
    decreases rest(ts, j), 0nat,
{
    match tok(ts, j) {
        Some(TokenModel::RParen) => Some((ExprModel::FunctionCall(name, args), 1)),
        Some(TokenModel::Comma) => match expr_at(ts, j + 1) {
            Some((e, n)) => shift(call_args_at(ts, j + 1 + n, name, args.push(e)), 1 + n),
            None => None,
        },
        _ => None,
    }
}

/// An expression statement: an expression and a semicolon.
pub open spec fn statement_at(ts: Seq<TokenModel>, i: nat) -> Option<(StmtModel, nat)> {
    match expr_at(ts, i) {
        Some((e, n)) => if tok(ts, i + n) == Some(TokenModel::Semicolon) {
            Some((StmtModel::Expression(e), n + 1))
        } else {
            None
        },
        None => None,
    }
}

pub proof fn lemma_statement_consumes(ts: Seq<TokenModel>, i: nat)
    ensures
        statement_at(ts, i) matches Some((_, n)) ==> n >= 1 && i + n <= ts.len(),
{
}

/// The statements of a braced block from `j` through the closing `}`; `acc` holds those read
/// before `j`.
pub open spec fn block_items_at(ts: Seq<TokenModel>, j: nat, acc: Seq<StmtModel>) -> Option<(Seq<StmtModel>, nat)>
    decreases rest(ts, j),
{
    match tok(ts, j) {
        Some(TokenModel::RBrace) => Some((acc, 1)),
        Some(_) => match statement_at(ts, j) {
            Some((st, n)) => {
                proof {
                    lemma_statement_consumes(ts, j);
                }
                shift(block_items_at(ts, j + n, acc.push(st)), n)
            },
            None => None,
        },
        None => None,
    }
}

/// A statement block: `{` statements `}`, or a single statement.
pub open spec fn block_at(ts: Seq<TokenModel>, i: nat) -> Option<(Seq<StmtModel>, nat)> {
    match tok(ts, i) {
        Some(TokenModel::LBrace) => shift(block_items_at(ts, i + 1, Seq::empty()), 1),
        Some(_) => match statement_at(ts, i) {
            Some((st, n)) => Some((seq![st], n)),
            None => None,
        },
        None => None,
    }
}

/// The declaration of a run of two or more identifiers: the last is the name, the one before
/// it the base type, the others modifiers.
pub open spec fn plain_decl(ids: Seq<Seq<char>>) -> DeclModel {
    DeclModel {
        ty: TypeModel {
            base_name: ids[ids.len() - 2],
            modifiers: ids.subrange(0, ids.len() - 2),
            length: None,
            pointer_levels: 0,
        },
        name: ids.last(),
    }
}

/// The declaration of a run of identifiers, `levels` asterisks and a name: the last
/// identifier is the base type, the others modifiers.
pub open spec fn pointer_decl(ids: Seq<Seq<char>>, levels: nat, name: Seq<char>) -> DeclModel {
    DeclModel {
        ty: TypeModel {
            base_name: ids.last(),
            modifiers: ids.drop_last(),
            length: None,
            pointer_levels: levels,
        },
        name,
    }
}

/// A declaration after its first identifiers `ids`: more identifiers, or asterisks and a name,
/// or any other token (not consumed) that ends it.
pub open spec fn decl_rest_at(ts: Seq<TokenModel>, j: nat, ids: Seq<Seq<char>>) -> Option<(DeclModel, nat)>
    decreases rest(ts, j),
{
    match tok(ts, j) {
        Some(TokenModel::Identifier(id)) => shift(decl_rest_at(ts, j + 1, ids.push(id)), 1),
        Some(TokenModel::Operator(Operator::Asterisk)) => shift(pointer_rest_at(ts, j + 1, ids, 1), 1),
        _ => if ids.len() < 2 {
            None
        } else {
            Some((plain_decl(ids), 0))
        },
    }
}

/// A declaration after its identifiers `ids` and `levels` asterisks: more asterisks, then the
/// name.
pub open spec fn pointer_rest_at(ts: Seq<TokenModel>, j: nat, ids: Seq<Seq<char>>, levels: nat) -> Option<(DeclModel, nat)>
    decreases rest(ts, j),
{
    match tok(ts, j) {
        Some(TokenModel::Operator(Operator::Asterisk)) => shift(pointer_rest_at(ts, j + 1, ids, levels + 1), 1),
        Some(TokenModel::Identifier(name)) => Some((pointer_decl(ids, levels, name), 1)),
        _ => None,
    }
}

/// A declaration: `ident+ (asterisk+ ident)?`.
pub open spec fn decl_at(ts: Seq<TokenModel>, i: nat) -> Option<(DeclModel, nat)> {
    match tok(ts, i) {
        Some(TokenModel::Identifier(id)) => shift(decl_rest_at(ts, i + 1, seq![id]), 1),
        _ => None,
    }
}

/// The rest of a function's argument list after an argument: `)` ends it, `,` and a
/// declaration add an argument.
pub open spec fn fn_args_at(ts: Seq<TokenModel>, j: nat, args: Seq<DeclModel>) -> Option<(Seq<DeclModel>, nat)>
    decreases rest(ts, j),
{
    match tok(ts, j) {
        Some(TokenModel::RParen) => Some((args, 1)),
        Some(TokenModel::Comma) => match decl_at(ts, j + 1) {
            Some((d, n)) => shift(fn_args_at(ts, j + 1 + n, args.push(d)), 1 + n),
            None => None,
        },
        _ => None,
    }
}

/// The argument list of a function from just past its `(` through the `)`.
pub open spec fn arg_list_at(ts: Seq<TokenModel>, i: nat) -> Option<(Seq<DeclModel>, nat)> {
    if tok(ts, i) == Some(TokenModel::RParen) {
        Some((Seq::empty(), 1))
    } else {
        match decl_at(ts, i) {
            Some((d, n)) => shift(fn_args_at(ts, i + n, seq![d]), n),
            None => None,
        }
    }
}

/// A function definition from just past the `(` of its argument list: the arguments and the
/// body, with the name and return type of `signature`.
pub open spec fn function_at(ts: Seq<TokenModel>, i: nat, signature: DeclModel) -> Option<(FunctionModel, nat)> {
    match arg_list_at(ts, i) {
        Some((args, n)) => match block_at(ts, i + n) {
            Some((body, m)) => Some(
                (
                    FunctionModel {
                        name: signature.name,
                        arguments: args,
                        return_type: signature.ty,
                        statements: body,
                    },
                    n + m,
                ),
            ),
            None => None,
        },
        None => None,
    }
}

/// The top level from index `i` on, `globals` and `functions` holding what came before: each
/// construct is a declaration followed by `;` (a global) or by `(` (a function definition).
pub open spec fn program_from(ts: Seq<TokenModel>, i: nat, globals: Seq<DeclModel>, functions: Seq<FunctionModel>) -> Option<ProgramModel>
    decreases rest(ts, i),
{
    match tok(ts, i) {
        None => Some(ProgramModel { globals, functions }),
        Some(TokenModel::Identifier(_)) => match decl_at(ts, i) {
            Some((d, n)) => match tok(ts, i + n) {
                Some(TokenModel::Semicolon) => program_from(ts, i + n + 1, globals.push(d), functions),
                Some(TokenModel::LParen) => match function_at(ts, i + n + 1, d) {
                    Some((f, m)) => program_from(ts, i + n + 1 + m, globals, functions.push(f)),
                    None => None,
                },
                _ => None,
            },
            None => None,
        },
        Some(_) => None,
    }
}

/// The program that a token sequence spells, or `None` for a syntax error.
pub open spec fn parsed(ts: Seq<TokenModel>) -> Option<ProgramModel> {
    program_from(ts, 0, Seq::empty(), Seq::empty())
}

/// The expression that a whole token sequence spells, or `None` for a syntax error or tokens
/// left over.
pub open spec fn expression_parsed(ts: Seq<TokenModel>) -> Option<ExprModel> {
    match expr_at(ts, 0) {
        Some((e, n)) => if n >= ts.len() {
            Some(e)
        } else {
            None
        },
        None => None,
    }
}

} // verus!
