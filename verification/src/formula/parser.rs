//! The grammar of the formula language: from tokens to an expression.
//!
//! From the loosest to the tightest binding: `?:`, which groups to the right;
//! `||`; `&&`; `|`; `^`; `&`; `==` and `!=`; `<`, `<=`, `>` and `>=`; `<<`
//! and `>>`; `+` and `-`; `*`, `/` and `%`; `**`, which groups to the right;
//! the unary `+`, `-`, `!` and `~`; and at last literals, names, calls of
//! functions and expressions in parentheses. Binary operators of one level
//! group to the left.

use vstd::prelude::*;

use crate::formula::lexer::{
    spec_tokenize, token_views, tokenize, Symbol, Token, TokenView,
};
use crate::formula::{BinOpKind, Constant, Expr, ExprView, UnOpKind};
use crate::utils::str_eq;

verus! {

/// The binary operator that `sym` denotes, and its level; the higher the
/// level, the tighter the operator binds.
pub open spec fn binary_operator(sym: Symbol) -> Option<(BinOpKind, nat)> {
    match sym {
        Symbol::PipePipe => Some((BinOpKind::Or, 1)),
        Symbol::AmpAmp => Some((BinOpKind::And, 2)),
        Symbol::Pipe => Some((BinOpKind::BitOr, 3)),
        Symbol::Caret => Some((BinOpKind::BitXor, 4)),
        Symbol::Amp => Some((BinOpKind::BitAnd, 5)),
        Symbol::EqEq => Some((BinOpKind::Eq, 6)),
        Symbol::NotEq => Some((BinOpKind::Ne, 6)),
        Symbol::Lt => Some((BinOpKind::Lt, 7)),
        Symbol::Le => Some((BinOpKind::Le, 7)),
        Symbol::Gt => Some((BinOpKind::Gt, 7)),
        Symbol::Ge => Some((BinOpKind::Ge, 7)),
        Symbol::Shl => Some((BinOpKind::Shl, 8)),
        Symbol::Shr => Some((BinOpKind::Shr, 8)),
        Symbol::Plus => Some((BinOpKind::Add, 9)),
        Symbol::Minus => Some((BinOpKind::Sub, 9)),
        Symbol::Star => Some((BinOpKind::Mul, 10)),
        Symbol::Slash => Some((BinOpKind::Div, 10)),
        Symbol::Percent => Some((BinOpKind::Rem, 10)),
        Symbol::StarStar => Some((BinOpKind::Pow, 11)),
        _ => None,
    }
}

/// The level of `**`, the tightest binary operator.
pub const POWER_LEVEL: usize = 11;

/// The unary operator that `sym` denotes in front of an operand.
pub open spec fn unary_operator(sym: Symbol) -> Option<UnOpKind> {
    match sym {
        Symbol::Plus => Some(UnOpKind::Plus),
        Symbol::Minus => Some(UnOpKind::Neg),
        Symbol::Bang => Some(UnOpKind::Not),
        Symbol::Tilde => Some(UnOpKind::BitNot),
        _ => None,
    }
}

/// The function of one argument that is called `name`.
pub open spec fn unary_function(name: Seq<char>) -> Option<UnOpKind> {
    if name == "SIN"@ {
        Some(UnOpKind::Sin)
    } else if name == "COS"@ {
        Some(UnOpKind::Cos)
    } else if name == "TAN"@ {
        Some(UnOpKind::Tan)
    } else if name == "ASIN"@ {
        Some(UnOpKind::Asin)
    } else if name == "ACOS"@ {
        Some(UnOpKind::Acos)
    } else if name == "ATAN"@ {
        Some(UnOpKind::Atan)
    } else if name == "EXP"@ {
        Some(UnOpKind::Exp)
    } else if name == "LN"@ {
        Some(UnOpKind::Ln)
    } else if name == "LG"@ {
        Some(UnOpKind::Lg)
    } else if name == "SQRT"@ {
        Some(UnOpKind::Sqrt)
    } else if name == "TRUNC"@ {
        Some(UnOpKind::Trunc)
    } else if name == "FLOOR"@ {
        Some(UnOpKind::Floor)
    } else if name == "CEIL"@ {
        Some(UnOpKind::Ceil)
    } else if name == "ROUND"@ {
        Some(UnOpKind::Round)
    } else if name == "ABS"@ {
        Some(UnOpKind::Abs)
    } else if name == "SGN"@ {
        Some(UnOpKind::Sgn)
    } else if name == "NEG"@ {
        Some(UnOpKind::Neg)
    } else {
        None
    }
}

/// The function of two arguments that is called `name`.
pub open spec fn binary_function(name: Seq<char>) -> Option<BinOpKind> {
    if name == "ATAN2"@ {
        Some(BinOpKind::Atan2)
    } else if name == "POW"@ {
        Some(BinOpKind::Pow)
    } else {
        None
    }
}

/// What the name `name` stands for where it is not called: `TRUE` and
/// `FALSE` are the integers 1 and 0; `PI`, `E`, `INF` and `NAN` are
/// constants; any other name is a variable.
pub open spec fn named_value(name: Seq<char>) -> ExprView {
    if name == "TRUE"@ {
        ExprView::Integer(1)
    } else if name == "FALSE"@ {
        ExprView::Integer(0)
    } else if name == "PI"@ {
        ExprView::Constant(Constant::Pi)
    } else if name == "E"@ {
        ExprView::Constant(Constant::E)
    } else if name == "INF"@ {
        ExprView::Constant(Constant::Inf)
    } else if name == "NAN"@ {
        ExprView::Constant(Constant::Nan)
    } else {
        ExprView::Ident(name)
    }
}

/// Whether the token of `ts` at `pos` is the symbol `sym`.
pub open spec fn symbol_is(ts: Seq<TokenView>, pos: nat, sym: Symbol) -> bool {
    pos < ts.len() && ts[pos as int] == TokenView::Sym(sym)
}

/// The binary operator of the level `level` at `pos`.
pub open spec fn operator_at(ts: Seq<TokenView>, pos: nat, level: nat) -> Option<BinOpKind> {
    if pos < ts.len() {
        match ts[pos as int] {
            TokenView::Sym(sym) => match binary_operator(sym) {
                Some((kind, l)) => if l == level {
                    Some(kind)
                } else {
                    None
                },
                None => None,
            },
            _ => None,
        }
    } else {
        None
    }
}

/// The expression that starts at `pos`, and the position behind it.
pub open spec fn parse_expr(ts: Seq<TokenView>, pos: nat) -> Option<(ExprView, nat)>
    decreases ts.len() - pos, 20nat,
{
    match parse_binary(ts, pos, 1) {
        Some((cond, at1)) => if symbol_is(ts, at1, Symbol::Question) && at1 >= pos {
            match parse_expr(ts, at1 + 1) {
                Some((then, at2)) => if symbol_is(ts, at2, Symbol::Colon) && at2 >= pos {
                    match parse_expr(ts, at2 + 1) {
                        Some((otherwise, at3)) => Some(
                            (
                                ExprView::If(Box::new(cond), Box::new(then), Box::new(otherwise)),
                                at3,
                            ),
                        ),
                        None => None,
                    }
                } else {
                    None
                },
                None => None,
            }
        } else {
            Some((cond, at1))
        },
        None => None,
    }
}

/// The operand of the binary operators of the level `level` that starts at
/// `pos`: an expression whose binary operators outside parentheses all bind
/// as tight as that level or tighter.
pub open spec fn parse_binary(ts: Seq<TokenView>, pos: nat, level: nat) -> Option<(ExprView, nat)>
    decreases ts.len() - pos,
        if level > POWER_LEVEL {
            3nat
        } else {
            (15 - level) as nat
        },
{
    if level > POWER_LEVEL {
        parse_unary(ts, pos)
    } else {
        match parse_binary(ts, pos, level + 1) {
            Some((lhs, p)) => if level == POWER_LEVEL {
                if operator_at(ts, p, level) is Some && p >= pos {
                    match parse_binary(ts, p + 1, level) {
                        Some((rhs, at2)) => Some(
                            (ExprView::BinOp(BinOpKind::Pow, Box::new(lhs), Box::new(rhs)), at2),
                        ),
                        None => None,
                    }
                } else {
                    Some((lhs, p))
                }
            } else if pos <= p <= ts.len() {
                parse_binary_rest(ts, p, level, lhs)
            } else {
                None
            },
            None => None,
        }
    }
}

/// What follows the operand `lhs` of the level `level` that ends at `pos`:
/// operators of that level, each with its right operand.
pub open spec fn parse_binary_rest(ts: Seq<TokenView>, pos: nat, level: nat, lhs: ExprView)
    -> Option<(ExprView, nat)>
    decreases ts.len() - pos, 0nat,
{
    match operator_at(ts, pos, level) {
        Some(kind) => if level <= POWER_LEVEL {
            match parse_binary(ts, pos + 1, level + 1) {
                Some((rhs, p)) => if pos < p <= ts.len() {
                    parse_binary_rest(
                        ts,
                        p,
                        level,
                        ExprView::BinOp(kind, Box::new(lhs), Box::new(rhs)),
                    )
                } else {
                    None
                },
                None => None,
            }
        } else {
            None
        },
        None => Some((lhs, pos)),
    }
}

/// The operand with its unary operators that starts at `pos`.
pub open spec fn parse_unary(ts: Seq<TokenView>, pos: nat) -> Option<(ExprView, nat)>
    decreases ts.len() - pos, 2nat,
{
    if pos < ts.len() {
        match ts[pos as int] {
            TokenView::Sym(sym) => match unary_operator(sym) {
                Some(kind) => match parse_unary(ts, pos + 1) {
                    Some((e, p)) => Some((ExprView::UnOp(kind, Box::new(e)), p)),
                    None => None,
                },
                None => parse_primary(ts, pos),
            },
            _ => parse_primary(ts, pos),
        }
    } else {
        None
    }
}

/// The literal, name, call or expression in parentheses that starts at
/// `pos`.
pub open spec fn parse_primary(ts: Seq<TokenView>, pos: nat) -> Option<(ExprView, nat)>
    decreases ts.len() - pos, 1nat,
{
    if pos < ts.len() {
        match ts[pos as int] {
            TokenView::Int(v) => Some((ExprView::Integer(v), pos + 1)),
            TokenView::Float(t) => Some((ExprView::Float(t), pos + 1)),
            TokenView::Sym(sym) => if sym == Symbol::LParen {
                match parse_expr(ts, pos + 1) {
                    Some((e, p)) => if symbol_is(ts, p, Symbol::RParen) {
                        Some((e, p + 1))
                    } else {
                        None
                    },
                    None => None,
                }
            } else {
                None
            },
            TokenView::Ident(name) => if symbol_is(ts, pos + 1, Symbol::LParen) {
                match parse_expr(ts, pos + 2) {
                    Some((a, p)) => match unary_function(name) {
                        Some(kind) => if symbol_is(ts, p, Symbol::RParen) {
                            Some((ExprView::UnOp(kind, Box::new(a)), p + 1))
                        } else {
                            None
                        },
                        None => match binary_function(name) {
                            Some(kind) => if symbol_is(ts, p, Symbol::Comma) && p >= pos {
                                match parse_expr(ts, p + 1) {
                                    Some((b, at2)) => if symbol_is(ts, at2, Symbol::RParen) {
                                        Some(
                                            (
                                                ExprView::BinOp(kind, Box::new(a), Box::new(b)),
                                                at2 + 1,
                                            ),
                                        )
                                    } else {
                                        None
                                    },
                                    None => None,
                                }
                            } else {
                                None
                            },
                            None => None,
                        },
                    },
                    None => None,
                }
            } else {
                Some((named_value(name), pos + 1))
            },
        }
    } else {
        None
    }
}

/// The expression that the tokens `ts` are, from the first to the last.
pub open spec fn spec_parse_tokens(ts: Seq<TokenView>) -> Option<ExprView> {
    match parse_expr(ts, 0) {
        Some((e, p)) => if p == ts.len() {
            Some(e)
        } else {
            None
        },
        None => None,
    }
}

/// The expression that the text `s` is. `None` where it is none.
pub open spec fn spec_parse(s: Seq<char>) -> Option<ExprView> {
    match spec_tokenize(s) {
        Some(ts) => spec_parse_tokens(ts),
        None => None,
    }
}


/// The binary operator that `sym` denotes, and its level.
fn binary_operator_of(sym: Symbol) -> (r: Option<(BinOpKind, usize)>)
    ensures
        match r {
            Some((kind, level)) => binary_operator(sym) == Some((kind, level as nat)) && 1 <= level
                <= POWER_LEVEL,
            None => binary_operator(sym) is None,
        },
{
    match sym {
        Symbol::PipePipe => Some((BinOpKind::Or, 1)),
        Symbol::AmpAmp => Some((BinOpKind::And, 2)),
        Symbol::Pipe => Some((BinOpKind::BitOr, 3)),
        Symbol::Caret => Some((BinOpKind::BitXor, 4)),
        Symbol::Amp => Some((BinOpKind::BitAnd, 5)),
        Symbol::EqEq => Some((BinOpKind::Eq, 6)),
        Symbol::NotEq => Some((BinOpKind::Ne, 6)),
        Symbol::Lt => Some((BinOpKind::Lt, 7)),
        Symbol::Le => Some((BinOpKind::Le, 7)),
        Symbol::Gt => Some((BinOpKind::Gt, 7)),
        Symbol::Ge => Some((BinOpKind::Ge, 7)),
        Symbol::Shl => Some((BinOpKind::Shl, 8)),
        Symbol::Shr => Some((BinOpKind::Shr, 8)),
        Symbol::Plus => Some((BinOpKind::Add, 9)),
        Symbol::Minus => Some((BinOpKind::Sub, 9)),
        Symbol::Star => Some((BinOpKind::Mul, 10)),
        Symbol::Slash => Some((BinOpKind::Div, 10)),
        Symbol::Percent => Some((BinOpKind::Rem, 10)),
        Symbol::StarStar => Some((BinOpKind::Pow, 11)),
        _ => None,
    }
}

/// The unary operator that `sym` denotes in front of an operand.
fn unary_operator_of(sym: Symbol) -> (r: Option<UnOpKind>)
    ensures
        r == unary_operator(sym),
{
    match sym {
        Symbol::Plus => Some(UnOpKind::Plus),
        Symbol::Minus => Some(UnOpKind::Neg),
        Symbol::Bang => Some(UnOpKind::Not),
        Symbol::Tilde => Some(UnOpKind::BitNot),
        _ => None,
    }
}

/// The function of one argument that is called `name`.
fn unary_function_of(name: &str) -> (r: Option<UnOpKind>)
    ensures
        r == unary_function(name@),
{
    if str_eq(name, "SIN") {
        Some(UnOpKind::Sin)
    } else if str_eq(name, "COS") {
        Some(UnOpKind::Cos)
    } else if str_eq(name, "TAN") {
        Some(UnOpKind::Tan)
    } else if str_eq(name, "ASIN") {
        Some(UnOpKind::Asin)
    } else if str_eq(name, "ACOS") {
        Some(UnOpKind::Acos)
    } else if str_eq(name, "ATAN") {
        Some(UnOpKind::Atan)
    } else if str_eq(name, "EXP") {
        Some(UnOpKind::Exp)
    } else if str_eq(name, "LN") {
        Some(UnOpKind::Ln)
    } else if str_eq(name, "LG") {
        Some(UnOpKind::Lg)
    } else if str_eq(name, "SQRT") {
        Some(UnOpKind::Sqrt)
    } else if str_eq(name, "TRUNC") {
        Some(UnOpKind::Trunc)
    } else if str_eq(name, "FLOOR") {
        Some(UnOpKind::Floor)
    } else if str_eq(name, "CEIL") {
        Some(UnOpKind::Ceil)
    } else if str_eq(name, "ROUND") {
        Some(UnOpKind::Round)
    } else if str_eq(name, "ABS") {
        Some(UnOpKind::Abs)
    } else if str_eq(name, "SGN") {
        Some(UnOpKind::Sgn)
    } else if str_eq(name, "NEG") {
        Some(UnOpKind::Neg)
    } else {
        None
    }
}

/// The function of two arguments that is called `name`.
fn binary_function_of(name: &str) -> (r: Option<BinOpKind>)
    ensures
        r == binary_function(name@),
{
    if str_eq(name, "ATAN2") {
        Some(BinOpKind::Atan2)
    } else if str_eq(name, "POW") {
        Some(BinOpKind::Pow)
    } else {
        None
    }
}

/// What the name `name` stands for where it is not called.
fn named_value_of(name: &str) -> (r: Expr)
    ensures
        r@ == named_value(name@),
{
    if str_eq(name, "TRUE") {
        Expr::Integer(1)
    } else if str_eq(name, "FALSE") {
        Expr::Integer(0)
    } else if str_eq(name, "PI") {
        Expr::Constant(Constant::Pi)
    } else if str_eq(name, "E") {
        Expr::Constant(Constant::E)
    } else if str_eq(name, "INF") {
        Expr::Constant(Constant::Inf)
    } else if str_eq(name, "NAN") {
        Expr::Constant(Constant::Nan)
    } else {
        Expr::Ident(name.to_owned())
    }
}

/// Whether the token at `pos` is the symbol `sym`.
fn symbol_is_at(tokens: &Vec<Token>, pos: usize, sym: Symbol) -> (r: bool)
    ensures
        r == symbol_is(token_views(tokens@), pos as nat, sym),
{
    if pos < tokens.len() {
        match &tokens[pos] {
            Token::Sym(s) => *s == sym,
            _ => false,
        }
    } else {
        false
    }
}

/// The binary operator of the level `level` at `pos`.
fn operator_of(tokens: &Vec<Token>, pos: usize, level: usize) -> (r: Option<BinOpKind>)
    ensures
        r == operator_at(token_views(tokens@), pos as nat, level as nat),
        r is Some ==> pos < tokens@.len(),
{
    if pos < tokens.len() {
        match &tokens[pos] {
            Token::Sym(sym) => match binary_operator_of(*sym) {
                Some((kind, l)) => {
                    if l == level {
                        Some(kind)
                    } else {
                        None
                    }
                },
                None => None,
            },
            _ => None,
        }
    } else {
        None
    }
}

/// Reads the expression that starts at `pos`.
fn expr(tokens: &Vec<Token>, pos: usize) -> (r: Option<(Expr, usize)>)
    ensures
        match r {
            Some((e, p)) => parse_expr(token_views(tokens@), pos as nat) == Some((e@, p as nat))
                && pos < p <= tokens@.len(),
            None => parse_expr(token_views(tokens@), pos as nat) is None,
        },
    decreases tokens@.len() - pos, 20nat,
{
    if pos >= tokens.len() {
        proof {
            lemma_nothing_at_the_end(token_views(tokens@), pos as nat);
        }
        return None;
    }
    let (cond, at1) = binary(tokens, pos, 1)?;
    if symbol_is_at(tokens, at1, Symbol::Question) {
        let (then, at2) = expr(tokens, at1 + 1)?;
        if symbol_is_at(tokens, at2, Symbol::Colon) {
            let (otherwise, at3) = expr(tokens, at2 + 1)?;
            Some((Expr::If(Box::new(cond), Box::new(then), Box::new(otherwise)), at3))
        } else {
            None
        }
    } else {
        Some((cond, at1))
    }
}

/// Reads the operand of the binary operators of the level `level` that
/// starts at `pos`.
fn binary(tokens: &Vec<Token>, pos: usize, level: usize) -> (r: Option<(Expr, usize)>)
    requires
        pos < tokens@.len(),
        level >= 1,
    ensures
        match r {
            Some((e, p)) => parse_binary(token_views(tokens@), pos as nat, level as nat) == Some(
                (e@, p as nat),
            ) && pos < p <= tokens@.len(),
            None => parse_binary(token_views(tokens@), pos as nat, level as nat) is None,
        },
    decreases tokens@.len() - pos,
        if level > POWER_LEVEL {
            3nat
        } else {
            (15 - level) as nat
        },
{
    let _ = tokens.len();
    if level > POWER_LEVEL {
        return unary(tokens, pos);
    }
    let (lhs, p) = binary(tokens, pos, level + 1)?;
    if level == POWER_LEVEL {
        if operator_of(tokens, p, level).is_some() {
            if p + 1 >= tokens.len() {
                proof {
                    lemma_no_operand_at_the_end(
                        token_views(tokens@),
                        (p + 1) as nat,
                        level as nat,
                    );
                }
                return None;
            }
            let (rhs, at2) = binary(tokens, p + 1, level)?;
            Some((Expr::BinOp(BinOpKind::Pow, Box::new(lhs), Box::new(rhs)), at2))
        } else {
            Some((lhs, p))
        }
    } else {
        binary_rest(tokens, p, level, lhs)
    }
}

/// Reads what follows the operand `lhs` of the level `level` that ends at
/// `pos`.
fn binary_rest(tokens: &Vec<Token>, pos: usize, level: usize, lhs: Expr) -> (r: Option<
    (Expr, usize),
>)
    requires
        pos <= tokens@.len(),
        1 <= level <= POWER_LEVEL,
    ensures
        match r {
            Some((e, p)) => parse_binary_rest(
                token_views(tokens@),
                pos as nat,
                level as nat,
                lhs@,
            ) == Some((e@, p as nat)) && pos <= p <= tokens@.len(),
            None => parse_binary_rest(token_views(tokens@), pos as nat, level as nat, lhs@)
                is None,
        },
    decreases tokens@.len() - pos, 0nat,
{
    let _ = tokens.len();
    match operator_of(tokens, pos, level) {
        Some(kind) => {
            if pos + 1 >= tokens.len() {
                proof {
                    lemma_no_operand_at_the_end(
                        token_views(tokens@),
                        (pos + 1) as nat,
                        (level + 1) as nat,
                    );
                }
                return None;
            }
            let (rhs, p) = binary(tokens, pos + 1, level + 1)?;
            binary_rest(tokens, p, level, Expr::BinOp(kind, Box::new(lhs), Box::new(rhs)))
        },
        None => Some((lhs, pos)),
    }
}

/// Reads the operand with its unary operators that starts at `pos`.
fn unary(tokens: &Vec<Token>, pos: usize) -> (r: Option<(Expr, usize)>)
    requires
        pos < tokens@.len(),
    ensures
        match r {
            Some((e, p)) => parse_unary(token_views(tokens@), pos as nat) == Some((e@, p as nat))
                && pos < p <= tokens@.len(),
            None => parse_unary(token_views(tokens@), pos as nat) is None,
        },
    decreases tokens@.len() - pos, 2nat,
{
    let _ = tokens.len();
    let kind = match &tokens[pos] {
        Token::Sym(sym) => unary_operator_of(*sym),
        _ => None,
    };
    match kind {
        Some(kind) => {
            if pos + 1 >= tokens.len() {
                proof {
                    lemma_nothing_at_the_end(token_views(tokens@), (pos + 1) as nat);
                }
                return None;
            }
            let (e, p) = unary(tokens, pos + 1)?;
            Some((Expr::UnOp(kind, Box::new(e)), p))
        },
        None => primary(tokens, pos),
    }
}

/// Reads the literal, name, call or expression in parentheses that starts
/// at `pos`.
fn primary(tokens: &Vec<Token>, pos: usize) -> (r: Option<(Expr, usize)>)
    requires
        pos < tokens@.len(),
    ensures
        match r {
            Some((e, p)) => parse_primary(token_views(tokens@), pos as nat) == Some(
                (e@, p as nat),
            ) && pos < p <= tokens@.len(),
            None => parse_primary(token_views(tokens@), pos as nat) is None,
        },
    decreases tokens@.len() - pos, 1nat,
{
    let _ = tokens.len();
    match &tokens[pos] {
        Token::Int(v) => Some((Expr::Integer(*v), pos + 1)),
        Token::Float(t) => Some((Expr::Float(t.clone()), pos + 1)),
        Token::Sym(sym) => {
            if *sym == Symbol::LParen {
                let (e, p) = expr(tokens, pos + 1)?;
                if symbol_is_at(tokens, p, Symbol::RParen) {
                    Some((e, p + 1))
                } else {
                    None
                }
            } else {
                None
            }
        },
        Token::Ident(name) => {
            if symbol_is_at(tokens, pos + 1, Symbol::LParen) {
                let (a, p) = expr(tokens, pos + 2)?;
                match unary_function_of(name.as_str()) {
                    Some(kind) => {
                        if symbol_is_at(tokens, p, Symbol::RParen) {
                            Some((Expr::UnOp(kind, Box::new(a)), p + 1))
                        } else {
                            None
                        }
                    },
                    None => match binary_function_of(name.as_str()) {
                        Some(kind) => {
                            if symbol_is_at(tokens, p, Symbol::Comma) {
                                let (b, at2) = expr(tokens, p + 1)?;
                                if symbol_is_at(tokens, at2, Symbol::RParen) {
                                    Some((Expr::BinOp(kind, Box::new(a), Box::new(b)), at2 + 1))
                                } else {
                                    None
                                }
                            } else {
                                None
                            }
                        },
                        None => None,
                    },
                }
            } else {
                Some((named_value_of(name.as_str()), pos + 1))
            }
        },
    }
}

/// Behind the last token nothing starts.
proof fn lemma_nothing_at_the_end(ts: Seq<TokenView>, pos: nat)
    requires
        pos >= ts.len(),
    ensures
        parse_expr(ts, pos) is None,
        forall|level: nat| parse_binary(ts, pos, level) is None,
        parse_unary(ts, pos) is None,
        parse_primary(ts, pos) is None,
{
    assert forall|level: nat| parse_binary(ts, pos, level) is None by {
        lemma_no_operand_at_the_end(ts, pos, level);
    }
    assert(parse_binary(ts, pos, 1) is None);
    assert(parse_expr(ts, pos) is None);
}

/// Behind the last token no operand starts.
proof fn lemma_no_operand_at_the_end(ts: Seq<TokenView>, pos: nat, level: nat)
    requires
        pos >= ts.len(),
    ensures
        parse_binary(ts, pos, level) is None,
    decreases
            if level > POWER_LEVEL {
                0nat
            } else {
                (15 - level) as nat
            },
{
    if level <= POWER_LEVEL {
        lemma_no_operand_at_the_end(ts, pos, level + 1);
        assert(parse_binary(ts, pos, level + 1) is None);
        assert(parse_binary(ts, pos, level) is None);
    } else {
        assert(parse_unary(ts, pos) is None);
        assert(parse_binary(ts, pos, level) is None);
    }
}

/// Reads the expression that the tokens `tokens` are.
pub fn parse_tokens(tokens: &Vec<Token>) -> (r: Option<Expr>)
    ensures
        match r {
            Some(e) => spec_parse_tokens(token_views(tokens@)) == Some(e@),
            None => spec_parse_tokens(token_views(tokens@)) is None,
        },
{
    match expr(tokens, 0) {
        Some((e, p)) => {
            if p == tokens.len() {
                Some(e)
            } else {
                None
            }
        },
        None => None,
    }
}

/// Reads the expression that the text `s` is.
pub fn parse(s: &str) -> (r: Option<Expr>)
    ensures
        match r {
            Some(e) => spec_parse(s@) == Some(e@),
            None => spec_parse(s@) is None,
        },
{
    match tokenize(s) {
        Some(tokens) => parse_tokens(&tokens),
        None => None,
    }
}

} // verus!
