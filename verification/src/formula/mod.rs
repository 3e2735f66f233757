//! The formula language of converters and swiss knives: expressions over
//! integers and named variables.
//!
//! An expression is parsed once and evaluated many times, each time with an
//! environment that binds its variables. The evaluator of this module is the
//! integer dialect: all arithmetic is done in signed 64-bit integers, and an
//! expression that needs double arithmetic is reported as such.

use vstd::prelude::*;

use crate::utils::str_eq;

pub mod lexer;
pub mod parser;

verus! {

/// Why an expression has no value.
#[derive(Clone, Copy, Debug, PartialEq, Eq, Structural)]
pub enum FormulaError {
    /// A division or a remainder by zero, a shift by a negative amount, or
    /// a result that 64 bits do not hold.
    ArithmeticError,
    /// A variable of the expression is not bound.
    UnboundVariable,
    /// The expression needs double arithmetic.
    NotAnInteger,
}

/// A named constant of the language that is no integer.
#[derive(Clone, Copy, Debug, PartialEq, Eq, Structural)]
pub enum Constant {
    Pi,
    E,
    Inf,
    Nan,
}

/// A unary operator or a function of one argument.
#[derive(Clone, Copy, Debug, PartialEq, Eq, Structural)]
pub enum UnOpKind {
    /// `+`
    Plus,
    /// `-` and `NEG`
    Neg,
    /// `!`
    Not,
    /// `~`
    BitNot,
    Abs,
    Sgn,
    Trunc,
    Floor,
    Ceil,
    Round,
    Sin,
    Cos,
    Tan,
    Asin,
    Acos,
    Atan,
    Exp,
    Ln,
    Lg,
    Sqrt,
}

/// A binary operator or a function of two arguments.
#[derive(Clone, Copy, Debug, PartialEq, Eq, Structural)]
pub enum BinOpKind {
    Add,
    Sub,
    Mul,
    Div,
    Rem,
    /// `**` and `POW`
    Pow,
    Shl,
    Shr,
    BitAnd,
    BitOr,
    BitXor,
    /// `&&`
    And,
    /// `||`
    Or,
    Eq,
    Ne,
    Lt,
    Le,
    Gt,
    Ge,
    Atan2,
}

/// An expression.
#[derive(Debug)]
pub enum Expr {
    /// An integer literal; `TRUE` is 1 and `FALSE` is 0.
    Integer(i64),
    /// A floating-point literal, as it is written.
    Float(String),
    /// One of `PI`, `E`, `INF` and `NAN`.
    Constant(Constant),
    /// A variable.
    Ident(String),
    UnOp(UnOpKind, Box<Expr>),
    BinOp(BinOpKind, Box<Expr>, Box<Expr>),
    /// `cond ? then : otherwise`
    If(Box<Expr>, Box<Expr>, Box<Expr>),
}

/// An `Expr` as a plain value.
pub enum ExprView {
    Integer(i64),
    Float(Seq<char>),
    Constant(Constant),
    Ident(Seq<char>),
    UnOp(UnOpKind, Box<ExprView>),
    BinOp(BinOpKind, Box<ExprView>, Box<ExprView>),
    If(Box<ExprView>, Box<ExprView>, Box<ExprView>),
}

/// The expression `e` as a plain value.
pub open spec fn expr_view(e: Expr) -> ExprView
    decreases e,
{
    match e {
        Expr::Integer(v) => ExprView::Integer(v),
        Expr::Float(t) => ExprView::Float(t@),
        Expr::Constant(c) => ExprView::Constant(c),
        Expr::Ident(n) => ExprView::Ident(n@),
        Expr::UnOp(kind, e) => ExprView::UnOp(kind, Box::new(expr_view(*e))),
        Expr::BinOp(kind, l, r) => ExprView::BinOp(
            kind,
            Box::new(expr_view(*l)),
            Box::new(expr_view(*r)),
        ),
        Expr::If(c, t, e) => ExprView::If(
            Box::new(expr_view(*c)),
            Box::new(expr_view(*t)),
            Box::new(expr_view(*e)),
        ),
    }
}

impl View for Expr {
    type V = ExprView;

    open spec fn view(&self) -> ExprView {
        expr_view(*self)
    }
}

/// 1 for true and 0 for false.
pub open spec fn truth(b: bool) -> i64 {
    if b {
        1
    } else {
        0
    }
}

/// The number `v` where 64 bits hold it.
pub open spec fn checked(v: int) -> Result<i64, FormulaError> {
    if i64::MIN <= v <= i64::MAX {
        Ok(v as i64)
    } else {
        Err(FormulaError::ArithmeticError)
    }
}

/// The quotient of `a` and `b`, rounded towards zero.
pub open spec fn trunc_div(a: int, b: int) -> int
    recommends
        b != 0,
{
    if a >= 0 && b > 0 {
        a / b
    } else if a < 0 && b < 0 {
        (-a) / (-b)
    } else if a < 0 {
        -((-a) / b)
    } else {
        -(a / (-b))
    }
}

/// The remainder of the division of `a` by `b` that rounds towards zero; it
/// has the sign of `a`.
pub open spec fn trunc_rem(a: int, b: int) -> int
    recommends
        b != 0,
{
    a - b * trunc_div(a, b)
}

/// The value of the unary operator `kind` on `a`.
///
/// The rounding functions leave an integer as it is. The functions of
/// analysis need double arithmetic.
pub open spec fn apply_un(kind: UnOpKind, a: i64) -> Result<i64, FormulaError> {
    match kind {
        UnOpKind::Plus => Ok(a),
        UnOpKind::Neg => checked(-a),
        UnOpKind::Not => Ok(truth(a == 0)),
        UnOpKind::BitNot => Ok(!a),
        UnOpKind::Abs => checked(
            if a < 0 {
                -a
            } else {
                a as int
            },
        ),
        UnOpKind::Sgn => Ok(
            if a > 0 {
                1i64
            } else if a < 0 {
                -1i64
            } else {
                0i64
            },
        ),
        UnOpKind::Trunc | UnOpKind::Floor | UnOpKind::Ceil | UnOpKind::Round => Ok(a),
        _ => Err(FormulaError::NotAnInteger),
    }
}

/// The value of the binary operator `kind` on `a` and `b`, for every
/// operator but `&&` and `||`, which do not always look at `b`.
///
/// A division or remainder by zero and a result beyond 64 bits are
/// arithmetic errors, and so is a shift by a negative amount. A shift by 64
/// or more yields 0; a shift to the left drops the bits that leave the 64,
/// and a shift to the right keeps the sign. Powers need double arithmetic.
pub open spec fn apply_bin(kind: BinOpKind, a: i64, b: i64) -> Result<i64, FormulaError> {
    match kind {
        BinOpKind::Add => checked(a + b),
        BinOpKind::Sub => checked(a - b),
        BinOpKind::Mul => checked(a * b),
        BinOpKind::Div => if b == 0 {
            Err(FormulaError::ArithmeticError)
        } else {
            checked(trunc_div(a as int, b as int))
        },
        BinOpKind::Rem => if b == 0 {
            Err(FormulaError::ArithmeticError)
        } else {
            checked(trunc_rem(a as int, b as int))
        },
        BinOpKind::Shl => if b < 0 {
            Err(FormulaError::ArithmeticError)
        } else if b >= 64 {
            Ok(0)
        } else {
            Ok(a << b)
        },
        BinOpKind::Shr => if b < 0 {
            Err(FormulaError::ArithmeticError)
        } else if b >= 64 {
            Ok(0)
        } else {
            Ok(a >> b)
        },
        BinOpKind::BitAnd => Ok(a & b),
        BinOpKind::BitOr => Ok(a | b),
        BinOpKind::BitXor => Ok(a ^ b),
        BinOpKind::And => Ok(truth(a != 0 && b != 0)),
        BinOpKind::Or => Ok(truth(a != 0 || b != 0)),
        BinOpKind::Eq => Ok(truth(a == b)),
        BinOpKind::Ne => Ok(truth(a != b)),
        BinOpKind::Lt => Ok(truth(a < b)),
        BinOpKind::Le => Ok(truth(a <= b)),
        BinOpKind::Gt => Ok(truth(a > b)),
        BinOpKind::Ge => Ok(truth(a >= b)),
        BinOpKind::Pow | BinOpKind::Atan2 => Err(FormulaError::NotAnInteger),
    }
}

/// The value that `env` binds `name` to: that of the first binding of the
/// name.
pub open spec fn spec_lookup(env: Seq<(Seq<char>, i64)>, name: Seq<char>) -> Option<i64>
    decreases env.len(),
{
    if env.len() == 0 {
        None
    } else if env[0].0 == name {
        Some(env[0].1)
    } else {
        spec_lookup(env.skip(1), name)
    }
}

/// The value of the expression `e` where `env` binds its variables.
///
/// The value depends on the expression and the environment alone. The
/// operands of an operator are evaluated from left to right, and the first
/// error is the error of the expression; `&&` and `||` do not evaluate
/// their right operand where the left decides, and `?:` evaluates only the
/// branch that the condition selects.
pub open spec fn spec_eval(e: ExprView, env: Seq<(Seq<char>, i64)>) -> Result<i64, FormulaError>
    decreases e,
{
    match e {
        ExprView::Integer(v) => Ok(v),
        ExprView::Float(_) => Err(FormulaError::NotAnInteger),
        ExprView::Constant(_) => Err(FormulaError::NotAnInteger),
        ExprView::Ident(name) => match spec_lookup(env, name) {
            Some(v) => Ok(v),
            None => Err(FormulaError::UnboundVariable),
        },
        ExprView::UnOp(kind, a) => match spec_eval(*a, env) {
            Ok(a) => apply_un(kind, a),
            Err(e) => Err(e),
        },
        ExprView::BinOp(kind, l, r) => match spec_eval(*l, env) {
            Ok(a) => if kind == BinOpKind::And && a == 0 {
                Ok(0)
            } else if kind == BinOpKind::Or && a != 0 {
                Ok(1)
            } else {
                match spec_eval(*r, env) {
                    Ok(b) => apply_bin(kind, a, b),
                    Err(e) => Err(e),
                }
            },
            Err(e) => Err(e),
        },
        ExprView::If(c, t, o) => match spec_eval(*c, env) {
            Ok(c) => if c != 0 {
                spec_eval(*t, env)
            } else {
                spec_eval(*o, env)
            },
            Err(e) => Err(e),
        },
    }
}

/// The bindings of the variables of an expression.
#[derive(Debug)]
pub struct VarEnv {
    pub vars: Vec<(String, i64)>,
}

/// The bindings `vars` as plain values.
pub open spec fn bindings(vars: Seq<(String, i64)>) -> Seq<(Seq<char>, i64)> {
    Seq::new(vars.len(), |i: int| (vars[i].0@, vars[i].1))
}

impl View for VarEnv {
    type V = Seq<(Seq<char>, i64)>;

    open spec fn view(&self) -> Seq<(Seq<char>, i64)> {
        bindings(self.vars@)
    }
}

impl VarEnv {
    /// An environment without bindings.
    pub fn new() -> (r: VarEnv)
        ensures
            r@ == Seq::<(Seq<char>, i64)>::empty(),
    {
        let r = VarEnv { vars: Vec::new() };
        assert(r@ =~= Seq::<(Seq<char>, i64)>::empty());
        r
    }

    /// Binds `name` to `value`, in front of every earlier binding.
    pub fn bind(&mut self, name: &str, value: i64)
        ensures
            final(self)@ == seq![(name@, value)] + old(self)@,
            spec_lookup(final(self)@, name@) == Some(value),
            forall|other: Seq<char>|
                other != name@ ==> spec_lookup(final(self)@, other) == spec_lookup(
                    old(self)@,
                    other,
                ),
    {
        self.vars.insert(0, (name.to_owned(), value));
        proof {
            assert(self@ =~= seq![(name@, value)] + old(self)@);
            assert(self@.skip(1) =~= old(self)@);
        }
    }

    /// The value that `name` is bound to.
    pub fn lookup(&self, name: &str) -> (r: Option<i64>)
        ensures
            r == spec_lookup(self@, name@),
    {
        let mut i: usize = 0;
        assert(self@.skip(0) =~= self@);
        while i < self.vars.len()
            invariant
                i <= self.vars@.len(),
                spec_lookup(self@, name@) == spec_lookup(self@.skip(i as int), name@),
            decreases self.vars@.len() - i,
        {
            let ghost tail = self@.skip(i as int);
            assert(tail[0] == self@[i as int]);
            assert(tail.skip(1) =~= self@.skip(i + 1));
            if str_eq(self.vars[i].0.as_str(), name) {
                return Some(self.vars[i].1);
            }
            i += 1;
        }
        None
    }
}


/// The value of the unary operator `kind` on `a`.
pub fn un_op(kind: UnOpKind, a: i64) -> (r: Result<i64, FormulaError>)
    ensures
        r == apply_un(kind, a),
{
    match kind {
        UnOpKind::Plus => Ok(a),
        UnOpKind::Neg => match 0i64.checked_sub(a) {
            Some(v) => Ok(v),
            None => Err(FormulaError::ArithmeticError),
        },
        UnOpKind::Not => Ok(
            if a == 0 {
                1
            } else {
                0
            },
        ),
        UnOpKind::BitNot => Ok(!a),
        UnOpKind::Abs => if a >= 0 {
            Ok(a)
        } else {
            match 0i64.checked_sub(a) {
                Some(v) => Ok(v),
                None => Err(FormulaError::ArithmeticError),
            }
        },
        UnOpKind::Sgn => Ok(
            if a > 0 {
                1
            } else if a < 0 {
                -1
            } else {
                0
            },
        ),
        UnOpKind::Trunc | UnOpKind::Floor | UnOpKind::Ceil | UnOpKind::Round => Ok(a),
        _ => Err(FormulaError::NotAnInteger),
    }
}

/// The number `v` as a result.
fn checked_result(v: Option<i64>) -> (r: Result<i64, FormulaError>)
    ensures
        r == match v {
            Some(v) => Ok::<i64, FormulaError>(v),
            None => Err(FormulaError::ArithmeticError),
        },
{
    match v {
        Some(v) => Ok(v),
        None => Err(FormulaError::ArithmeticError),
    }
}

/// 1 for true and 0 for false.
fn truth_of(b: bool) -> (r: i64)
    ensures
        r == truth(b),
{
    if b {
        1
    } else {
        0
    }
}

/// The value of the binary operator `kind` on `a` and `b`.
pub fn bin_op(kind: BinOpKind, a: i64, b: i64) -> (r: Result<i64, FormulaError>)
    ensures
        r == apply_bin(kind, a, b),
{
    match kind {
        BinOpKind::Add => checked_result(a.checked_add(b)),
        BinOpKind::Sub => checked_result(a.checked_sub(b)),
        BinOpKind::Mul => checked_result(a.checked_mul(b)),
        BinOpKind::Div => {
            if b == 0 {
                Err(FormulaError::ArithmeticError)
            } else {
                checked_result(a.checked_div(b))
            }
        },
        BinOpKind::Rem => {
            if b == 0 {
                Err(FormulaError::ArithmeticError)
            } else if b == -1 {
                assert(trunc_rem(a as int, -1) == 0);
                Ok(0)
            } else {
                proof {
                    lemma_trunc_rem(a as int, b as int);
                }
                checked_result(a.checked_rem(b))
            }
        },
        BinOpKind::Shl => {
            if b < 0 {
                Err(FormulaError::ArithmeticError)
            } else if b >= 64 {
                Ok(0)
            } else {
                Ok(a << b)
            }
        },
        BinOpKind::Shr => {
            if b < 0 {
                Err(FormulaError::ArithmeticError)
            } else if b >= 64 {
                Ok(0)
            } else {
                Ok(a >> b)
            }
        },
        BinOpKind::BitAnd => Ok(a & b),
        BinOpKind::BitOr => Ok(a | b),
        BinOpKind::BitXor => Ok(a ^ b),
        BinOpKind::And => Ok(truth_of(a != 0 && b != 0)),
        BinOpKind::Or => Ok(truth_of(a != 0 || b != 0)),
        BinOpKind::Eq => Ok(truth_of(a == b)),
        BinOpKind::Ne => Ok(truth_of(a != b)),
        BinOpKind::Lt => Ok(truth_of(a < b)),
        BinOpKind::Le => Ok(truth_of(a <= b)),
        BinOpKind::Gt => Ok(truth_of(a > b)),
        BinOpKind::Ge => Ok(truth_of(a >= b)),
        BinOpKind::Pow | BinOpKind::Atan2 => Err(FormulaError::NotAnInteger),
    }
}

/// The remainder of the division that rounds towards zero, case by case.
proof fn lemma_trunc_rem(a: int, b: int)
    requires
        b != 0,
    ensures
        trunc_rem(a, b) == if a == 0 {
            0
        } else if a > 0 && b > 0 {
            a % b
        } else if a < 0 && b < 0 {
            -((-a) % (-b))
        } else if a < 0 {
            -((-a) % b)
        } else {
            a % (-b)
        },
{
    if a >= 0 && b > 0 {
        vstd::arithmetic::div_mod::lemma_fundamental_div_mod(a, b);
    } else if a < 0 && b < 0 {
        vstd::arithmetic::div_mod::lemma_fundamental_div_mod(-a, -b);
        assert(b * ((-a) / (-b)) == -((-b) * ((-a) / (-b)))) by (nonlinear_arith);
    } else if a < 0 {
        vstd::arithmetic::div_mod::lemma_fundamental_div_mod(-a, b);
        assert(b * (-((-a) / b)) == -(b * ((-a) / b))) by (nonlinear_arith);
    } else {
        vstd::arithmetic::div_mod::lemma_fundamental_div_mod(a, -b);
        assert(b * (-(a / (-b))) == (-b) * (a / (-b))) by (nonlinear_arith);
    }
}

impl Expr {
    /// Evaluates the expression where `env` binds its variables.
    pub fn eval(&self, env: &VarEnv) -> (r: Result<i64, FormulaError>)
        ensures
            r == spec_eval(self@, env@),
        decreases self,
    {
        match self {
            Expr::Integer(v) => Ok(*v),
            Expr::Float(_) => Err(FormulaError::NotAnInteger),
            Expr::Constant(_) => Err(FormulaError::NotAnInteger),
            Expr::Ident(name) => match env.lookup(name.as_str()) {
                Some(v) => Ok(v),
                None => Err(FormulaError::UnboundVariable),
            },
            Expr::UnOp(kind, a) => {
                assert(self@ == ExprView::UnOp(*kind, Box::new(a@)));
                let a = a.eval(env)?;
                un_op(*kind, a)
            },
            Expr::BinOp(kind, l, r) => {
                assert(self@ == ExprView::BinOp(*kind, Box::new(l@), Box::new(r@)));
                let a = l.eval(env)?;
                if *kind == BinOpKind::And && a == 0 {
                    Ok(0)
                } else if *kind == BinOpKind::Or && a != 0 {
                    Ok(1)
                } else {
                    let b = r.eval(env)?;
                    bin_op(*kind, a, b)
                }
            },
            Expr::If(c, t, o) => {
                assert(self@ == ExprView::If(Box::new(c@), Box::new(t@), Box::new(o@)));
                let c = c.eval(env)?;
                if c != 0 {
                    t.eval(env)
                } else {
                    o.eval(env)
                }
            },
        }
    }
}

/// Evaluation is pure: the value of an expression is a function of the
/// expression and of what the environment binds its variables to. Two
/// environments that bind every variable alike give the same value.
pub proof fn lemma_eval_depends_on_bindings(
    e: ExprView,
    env1: Seq<(Seq<char>, i64)>,
    env2: Seq<(Seq<char>, i64)>,
)
    requires
        forall|name: Seq<char>| spec_lookup(env1, name) == spec_lookup(env2, name),
    ensures
        spec_eval(e, env1) == spec_eval(e, env2),
    decreases e,
{
    match e {
        ExprView::UnOp(_, a) => {
            lemma_eval_depends_on_bindings(*a, env1, env2);
        },
        ExprView::BinOp(_, l, r) => {
            lemma_eval_depends_on_bindings(*l, env1, env2);
            lemma_eval_depends_on_bindings(*r, env1, env2);
        },
        ExprView::If(c, t, o) => {
            lemma_eval_depends_on_bindings(*c, env1, env2);
            lemma_eval_depends_on_bindings(*t, env1, env2);
            lemma_eval_depends_on_bindings(*o, env1, env2);
        },
        _ => {},
    }
}

} // verus!
