use cameleon::formula::lexer::{tokenize, Symbol, Token};
use cameleon::formula::parser::parse;
use cameleon::formula::{bin_op, un_op, BinOpKind, Constant, Expr, FormulaError, UnOpKind, VarEnv};

fn eval_with(text: &str, vars: &[(&str, i64)]) -> Result<i64, FormulaError> {
    let expr = parse(text).unwrap();
    let mut env = VarEnv::new();
    for (name, value) in vars {
        env.bind(name, *value);
    }
    expr.eval(&env)
}

fn eval(text: &str) -> Result<i64, FormulaError> {
    eval_with(text, &[])
}

#[test]
fn integer_swiss_knife_formula() {
    assert_eq!(eval_with("(X + 3) * 2 >> 1", &[("X", 5)]), Ok(8));
    assert_eq!(eval_with("(X + 3) * 2 >> 1", &[("X", 0)]), Ok(3));
    // The shift keeps the sign.
    assert_eq!(eval_with("(X + 3) * 2 >> 1", &[("X", -5)]), Ok(-2));
    assert_eq!(eval("-7 >> 1"), Ok(-4));
    // In the integer dialect a division rounds towards zero.
    assert_eq!(eval_with("X / 2", &[("X", 5)]), Ok(2));
    assert_eq!(eval_with("X / 2", &[("X", -5)]), Ok(-2));
    assert_eq!(eval_with("X % 3", &[("X", -5)]), Ok(-2));
    assert_eq!(eval_with("X % -3", &[("X", 5)]), Ok(2));
}

#[test]
fn evaluation_is_repeatable_and_follows_the_binding() {
    let expr = parse("A * B + (A > B ? A : B)").unwrap();
    let mut env = VarEnv::new();
    env.bind("A", 3);
    env.bind("B", 4);
    let first = expr.eval(&env);
    assert_eq!(first, Ok(16));
    assert_eq!(expr.eval(&env), first);
    // A later binding of a name hides the earlier one.
    env.bind("A", 10);
    assert_eq!(expr.eval(&env), Ok(50));
    assert_eq!(env.lookup("A"), Some(10));
    assert_eq!(env.lookup("B"), Some(4));
    assert_eq!(env.lookup("C"), None);
    // Environments that bind alike evaluate alike, in whatever order they were filled.
    let mut other = VarEnv::new();
    other.bind("B", 4);
    other.bind("A", 10);
    assert_eq!(expr.eval(&other), Ok(50));
}

#[test]
fn operators_bind_as_tight_as_the_grammar_says() {
    assert_eq!(eval("1 + 2 * 3"), Ok(7));
    assert_eq!(eval("(1 + 2) * 3"), Ok(9));
    assert_eq!(eval("10 - 4 - 3"), Ok(3));
    assert_eq!(eval("100 / 10 / 5"), Ok(2));
    assert_eq!(eval("1 << 2 + 1"), Ok(8));
    assert_eq!(eval("1 | 2 & 3"), Ok(3));
    assert_eq!(eval("1 ^ 3 & 2"), Ok(3));
    assert_eq!(eval("6 & 3 == 3"), Ok(0));
    assert_eq!(eval("1 < 2 == 1"), Ok(1));
    assert_eq!(eval("1 || 0 && 0"), Ok(1));
    assert_eq!(eval("0 ? 1 : 0 ? 2 : 3"), Ok(3));
    assert_eq!(eval("1 ? 0 ? 4 : 5 : 6"), Ok(5));
    assert_eq!(eval("- 2 + 3"), Ok(1));
    assert_eq!(eval("!0 + !5"), Ok(1));
    assert_eq!(eval("~0"), Ok(-1));
    assert_eq!(eval("- - 4"), Ok(4));
    assert_eq!(eval("2 - -2"), Ok(4));
    assert_eq!(eval("0x10 + 0XfF"), Ok(271));
    assert_eq!(eval("TRUE + TRUE + FALSE"), Ok(2));
    assert_eq!(eval("ABS(-3) + SGN(-9) + NEG(4) + SGN(0) + SGN(7)"), Ok(-1));
    assert_eq!(eval("TRUNC(3) + FLOOR(4) + CEIL(5) + ROUND(6)"), Ok(18));
    assert_eq!(eval(" \t7\n"), Ok(7));
    assert_eq!(eval("3<=3"), Ok(1));
    assert_eq!(eval("3>=4"), Ok(0));
    assert_eq!(eval("3!=4"), Ok(1));
    assert_eq!(eval("3>4"), Ok(0));
}

#[test]
fn arithmetic_errors() {
    assert_eq!(eval("1 / 0"), Err(FormulaError::ArithmeticError));
    assert_eq!(eval("1 % 0"), Err(FormulaError::ArithmeticError));
    assert_eq!(eval("0x7fffffffffffffff + 1"), Err(FormulaError::ArithmeticError));
    assert_eq!(eval("-0x7fffffffffffffff - 2"), Err(FormulaError::ArithmeticError));
    assert_eq!(eval("0x100000000 * 0x100000000"), Err(FormulaError::ArithmeticError));
    assert_eq!(eval("0x8000000000000000 / -1"), Err(FormulaError::ArithmeticError));
    assert_eq!(eval("0x8000000000000000 % -1"), Ok(0));
    assert_eq!(eval("-0x8000000000000000"), Err(FormulaError::ArithmeticError));
    assert_eq!(eval("ABS(0x8000000000000000)"), Err(FormulaError::ArithmeticError));
    assert_eq!(eval("1 << -1"), Err(FormulaError::ArithmeticError));
    assert_eq!(eval("1 >> -1"), Err(FormulaError::ArithmeticError));
    // A shift by 64 or more yields 0, whatever is shifted.
    assert_eq!(eval("1 << 64"), Ok(0));
    assert_eq!(eval("-1 >> 64"), Ok(0));
    assert_eq!(eval("-1 >> 63"), Ok(-1));
    assert_eq!(eval("1 << 63"), Ok(i64::MIN));
    assert_eq!(eval("3 << 63"), Ok(i64::MIN));
    assert_eq!(eval("X"), Err(FormulaError::UnboundVariable));
    assert_eq!(eval_with("X + Y", &[("X", 1)]), Err(FormulaError::UnboundVariable));
    // The first error from the left is the error of the expression.
    assert_eq!(eval("1 / 0 + Y"), Err(FormulaError::ArithmeticError));
    assert_eq!(eval("Y + 1 / 0"), Err(FormulaError::UnboundVariable));
}

#[test]
fn boolean_operators_short_circuit() {
    assert_eq!(eval("0 && 1 / 0"), Ok(0));
    assert_eq!(eval("1 || 1 / 0"), Ok(1));
    assert_eq!(eval("1 && 1 / 0"), Err(FormulaError::ArithmeticError));
    assert_eq!(eval("0 || 1 / 0"), Err(FormulaError::ArithmeticError));
    assert_eq!(eval("0 && Y"), Ok(0));
    assert_eq!(eval("5 && 7"), Ok(1));
    assert_eq!(eval("0 || 7"), Ok(1));
    assert_eq!(eval("0 || 0"), Ok(0));
    assert_eq!(eval("1 ? 2 : 1 / 0"), Ok(2));
    assert_eq!(eval("0 ? 1 / 0 : 3"), Ok(3));
    assert_eq!(eval("1 / 0 ? 1 : 2"), Err(FormulaError::ArithmeticError));
}

#[test]
fn double_arithmetic_is_reported() {
    for text in [
        "1.5",
        "X / 2.0",
        "PI",
        "E",
        "INF",
        "NAN",
        "SIN(1)",
        "COS(1)",
        "TAN(1)",
        "ASIN(1)",
        "ACOS(1)",
        "ATAN(1)",
        "EXP(1)",
        "LN(1)",
        "LG(1)",
        "SQRT(4)",
        "2 ** 3",
        "POW(2, 3)",
        "ATAN2(1, 2)",
        "1e3",
    ] {
        assert_eq!(
            eval_with(text, &[("X", 5)]),
            Err(FormulaError::NotAnInteger),
            "{}",
            text
        );
    }
}

#[test]
fn texts_that_are_no_formula() {
    for text in [
        "", " ", "1 +", "* 2", "(1", "1)", "1 2", "1 ? 2", "1 ? 2 :", "FOO(1)", "SIN()",
        "SIN(1", "POW(1)", "POW(1,)", "POW(1, 2", "ABS(1, 2)", "1 $ 2", "1 = 2", "\u{e9}",
        "0x", "99999999999999999999", "1 .5", "a.b", "()", "-", "!", "1 +* 2", "@",
    ] {
        assert!(parse(text).is_none(), "{:?}", text);
    }
}

#[test]
fn tokens_of_a_formula() {
    let tokens = tokenize("a1_b<=0x1F**2.5e-3&&!(X>>1)").unwrap();
    let rendered: Vec<String> = tokens.iter().map(|t| format!("{:?}", t)).collect();
    assert_eq!(
        rendered,
        vec![
            "Ident(\"a1_b\")",
            "Sym(Le)",
            "Int(31)",
            "Sym(StarStar)",
            "Float(\"2.5e-3\")",
            "Sym(AmpAmp)",
            "Sym(Bang)",
            "Sym(LParen)",
            "Ident(\"X\")",
            "Sym(Shr)",
            "Int(1)",
            "Sym(RParen)",
        ]
    );
    assert!(matches!(
        tokenize("1.").unwrap().as_slice(),
        [Token::Float(t)] if t == "1."
    ));
    // An `e` without digits behind it is no exponent.
    assert!(matches!(
        tokenize("2e").unwrap().as_slice(),
        [Token::Int(2), Token::Ident(n)] if n == "e"
    ));
    assert!(matches!(
        tokenize("2e+").unwrap().as_slice(),
        [Token::Int(2), Token::Ident(n), Token::Sym(Symbol::Plus)] if n == "e"
    ));
    assert!(matches!(
        tokenize("3E4").unwrap().as_slice(),
        [Token::Float(t)] if t == "3E4"
    ));
    // The longest symbol wins.
    assert!(matches!(
        tokenize("< << <= >").unwrap().as_slice(),
        [
            Token::Sym(Symbol::Lt),
            Token::Sym(Symbol::Shl),
            Token::Sym(Symbol::Le),
            Token::Sym(Symbol::Gt),
        ]
    ));
    assert!(tokenize("<<=").is_none());
    assert!(tokenize("#").is_none());
    assert!(tokenize("0xffffffffffffffff").is_some());
    assert!(tokenize("0x10000000000000000").is_none());
}

#[test]
fn the_tree_of_a_formula() {
    let tree = format!("{:?}", parse("A + B * -C").unwrap());
    assert_eq!(
        tree,
        "BinOp(Add, Ident(\"A\"), BinOp(Mul, Ident(\"B\"), UnOp(Neg, Ident(\"C\"))))"
    );
    let tree = format!("{:?}", parse("2 ** 3 ** 4").unwrap());
    assert_eq!(
        tree,
        "BinOp(Pow, Integer(2), BinOp(Pow, Integer(3), Integer(4)))"
    );
    let tree = format!("{:?}", parse("POW(X, PI)").unwrap());
    assert_eq!(tree, "BinOp(Pow, Ident(\"X\"), Constant(Pi))");
    assert!(matches!(parse("E").unwrap(), Expr::Constant(Constant::E)));
}

#[test]
fn operators_on_numbers() {
    assert_eq!(bin_op(BinOpKind::Div, 7, -2), Ok(-3));
    assert_eq!(bin_op(BinOpKind::Rem, 7, -2), Ok(1));
    assert_eq!(bin_op(BinOpKind::Rem, -7, 2), Ok(-1));
    assert_eq!(bin_op(BinOpKind::Div, i64::MIN, -1), Err(FormulaError::ArithmeticError));
    assert_eq!(bin_op(BinOpKind::Rem, i64::MIN, -1), Ok(0));
    assert_eq!(bin_op(BinOpKind::BitXor, 0b1100, 0b1010), Ok(0b0110));
    assert_eq!(bin_op(BinOpKind::And, 2, 0), Ok(0));
    assert_eq!(bin_op(BinOpKind::Or, 0, -1), Ok(1));
    assert_eq!(bin_op(BinOpKind::Pow, 2, 2), Err(FormulaError::NotAnInteger));
    assert_eq!(un_op(UnOpKind::Neg, i64::MIN), Err(FormulaError::ArithmeticError));
    assert_eq!(un_op(UnOpKind::Neg, i64::MAX), Ok(-i64::MAX));
    assert_eq!(un_op(UnOpKind::Abs, -5), Ok(5));
    assert_eq!(un_op(UnOpKind::Not, 0), Ok(1));
    assert_eq!(un_op(UnOpKind::Not, 9), Ok(0));
    assert_eq!(un_op(UnOpKind::BitNot, 5), Ok(-6));
    assert_eq!(un_op(UnOpKind::Sqrt, 4), Err(FormulaError::NotAnInteger));
}
