//! The tokens of the formula language.

use vstd::prelude::*;
use vstd::string::*;

use crate::parser::utils::{convert_to_int, has_hex_prefix, is_ascii_chars_of, spec_int_of_text};

verus! {

/// An operator or a punctuation mark.
#[derive(Clone, Copy, Debug, PartialEq, Eq, Structural)]
pub enum Symbol {
    Plus,
    Minus,
    Star,
    Slash,
    Percent,
    StarStar,
    Shl,
    Shr,
    Amp,
    Pipe,
    Caret,
    AmpAmp,
    PipePipe,
    EqEq,
    NotEq,
    Lt,
    Le,
    Gt,
    Ge,
    Bang,
    Tilde,
    Question,
    Colon,
    LParen,
    RParen,
    Comma,
}

/// A token.
#[derive(Debug)]
pub enum Token {
    Int(i64),
    /// A floating-point literal, as it is written.
    Float(String),
    /// A name: a variable, a constant or a function.
    Ident(String),
    Sym(Symbol),
}

/// A `Token` as a plain value.
pub enum TokenView {
    Int(i64),
    Float(Seq<char>),
    Ident(Seq<char>),
    Sym(Symbol),
}

impl View for Token {
    type V = TokenView;

    open spec fn view(&self) -> TokenView {
        match self {
            Token::Int(v) => TokenView::Int(*v),
            Token::Float(t) => TokenView::Float(t@),
            Token::Ident(n) => TokenView::Ident(n@),
            Token::Sym(s) => TokenView::Sym(*s),
        }
    }
}

/// The tokens `tokens` as plain values.
pub open spec fn token_views(tokens: Seq<Token>) -> Seq<TokenView> {
    Seq::new(tokens.len(), |i: int| tokens[i]@)
}

/// A class of characters.
#[derive(Clone, Copy, Debug, PartialEq, Eq, Structural)]
pub enum CharClass {
    /// `0` to `9`
    Digit,
    /// `0` to `9`, `a` to `f` and `A` to `F`
    HexDigit,
    /// Letters, digits and `_`
    Ident,
}

/// Whether `c` is a blank.
pub open spec fn is_space(c: char) -> bool {
    c == ' ' || c == '\t' || c == '\n' || c == '\r'
}

/// Whether `c` is a letter or `_`.
pub open spec fn is_ident_start(c: char) -> bool {
    'a' <= c <= 'z' || 'A' <= c <= 'Z' || c == '_'
}

/// Whether `c` belongs to `class`.
pub open spec fn in_class(class: CharClass, c: char) -> bool {
    match class {
        CharClass::Digit => '0' <= c <= '9',
        CharClass::HexDigit => '0' <= c <= '9' || 'a' <= c <= 'f' || 'A' <= c <= 'F',
        CharClass::Ident => is_ident_start(c) || '0' <= c <= '9',
    }
}

/// The number of characters at the front of `s` that belong to `class`.
pub open spec fn run_of(s: Seq<char>, class: CharClass) -> nat
    decreases s.len(),
{
    if s.len() > 0 && in_class(class, s[0]) {
        1 + run_of(s.skip(1), class)
    } else {
        0
    }
}

/// The index behind the exponent that starts at `at`, or `at` where none
/// starts there: `e` or `E`, a sign that may be left out, and digits.
pub open spec fn after_exponent(s: Seq<char>, at: nat) -> nat {
    if at < s.len() && (s[at as int] == 'e' || s[at as int] == 'E') {
        let sign = if at + 1 < s.len() && (s[at as int + 1] == '+' || s[at as int + 1] == '-') {
            at + 2
        } else {
            at + 1
        };
        let digits = run_of(s.skip(sign as int), CharClass::Digit);
        if digits > 0 {
            sign + digits
        } else {
            at
        }
    } else {
        at
    }
}

/// The index behind the fraction that starts at `at`, or `at` where none
/// starts there: a point and digits.
pub open spec fn after_fraction(s: Seq<char>, at: nat) -> nat {
    if at < s.len() && s[at as int] == '.' {
        at + 1 + run_of(s.skip(at as int + 1), CharClass::Digit)
    } else {
        at
    }
}

/// The length of the number at the front of `s`: hexadecimal digits behind
/// `0x` or `0X`, or decimal digits with a fraction and an exponent, each of
/// which may be left out.
pub open spec fn number_len(s: Seq<char>) -> nat {
    if has_hex_prefix(s) {
        2 + run_of(s.skip(2), CharClass::HexDigit)
    } else {
        after_exponent(s, after_fraction(s, run_of(s, CharClass::Digit)))
    }
}

/// The token that the number at the front of `s` is: an integer where it is
/// written without fraction and exponent, if 64 bits hold it; a
/// floating-point literal otherwise.
pub open spec fn number_token(s: Seq<char>) -> Option<TokenView> {
    let lexeme = s.take(number_len(s) as int);
    if has_hex_prefix(s) || number_len(s) == run_of(s, CharClass::Digit) {
        match spec_int_of_text(lexeme) {
            Some(v) => Some(TokenView::Int(v)),
            None => None,
        }
    } else {
        Some(TokenView::Float(lexeme))
    }
}

/// The symbol at the front of `s` and its length; the longest one wins.
pub open spec fn symbol_at(s: Seq<char>) -> Option<(Symbol, nat)> {
    if s.len() == 0 {
        None
    } else {
        let c = s[0];
        let d = if s.len() > 1 {
            Some(s[1])
        } else {
            None
        };
        if c == '*' && d == Some('*') {
            Some((Symbol::StarStar, 2))
        } else if c == '<' && d == Some('<') {
            Some((Symbol::Shl, 2))
        } else if c == '>' && d == Some('>') {
            Some((Symbol::Shr, 2))
        } else if c == '<' && d == Some('=') {
            Some((Symbol::Le, 2))
        } else if c == '>' && d == Some('=') {
            Some((Symbol::Ge, 2))
        } else if c == '=' && d == Some('=') {
            Some((Symbol::EqEq, 2))
        } else if c == '!' && d == Some('=') {
            Some((Symbol::NotEq, 2))
        } else if c == '&' && d == Some('&') {
            Some((Symbol::AmpAmp, 2))
        } else if c == '|' && d == Some('|') {
            Some((Symbol::PipePipe, 2))
        } else if c == '+' {
            Some((Symbol::Plus, 1))
        } else if c == '-' {
            Some((Symbol::Minus, 1))
        } else if c == '*' {
            Some((Symbol::Star, 1))
        } else if c == '/' {
            Some((Symbol::Slash, 1))
        } else if c == '%' {
            Some((Symbol::Percent, 1))
        } else if c == '&' {
            Some((Symbol::Amp, 1))
        } else if c == '|' {
            Some((Symbol::Pipe, 1))
        } else if c == '^' {
            Some((Symbol::Caret, 1))
        } else if c == '<' {
            Some((Symbol::Lt, 1))
        } else if c == '>' {
            Some((Symbol::Gt, 1))
        } else if c == '!' {
            Some((Symbol::Bang, 1))
        } else if c == '~' {
            Some((Symbol::Tilde, 1))
        } else if c == '?' {
            Some((Symbol::Question, 1))
        } else if c == ':' {
            Some((Symbol::Colon, 1))
        } else if c == '(' {
            Some((Symbol::LParen, 1))
        } else if c == ')' {
            Some((Symbol::RParen, 1))
        } else if c == ',' {
            Some((Symbol::Comma, 1))
        } else {
            None
        }
    }
}

/// The token at the front of `s`, which starts with no blank, and its
/// length. `None` where no token starts there.
pub open spec fn token_at(s: Seq<char>) -> Option<(TokenView, nat)> {
    if s.len() == 0 {
        None
    } else if in_class(CharClass::Digit, s[0]) {
        match number_token(s) {
            Some(t) => Some((t, number_len(s))),
            None => None,
        }
    } else if is_ident_start(s[0]) {
        Some((TokenView::Ident(s.take(run_of(s, CharClass::Ident) as int)), run_of(s, CharClass::Ident)))
    } else {
        match symbol_at(s) {
            Some((sym, n)) => Some((TokenView::Sym(sym), n)),
            None => None,
        }
    }
}

/// The tokens of the text `s`: blanks separate tokens and are dropped.
/// `None` where a part of the text is no token.
pub open spec fn spec_tokens(s: Seq<char>) -> Option<Seq<TokenView>>
    decreases s.len(),
{
    if s.len() == 0 {
        Some(Seq::empty())
    } else if is_space(s[0]) {
        spec_tokens(s.skip(1))
    } else {
        match token_at(s) {
            Some((t, n)) => if 0 < n <= s.len() {
                match spec_tokens(s.skip(n as int)) {
                    Some(rest) => Some(seq![t] + rest),
                    None => None,
                }
            } else {
                None
            },
            None => None,
        }
    }
}

/// A run of characters of a class ends within the text.
pub proof fn lemma_run_of_bound(s: Seq<char>, class: CharClass)
    ensures
        run_of(s, class) <= s.len(),
        forall|k: int| 0 <= k < run_of(s, class) ==> in_class(class, #[trigger] s[k]),
        run_of(s, class) < s.len() ==> !in_class(class, s[run_of(s, class) as int]),
    decreases s.len(),
{
    if s.len() > 0 && in_class(class, s[0]) {
        lemma_run_of_bound(s.skip(1), class);
        assert forall|k: int| 0 <= k < run_of(s, class) implies in_class(
            class,
            #[trigger] s[k],
        ) by {
            if k > 0 {
                assert(s.skip(1)[k - 1] == s[k]);
            }
        }
        if run_of(s, class) < s.len() {
            assert(s.skip(1)[run_of(s.skip(1), class) as int] == s[run_of(s, class) as int]);
        }
    }
}

/// A run is determined by where the first character outside the class
/// stands.
pub proof fn lemma_run_of_is(s: Seq<char>, class: CharClass, n: nat)
    requires
        n <= s.len(),
        forall|k: int| 0 <= k < n ==> in_class(class, #[trigger] s[k]),
        n < s.len() ==> !in_class(class, s[n as int]),
    ensures
        run_of(s, class) == n,
    decreases s.len(),
{
    if n > 0 {
        assert(in_class(class, s[0]));
        assert forall|k: int| 0 <= k < n - 1 implies in_class(class, #[trigger] s.skip(1)[k]) by {
            assert(s.skip(1)[k] == s[k + 1]);
        }
        if n - 1 < s.skip(1).len() {
            assert(s.skip(1)[n - 1] == s[n as int]);
        }
        lemma_run_of_is(s.skip(1), class, (n - 1) as nat);
    }
}


/// The tokens of the text `s`, which has to be ASCII.
pub open spec fn spec_tokenize(s: Seq<char>) -> Option<Seq<TokenView>> {
    if is_ascii_chars_of(s) {
        spec_tokens(s)
    } else {
        None
    }
}

/// Whether the ASCII character `b` belongs to `class`.
fn byte_in_class(class: CharClass, b: u8) -> (r: bool)
    requires
        b < 128,
    ensures
        r == in_class(class, b as char),
{
    let digit = 48 <= b && b <= 57;
    let letter = (97 <= b && b <= 122) || (65 <= b && b <= 90) || b == 95;
    match class {
        CharClass::Digit => digit,
        CharClass::HexDigit => digit || (97 <= b && b <= 102) || (65 <= b && b <= 70),
        CharClass::Ident => letter || digit,
    }
}

/// The index behind the run of characters of `class` that starts at `from`.
fn scan(s: &str, from: usize, class: CharClass) -> (to: usize)
    requires
        s.is_ascii(),
        from <= s@.len(),
    ensures
        from <= to <= s@.len(),
        to - from == run_of(s@.skip(from as int), class),
{
    let n = s.unicode_len();
    let mut to = from;
    let mut inside = true;
    while inside && to < n
        invariant
            from <= to <= n,
            n == s@.len(),
            s.is_ascii(),
            forall|k: int| from <= k < to ==> in_class(class, #[trigger] s@[k]),
            !inside ==> to < n && !in_class(class, s@[to as int]),
        decreases n - to + if inside {
            1int
        } else {
            0int
        },
    {
        let b = s.get_ascii(to);
        assert(b as char == s@[to as int]);
        if byte_in_class(class, b) {
            to += 1;
        } else {
            inside = false;
        }
    }
    proof {
        let tail = s@.skip(from as int);
        if to < n {
            assert(tail[to - from] == s@[to as int]);
        }
        assert forall|k: int| 0 <= k < to - from implies in_class(class, #[trigger] tail[k]) by {
            assert(tail[k] == s@[from + k]);
        }
        lemma_run_of_is(tail, class, (to - from) as nat);
    }
    to
}

/// Whether the character of `s` at `at` is `c`.
fn char_is(s: &str, at: usize, c: u8) -> (r: bool)
    requires
        s.is_ascii(),
        c < 128,
    ensures
        r == (at < s@.len() && s@[at as int] == c as char),
{
    if at < s.unicode_len() {
        let b = s.get_ascii(at);
        assert(b as char == s@[at as int]);
        b == c
    } else {
        false
    }
}

/// The index behind the number that starts at `from`, and whether the
/// number is written as an integer.
fn number_end(s: &str, from: usize) -> (r: (usize, bool))
    requires
        s.is_ascii(),
        from <= s@.len(),
    ensures
        from <= r.0 <= s@.len(),
        r.0 - from == number_len(s@.skip(from as int)),
        r.1 == (has_hex_prefix(s@.skip(from as int)) || number_len(s@.skip(from as int))
            == run_of(s@.skip(from as int), CharClass::Digit)),
{
    let ghost tail = s@.skip(from as int);
    let n = s.unicode_len();
    proof {
        if from + 1 < n {
            assert(tail[0] == s@[from as int]);
            assert(tail[1] == s@[from + 1]);
        }
    }
    if n - from >= 2 && char_is(s, from, 48) && (char_is(s, from + 1, 120) || char_is(
        s,
        from + 1,
        88,
    )) {
        assert(tail.skip(2) =~= s@.skip(from + 2));
        return (scan(s, from + 2, CharClass::HexDigit), true);
    }
    let digits = scan(s, from, CharClass::Digit);
    let ghost d = (digits - from) as nat;
    let fraction = if char_is(s, digits, 46) {
        assert(tail.skip(d as int + 1) =~= s@.skip(digits + 1));
        scan(s, digits + 1, CharClass::Digit)
    } else {
        digits
    };
    proof {
        if digits < n {
            assert(tail[d as int] == s@[digits as int]);
        }
        assert(fraction - from == after_fraction(tail, d));
    }
    let ghost f = (fraction - from) as nat;
    let end = if char_is(s, fraction, 101) || char_is(s, fraction, 69) {
        let sign = if char_is(s, fraction + 1, 43) || char_is(s, fraction + 1, 45) {
            fraction + 2
        } else {
            fraction + 1
        };
        proof {
            if fraction + 1 < n {
                assert(tail[f as int + 1] == s@[fraction + 1]);
            }
            assert(tail.skip(sign - from) =~= s@.skip(sign as int));
        }
        let exponent = scan(s, sign, CharClass::Digit);
        if exponent > sign {
            exponent
        } else {
            fraction
        }
    } else {
        fraction
    };
    proof {
        if fraction < n {
            assert(tail[f as int] == s@[fraction as int]);
        }
        assert(end - from == after_exponent(tail, f));
    }
    (end, end == digits)
}

/// The symbol that starts at `from`, and its length.
fn symbol_of(s: &str, from: usize) -> (r: Option<(Symbol, usize)>)
    requires
        s.is_ascii(),
        from <= s@.len(),
    ensures
        match r {
            Some((sym, n)) => symbol_at(s@.skip(from as int)) == Some((sym, n as nat)) && from + n
                <= s@.len(),
            None => symbol_at(s@.skip(from as int)) is None,
        },
{
    let n = s.unicode_len();
    if from >= n {
        return None;
    }
    let ghost tail = s@.skip(from as int);
    let c = s.get_ascii(from);
    assert(c as char == s@[from as int]);
    assert(tail[0] == s@[from as int]);
    let d: u8 = if from + 1 < n {
        let d = s.get_ascii(from + 1);
        assert(d as char == s@[from + 1]);
        assert(tail[1] == s@[from + 1]);
        d
    } else {
        0
    };
    if c == 42 && d == 42 {
        Some((Symbol::StarStar, 2))
    } else if c == 60 && d == 60 {
        Some((Symbol::Shl, 2))
    } else if c == 62 && d == 62 {
        Some((Symbol::Shr, 2))
    } else if c == 60 && d == 61 {
        Some((Symbol::Le, 2))
    } else if c == 62 && d == 61 {
        Some((Symbol::Ge, 2))
    } else if c == 61 && d == 61 {
        Some((Symbol::EqEq, 2))
    } else if c == 33 && d == 61 {
        Some((Symbol::NotEq, 2))
    } else if c == 38 && d == 38 {
        Some((Symbol::AmpAmp, 2))
    } else if c == 124 && d == 124 {
        Some((Symbol::PipePipe, 2))
    } else if c == 43 {
        Some((Symbol::Plus, 1))
    } else if c == 45 {
        Some((Symbol::Minus, 1))
    } else if c == 42 {
        Some((Symbol::Star, 1))
    } else if c == 47 {
        Some((Symbol::Slash, 1))
    } else if c == 37 {
        Some((Symbol::Percent, 1))
    } else if c == 38 {
        Some((Symbol::Amp, 1))
    } else if c == 124 {
        Some((Symbol::Pipe, 1))
    } else if c == 94 {
        Some((Symbol::Caret, 1))
    } else if c == 60 {
        Some((Symbol::Lt, 1))
    } else if c == 62 {
        Some((Symbol::Gt, 1))
    } else if c == 33 {
        Some((Symbol::Bang, 1))
    } else if c == 126 {
        Some((Symbol::Tilde, 1))
    } else if c == 63 {
        Some((Symbol::Question, 1))
    } else if c == 58 {
        Some((Symbol::Colon, 1))
    } else if c == 40 {
        Some((Symbol::LParen, 1))
    } else if c == 41 {
        Some((Symbol::RParen, 1))
    } else if c == 44 {
        Some((Symbol::Comma, 1))
    } else {
        None
    }
}

/// The token that starts at `from`, where no blank stands, and the index
/// behind it.
fn token_from(s: &str, from: usize) -> (r: Option<(Token, usize)>)
    requires
        s.is_ascii(),
        from < s@.len(),
    ensures
        match r {
            Some((t, to)) => from <= to <= s@.len() && token_at(s@.skip(from as int)) == Some(
                (t@, (to - from) as nat),
            ),
            None => token_at(s@.skip(from as int)) is None,
        },
{
    let ghost tail = s@.skip(from as int);
    let _ = s.unicode_len();
    let b = s.get_ascii(from);
    assert(b as char == s@[from as int]);
    assert(tail[0] == s@[from as int]);
    if byte_in_class(CharClass::Digit, b) {
        let (to, is_int) = number_end(s, from);
        let lexeme = s.substring_ascii(from, to);
        assert(lexeme@ =~= tail.take(to - from));
        if is_int {
            match convert_to_int(lexeme) {
                Some(v) => Some((Token::Int(v), to)),
                None => None,
            }
        } else {
            Some((Token::Float(lexeme.to_owned()), to))
        }
    } else if (97 <= b && b <= 122) || (65 <= b && b <= 90) || b == 95 {
        let to = scan(s, from, CharClass::Ident);
        let lexeme = s.substring_ascii(from, to);
        assert(lexeme@ =~= tail.take(to - from));
        Some((Token::Ident(lexeme.to_owned()), to))
    } else {
        match symbol_of(s, from) {
            Some((sym, n)) => Some((Token::Sym(sym), from + n)),
            None => None,
        }
    }
}

/// Splits the text `s` into its tokens.
pub fn tokenize(s: &str) -> (r: Option<Vec<Token>>)
    ensures
        match r {
            Some(tokens) => spec_tokenize(s@) == Some(token_views(tokens@)),
            None => spec_tokenize(s@) is None,
        },
{
    if !s.is_ascii() {
        return None;
    }
    let n = s.unicode_len();
    let mut tokens: Vec<Token> = Vec::new();
    let mut i: usize = 0;
    proof {
        assert(s@.skip(0) =~= s@);
        assert(token_views(tokens@) =~= Seq::<TokenView>::empty());
        if spec_tokens(s@) is Some {
            assert(token_views(tokens@) + spec_tokens(s@).unwrap() =~= spec_tokens(s@).unwrap());
        }
    }
    while i < n
        invariant
            i <= n,
            n == s@.len(),
            s.is_ascii(),
            spec_tokens(s@) == match spec_tokens(s@.skip(i as int)) {
                Some(rest) => Some(token_views(tokens@) + rest),
                None => None,
            },
        decreases n - i,
    {
        let ghost tail = s@.skip(i as int);
        let ghost before = token_views(tokens@);
        let b = s.get_ascii(i);
        assert(b as char == s@[i as int]);
        assert(tail[0] == s@[i as int]);
        if b == 32 || b == 9 || b == 10 || b == 13 {
            assert(tail.skip(1) =~= s@.skip(i + 1));
            i += 1;
        } else {
            match token_from(s, i) {
                Some((token, to)) => {
                    if to == i {
                        return None;
                    }
                    let ghost view = token@;
                    tokens.push(token);
                    proof {
                        assert(tail.skip(to - i) =~= s@.skip(to as int));
                        assert(token_views(tokens@) =~= before.push(view));
                        if spec_tokens(s@.skip(to as int)) is Some {
                            let rest = spec_tokens(s@.skip(to as int)).unwrap();
                            assert(before + (seq![view] + rest) =~= before.push(view) + rest);
                        }
                    }
                    i = to;
                },
                None => {
                    return None;
                },
            }
        }
    }
    proof {
        assert(s@.skip(n as int) =~= Seq::<char>::empty());
        assert(token_views(tokens@) + Seq::<TokenView>::empty() =~= token_views(tokens@));
    }
    Some(tokens)
}

} // verus!
