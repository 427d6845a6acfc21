use vstd::prelude::*;
use std::cmp::Ordering;
use vstd::std_specs::cmp::PartialEqSpecImpl;
use crate::floats::{float_eq, float_eq_spec, float_lt, float_lt_spec};
use crate::list::{Cons, cons};

verus! {

/// Index of a symbol table inside an environment.
pub type EnvId = usize;

/// The three quoting characters of the language.
#[derive(PartialEq, Eq, Structural, Clone, Copy, Debug)]
pub enum QuoteType {
    BackQuote,
    Comma,
    Q,
}

/// A token of the source text. A float literal is held by its IEEE-754 bit pattern.
#[derive(Debug)]
pub enum Lexeme {
    OpenParen,
    CloseParen,
    Str(String),
    Sym(String),
    Int(i64),
    Float(u64),
    Quote(QuoteType),
}

/// A Lisp expression. A float is held by its IEEE-754 bit pattern.
#[derive(Debug)]
pub enum Sexps {
    Str(String),
    Int(i64),
    Float(u64),
    Error(String),
    Bool(bool),
    Var(String),
    Lambda(EnvId, String),
    Quote(QuoteType),
    Sub(Box<Cons<Sexps>>),
}

/// Whether two tokens are equal: of the same kind, with equal contents, float literals
/// compared as floats.
pub open spec fn lexeme_eq_spec(a: Lexeme, b: Lexeme) -> bool {
    match (a, b) {
        (Lexeme::OpenParen, Lexeme::OpenParen) => true,
        (Lexeme::CloseParen, Lexeme::CloseParen) => true,
        (Lexeme::Str(x), Lexeme::Str(y)) => x@ == y@,
        (Lexeme::Sym(x), Lexeme::Sym(y)) => x@ == y@,
        (Lexeme::Int(x), Lexeme::Int(y)) => x == y,
        (Lexeme::Float(x), Lexeme::Float(y)) => float_eq_spec(x, y),
        (Lexeme::Quote(x), Lexeme::Quote(y)) => x == y,
        _ => false,
    }
}

impl PartialEq for Lexeme {
    fn eq(&self, other: &Lexeme) -> (r: bool) {
        match (self, other) {
            (Lexeme::OpenParen, Lexeme::OpenParen) => true,
            (Lexeme::CloseParen, Lexeme::CloseParen) => true,
            (Lexeme::Str(x), Lexeme::Str(y)) => *x == *y,
            (Lexeme::Sym(x), Lexeme::Sym(y)) => *x == *y,
            (Lexeme::Int(x), Lexeme::Int(y)) => *x == *y,
            (Lexeme::Float(x), Lexeme::Float(y)) => float_eq(*x, *y),
            (Lexeme::Quote(x), Lexeme::Quote(y)) => *x == *y,
            _ => false,
        }
    }
}

impl PartialEqSpecImpl for Lexeme {
    open spec fn obeys_eq_spec() -> bool {
        true
    }

    open spec fn eq_spec(&self, other: &Lexeme) -> bool {
        lexeme_eq_spec(*self, *other)
    }
}

/// The mathematical value of an expression: strings as character sequences,
/// a sub-expression as the sequence of its elements.
pub enum Expr {
    Str(Seq<char>),
    Int(i64),
    Float(u64),
    Error(Seq<char>),
    Bool(bool),
    Var(Seq<char>),
    Lambda(EnvId, Seq<char>),
    Quote(QuoteType),
    Sub(Seq<Expr>),
}

pub open spec fn sexps_view(e: Sexps) -> Expr
    decreases e,
{
    match e {
        Sexps::Str(s) => Expr::Str(s@),
        Sexps::Int(n) => Expr::Int(n),
        Sexps::Float(b) => Expr::Float(b),
        Sexps::Error(s) => Expr::Error(s@),
        Sexps::Bool(b) => Expr::Bool(b),
        Sexps::Var(s) => Expr::Var(s@),
        Sexps::Lambda(id, s) => Expr::Lambda(id, s@),
        Sexps::Quote(q) => Expr::Quote(q),
        Sexps::Sub(b) => Expr::Sub(list_view(*b)),
    }
}

pub open spec fn list_view(c: Cons<Sexps>) -> Seq<Expr>
    decreases c,
{
    match c {
        Cons::Cons(x, rest) => seq![sexps_view(x)].add(list_view(*rest)),
        Cons::Nil => Seq::empty(),
    }
}

impl View for Sexps {
    type V = Expr;

    open spec fn view(&self) -> Expr {
        sexps_view(*self)
    }
}

/// A field-by-field copy of an expression.
pub fn copy_sexps(e: &Sexps) -> (r: Sexps)
    ensures
        r == *e,
    decreases *e,
{
    match e {
        Sexps::Str(s) => Sexps::Str(s.clone()),
        Sexps::Int(n) => Sexps::Int(*n),
        Sexps::Float(b) => Sexps::Float(*b),
        Sexps::Error(s) => Sexps::Error(s.clone()),
        Sexps::Bool(b) => Sexps::Bool(*b),
        Sexps::Var(s) => Sexps::Var(s.clone()),
        Sexps::Lambda(id, s) => Sexps::Lambda(*id, s.clone()),
        Sexps::Quote(q) => Sexps::Quote(*q),
        Sexps::Sub(b) => Sexps::Sub(Box::new(copy_list(&**b))),
    }
}

/// A copy of a list of expressions.
pub fn copy_list(c: &Cons<Sexps>) -> (r: Cons<Sexps>)
    ensures
        r == *c,
    decreases *c,
{
    match c {
        Cons::Cons(x, rest) => Cons::Cons(copy_sexps(x), Box::new(copy_list(&**rest))),
        Cons::Nil => Cons::Nil,
    }
}

impl Clone for Sexps {
    fn clone(&self) -> (r: Self)
        ensures
            r == *self,
    {
        copy_sexps(self)
    }
}

/// Why a parse failed.
#[derive(Debug, PartialEq, Eq, Structural, Clone, Copy)]
pub enum ParseFail {
    NoStartParen,
    NoEndParen,
    ExtraCloseParen,
    ChildParseFail,
    BadLexeme,
}

/// The outcome of parsing: an expression, or the failure and its position.
pub type ParseResult = Result<Sexps, (ParseFail, usize)>;

/// The quote kind that a character stands for, if any.
pub open spec fn quote_of(c: char) -> Option<QuoteType> {
    if c == '`' {
        Some(QuoteType::BackQuote)
    } else if c == '\'' {
        Some(QuoteType::Q)
    } else if c == ',' {
        Some(QuoteType::Comma)
    } else {
        None
    }
}

/// The character that writes a quote kind.
pub open spec fn quote_char(q: QuoteType) -> char {
    match q {
        QuoteType::BackQuote => '`',
        QuoteType::Q => '\'',
        QuoteType::Comma => ',',
    }
}

/// The quote kind that `c` writes: backquote, quote or comma.
pub fn char_to_quote(c: char) -> (r: Option<QuoteType>)
    ensures
        r == quote_of(c),
{
    match c {
        '`' => Some(QuoteType::BackQuote),
        '\'' => Some(QuoteType::Q),
        ',' => Some(QuoteType::Comma),
        _ => None,
    }
}

/// The one-character text of a quote kind.
pub fn quote_to_str(q: QuoteType) -> (r: String)
    ensures
        r@ == seq![quote_char(q)],
{
    let s = match q {
        QuoteType::BackQuote => "`",
        QuoteType::Q => "'",
        QuoteType::Comma => ",",
    };
    proof {
        reveal_strlit("`");
        reveal_strlit("'");
        reveal_strlit(",");
    }
    s.to_string()
}

/// A number for each variant of `Sexps`.
pub open spec fn kind(e: Sexps) -> int {
    match e {
        Sexps::Str(..) => 0,
        Sexps::Int(..) => 1,
        Sexps::Float(..) => 2,
        Sexps::Error(..) => 3,
        Sexps::Bool(..) => 4,
        Sexps::Var(..) => 5,
        Sexps::Lambda(..) => 6,
        Sexps::Quote(..) => 7,
        Sexps::Sub(..) => 8,
    }
}

/// Whether two expressions are of the same variant, whatever they hold.
pub fn same_type(exp1: &Sexps, exp2: &Sexps) -> (r: bool)
    ensures
        r == (kind(*exp1) == kind(*exp2)),
{
    match (exp1, exp2) {
        (Sexps::Str(..), Sexps::Str(..)) => true,
        (Sexps::Int(..), Sexps::Int(..)) => true,
        (Sexps::Float(..), Sexps::Float(..)) => true,
        (Sexps::Var(..), Sexps::Var(..)) => true,
        (Sexps::Error(..), Sexps::Error(..)) => true,
        (Sexps::Sub(..), Sexps::Sub(..)) => true,
        (Sexps::Lambda(..), Sexps::Lambda(..)) => true,
        (Sexps::Bool(..), Sexps::Bool(..)) => true,
        (Sexps::Quote(..), Sexps::Quote(..)) => true,
        _ => false,
    }
}

/// The elements of a sub-expression; empty for any other expression.
pub open spec fn sub_elems(e: Sexps) -> Seq<Sexps> {
    match e {
        Sexps::Sub(b) => b.elems(),
        _ => Seq::empty(),
    }
}

/// The elements of a sub-expression, when none of them is itself a sub-expression.
pub fn arg_extractor(exp: &Sexps) -> (r: Option<Vec<Sexps>>)
    ensures
        r is Some <==> (*exp is Sub && forall|i: int|
            0 <= i < sub_elems(*exp).len() ==> !(#[trigger] sub_elems(*exp)[i] is Sub)),
        r matches Some(v) ==> v@ == sub_elems(*exp),
{
    match exp {
        Sexps::Sub(b) => {
            let mut ret: Vec<Sexps> = Vec::new();
            let mut args: &Cons<Sexps> = &**b;
            let ghost all = b.elems();
            loop
                invariant
                    all == b.elems(),
                    all == sub_elems(*exp),
                    all == ret@ + args.elems(),
                    forall|i: int| 0 <= i < ret@.len() ==> !(#[trigger] ret@[i] is Sub),
                ensures
                    ret@ == all,
                decreases args.elems().len(),
            {
                match args {
                    Cons::Cons(arg, rest) => {
                        if let Sexps::Sub(_) = arg {
                            assert(args.elems()[0] == *arg);
                            assert(all[ret@.len() as int] == *arg);
                            assert(sub_elems(*exp) == all);
                            assert(sub_elems(*exp)[ret@.len() as int] is Sub);
                            return None;
                        }
                        ret.push(copy_sexps(arg));
                        assert(all == ret@ + rest.elems());
                        args = &**rest;
                    },
                    Cons::Nil => {
                        break ;
                    },
                }
            }
            Some(ret)
        },
        _ => None,
    }
}

/// The string held at `index`, if the argument there is a string.
pub fn arg_extract_str(args: &Vec<Sexps>, index: usize) -> (r: Option<String>)
    requires
        index < args.len(),
    ensures
        r == (match args[index as int] {
            Sexps::Str(s) => Some(s),
            _ => None,
        }),
{
    if let Sexps::Str(s) = &args[index] {
        Some(s.clone())
    } else {
        None
    }
}

/// The integer held at `index`, if the argument there is an integer.
pub fn arg_extract_int(args: &Vec<Sexps>, index: usize) -> (r: Option<i64>)
    requires
        index < args.len(),
    ensures
        r == (match args[index as int] {
            Sexps::Int(n) => Some(n),
            _ => None,
        }),
{
    if let Sexps::Int(n) = &args[index] {
        Some(*n)
    } else {
        None
    }
}

/// The boolean held at `index`, if the argument there is a boolean.
pub fn arg_extract_bool(args: &Vec<Sexps>, index: usize) -> (r: Option<bool>)
    requires
        index < args.len(),
    ensures
        r == (match args[index as int] {
            Sexps::Bool(b) => Some(b),
            _ => None,
        }),
{
    if let Sexps::Bool(b) = &args[index] {
        Some(*b)
    } else {
        None
    }
}

/// Whether two strings hold the same characters.
pub(crate) fn str_eq(a: &str, b: &str) -> (r: bool)
    ensures
        r == (a@ == b@),
{
    a.to_string() == b.to_string()
}

/// The sub-expression made of the list `c`.
pub fn cons_to_sexps(c: Cons<Sexps>) -> (r: Sexps)
    ensures
        r == Sexps::Sub(Box::new(c)),
{
    Sexps::Sub(Box::new(c))
}

/// An error expression carrying the message `s`.
pub fn err(s: &str) -> (r: Sexps)
    ensures
        r@ == Expr::Error(s@),
{
    Sexps::Error(s.to_string())
}

/// Whether two expressions are equal as values: strings, integers and booleans by value,
/// two floats as floats, any other pair unequal. `None` when a float is compared with an
/// integer, which takes converting the integer to a float.
pub open spec fn value_eq_spec(a: Expr, b: Expr) -> Option<bool> {
    match (a, b) {
        (Expr::Str(x), Expr::Str(y)) => Some(x == y),
        (Expr::Int(x), Expr::Int(y)) => Some(x == y),
        (Expr::Float(x), Expr::Float(y)) => Some(float_eq_spec(x, y)),
        (Expr::Float(_), Expr::Int(_)) => None,
        (Expr::Int(_), Expr::Float(_)) => None,
        (Expr::Bool(x), Expr::Bool(y)) => Some(x == y),
        _ => Some(false),
    }
}

/// Equality of two expressions as values, decided except between a float and an integer.
pub fn value_eq(a: &Sexps, b: &Sexps) -> (r: Option<bool>)
    ensures
        r == value_eq_spec(a@, b@),
{
    match (a, b) {
        (Sexps::Str(x), Sexps::Str(y)) => Some(*x == *y),
        (Sexps::Int(x), Sexps::Int(y)) => Some(*x == *y),
        (Sexps::Float(x), Sexps::Float(y)) => Some(float_eq(*x, *y)),
        (Sexps::Float(_), Sexps::Int(_)) => None,
        (Sexps::Int(_), Sexps::Float(_)) => None,
        (Sexps::Bool(x), Sexps::Bool(y)) => Some(*x == *y),
        _ => Some(false),
    }
}

/// The order of two values as `value_partial_cmp` gives it.
pub open spec fn value_cmp_spec(a: Expr, b: Expr) -> Option<Option<Ordering>> {
    match (a, b) {
        (Expr::Int(x), Expr::Int(y)) => Some(
            if x < y {
                Some(Ordering::Less)
            } else if x > y {
                Some(Ordering::Greater)
            } else {
                None
            },
        ),
        (Expr::Float(x), Expr::Float(y)) => Some(
            if float_lt_spec(y, x) {
                Some(Ordering::Greater)
            } else if float_lt_spec(x, y) {
                Some(Ordering::Less)
            } else {
                None
            },
        ),
        (Expr::Float(_), Expr::Int(_)) => None,
        (Expr::Int(_), Expr::Float(_)) => None,
        _ => Some(None),
    }
}

/// The order of two expressions as values: two integers, or two floats, are `Less` or
/// `Greater` when one is below the other and unordered otherwise, and any pair but numbers
/// is unordered. `None` when a float is compared with an integer, which takes converting
/// the integer to a float.
pub fn value_partial_cmp(a: &Sexps, b: &Sexps) -> (r: Option<Option<Ordering>>)
    ensures
        r == value_cmp_spec(a@, b@),
{
    match (a, b) {
        (Sexps::Int(x), Sexps::Int(y)) => Some(
            if *x < *y {
                Some(Ordering::Less)
            } else if *x > *y {
                Some(Ordering::Greater)
            } else {
                None
            },
        ),
        (Sexps::Float(x), Sexps::Float(y)) => Some(
            if float_lt(*y, *x) {
                Some(Ordering::Greater)
            } else if float_lt(*x, *y) {
                Some(Ordering::Less)
            } else {
                None
            },
        ),
        (Sexps::Float(_), Sexps::Int(_)) => None,
        (Sexps::Int(_), Sexps::Float(_)) => None,
        _ => Some(None),
    }
}

} // verus!
