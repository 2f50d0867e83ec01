//! The executable term type and its constructors.

use vstd::prelude::*;
use vstd::string::StringExecFns;
use crate::term::{
    app, capped, decimal, digit, lambda, metameme_combinator, quine, render, solfunmeme,
    well_formed, y_combinator, Term, MAX_RESONANCE,
};

verus! {

/// An expression of the calculus.
#[derive(Debug)]
pub enum Expr {
    /// Variable reference.
    Var(String),
    /// Abstraction `λx.body`.
    Lambda(String, Box<Expr>),
    /// Application `f x`.
    App(Box<Expr>, Box<Expr>),
    /// Opaque symbol.
    Sym(String),
    /// S combinator: `S f g x = f x (g x)`.
    S,
    /// K combinator: `K x y = x`.
    K,
    /// I combinator: `I x = x`.
    I,
    /// A named muse with its resonance in thousandths.
    Muse(String, u32),
    /// A quine wrapper.
    Quine(Box<Expr>),
    /// An inert byte payload.
    DNA(Vec<u8>),
}

impl View for Expr {
    type V = Term;

    open spec fn view(&self) -> Term
        decreases self,
    {
        match self {
            Expr::Var(name) => Term::Var(name@),
            Expr::Lambda(parameter, body) => lambda(parameter@, (**body).view()),
            Expr::App(function, argument) => app((**function).view(), (**argument).view()),
            Expr::Sym(text) => Term::Sym(text@),
            Expr::S => Term::S,
            Expr::K => Term::K,
            Expr::I => Term::I,
            Expr::Muse(name, resonance) => Term::Muse(name@, *resonance as nat),
            Expr::Quine(inner) => quine((**inner).view()),
            Expr::DNA(bytes) => Term::Dna(bytes@),
        }
    }
}

impl Expr {
    /// The application `left right`.
    pub fn app(left: Expr, right: Expr) -> (r: Expr)
        ensures
            r@ == app(left@, right@),
    {
        Expr::App(Box::new(left), Box::new(right))
    }

    /// The abstraction `λvar.body`.
    pub fn lambda(var: &str, body: Expr) -> (r: Expr)
        ensures
            r@ == lambda(var@, body@),
    {
        Expr::Lambda(var.to_owned(), Box::new(body))
    }

    /// The variable `name`.
    pub fn var(name: &str) -> (r: Expr)
        ensures
            r@ == Term::Var(name@),
    {
        Expr::Var(name.to_owned())
    }

    /// The symbol `symbol`.
    pub fn sym(symbol: &str) -> (r: Expr)
        ensures
            r@ == Term::Sym(symbol@),
    {
        Expr::Sym(symbol.to_owned())
    }

    /// The muse `name` with a resonance of `resonance` thousandths, or of one
    /// thousand where `resonance` is more than that.
    pub fn muse(name: &str, resonance: u32) -> (r: Expr)
        ensures
            r@ == Term::Muse(name@, capped(resonance as nat)),
            well_formed(r@),
    {
        if resonance <= MAX_RESONANCE {
            Expr::Muse(name.to_owned(), resonance)
        } else {
            Expr::Muse(name.to_owned(), MAX_RESONANCE)
        }
    }

    /// The byte payload `data`.
    pub fn dna(data: Vec<u8>) -> (r: Expr)
        ensures
            r@ == Term::Dna(data@),
    {
        Expr::DNA(data)
    }

    /// The resonance of a muse in thousandths, and zero for any other
    /// expression.
    pub fn get_resonance(&self) -> (r: u32)
        ensures
            r == match self@ {
                Term::Muse(_, resonance) => resonance,
                _ => 0,
            },
    {
        match self {
            Expr::Muse(_, resonance) => *resonance,
            _ => 0,
        }
    }

    /// The fixed-point combinator `Y = λf.(λx.f (x x)) (λx.f (x x))`.
    pub fn y_combinator() -> (r: Expr)
        ensures
            r@ == y_combinator(),
    {
        let inner = Expr::lambda(
            "x",
            Expr::app(Expr::var("f"), Expr::app(Expr::var("x"), Expr::var("x"))),
        );
        let copy = inner.clone();
        Expr::lambda("f", Expr::app(copy, inner))
    }

    /// The combinator `M = S (K S) K`.
    pub fn metameme_combinator() -> (r: Expr)
        ensures
            r@ == metameme_combinator(),
    {
        Expr::app(Expr::app(Expr::S, Expr::app(Expr::K, Expr::S)), Expr::K)
    }

    /// The signature expression `(S Sol) ((S Fun) Meme)`.
    pub fn solfunmeme() -> (r: Expr)
        ensures
            r@ == solfunmeme(),
    {
        Expr::app(
            Expr::app(Expr::S, Expr::muse("Sol", 970)),
            Expr::app(Expr::app(Expr::S, Expr::muse("Fun", 950)), Expr::muse("Meme", 990)),
        )
    }

    /// The quine wrapper around `expr`.
    pub fn quine(expr: Expr) -> (r: Expr)
        ensures
            r@ == quine(expr@),
    {
        Expr::Quine(Box::new(expr))
    }

    /// The text of this expression, as [`render`] defines it.
    pub fn to_string(&self) -> (r: String)
        ensures
            r@ == render(self@),
        decreases self,
    {
        match self {
            Expr::Var(name) => name.clone(),
            Expr::Lambda(parameter, body) => {
                let mut text = "λ".to_owned();
                text.append(parameter.as_str());
                text.append(".");
                let inner = (&**body).to_string();
                text.append(inner.as_str());
                text
            },
            Expr::App(function, argument) => {
                let mut text = "(".to_owned();
                let left = (&**function).to_string();
                text.append(left.as_str());
                text.append(" ");
                let right = (&**argument).to_string();
                text.append(right.as_str());
                text.append(")");
                text
            },
            Expr::Sym(symbol) => symbol.clone(),
            Expr::S => "S".to_owned(),
            Expr::K => "K".to_owned(),
            Expr::I => "I".to_owned(),
            Expr::Muse(name, resonance) => {
                let mut text = name.clone();
                text.append("[");
                let score = decimal_string(*resonance as u64);
                text.append(score.as_str());
                text.append("/1000]");
                text
            },
            Expr::Quine(inner) => {
                let mut text = "Q(".to_owned();
                let wrapped = (&**inner).to_string();
                text.append(wrapped.as_str());
                text.append(")");
                text
            },
            Expr::DNA(bytes) => {
                let mut text = "🧬DNA[".to_owned();
                let length = decimal_string(bytes.len() as u64);
                text.append(length.as_str());
                text.append("]");
                text
            },
        }
    }
}

impl Clone for Expr {
    /// A copy that denotes the same term.
    fn clone(&self) -> (r: Expr)
        ensures
            r@ == self@,
        decreases self,
    {
        match self {
            Expr::Var(name) => Expr::Var(name.clone()),
            Expr::Lambda(parameter, body) => Expr::Lambda(
                parameter.clone(),
                Box::new((&**body).clone()),
            ),
            Expr::App(function, argument) => Expr::App(
                Box::new((&**function).clone()),
                Box::new((&**argument).clone()),
            ),
            Expr::Sym(symbol) => Expr::Sym(symbol.clone()),
            Expr::S => Expr::S,
            Expr::K => Expr::K,
            Expr::I => Expr::I,
            Expr::Muse(name, resonance) => Expr::Muse(name.clone(), *resonance),
            Expr::Quine(inner) => Expr::Quine(Box::new((&**inner).clone())),
            Expr::DNA(bytes) => {
                let copy = bytes.clone();
                assert(copy@ =~= bytes@);
                Expr::DNA(copy)
            },
        }
    }
}

/// The text of one decimal digit.
fn digit_str(d: u64) -> (r: &'static str)
    requires
        d < 10,
    ensures
        r@ == seq![digit(d as nat)],
{
    proof {
        reveal_strlit("0");
        reveal_strlit("1");
        reveal_strlit("2");
        reveal_strlit("3");
        reveal_strlit("4");
        reveal_strlit("5");
        reveal_strlit("6");
        reveal_strlit("7");
        reveal_strlit("8");
        reveal_strlit("9");
    }
    let text = if d == 0 {
        "0"
    } else if d == 1 {
        "1"
    } else if d == 2 {
        "2"
    } else if d == 3 {
        "3"
    } else if d == 4 {
        "4"
    } else if d == 5 {
        "5"
    } else if d == 6 {
        "6"
    } else if d == 7 {
        "7"
    } else if d == 8 {
        "8"
    } else {
        "9"
    };
    assert(text@ =~= seq![digit(d as nat)]);
    text
}

/// The decimal text of `n`.
pub fn decimal_string(n: u64) -> (r: String)
    ensures
        r@ == decimal(n as nat),
    decreases n,
{
    if n < 10 {
        digit_str(n).to_owned()
    } else {
        let mut text = decimal_string(n / 10);
        text.append(digit_str(n % 10));
        assert(text@ =~= decimal((n / 10) as nat).push(digit((n % 10) as nat)));
        text
    }
}

} // verus!
