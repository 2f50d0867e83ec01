//! The mathematical model of terms: what an expression *is*, independent of
//! how it is stored.

use vstd::prelude::*;

verus! {

/// Largest resonance a muse can carry: resonance is counted in thousandths.
pub const MAX_RESONANCE: u32 = 1000;

/// A term of the calculus, as a mathematical value.
pub enum Term {
    /// A free or bound identifier.
    Var(Seq<char>),
    /// An abstraction: parameter name and body.
    Lambda(Seq<char>, Box<Term>),
    /// An application: function and argument.
    App(Box<Term>, Box<Term>),
    /// An opaque atom.
    Sym(Seq<char>),
    /// The S combinator.
    S,
    /// The K combinator.
    K,
    /// The I combinator.
    I,
    /// A named leaf weighted by a resonance in thousandths.
    Muse(Seq<char>, nat),
    /// A wrapper around a term meant to reproduce itself.
    Quine(Box<Term>),
    /// An inert byte payload.
    Dna(Seq<u8>),
}

/// The application of `function` to `argument`.
pub open spec fn app(function: Term, argument: Term) -> Term {
    Term::App(Box::new(function), Box::new(argument))
}

/// The abstraction of `body` over `parameter`.
pub open spec fn lambda(parameter: Seq<char>, body: Term) -> Term {
    Term::Lambda(parameter, Box::new(body))
}

/// The quine wrapper around `inner`.
pub open spec fn quine(inner: Term) -> Term {
    Term::Quine(Box::new(inner))
}

/// The self-application `λx.(x x)`.
pub open spec fn self_application() -> Term {
    lambda("x"@, app(Term::Var("x"@), Term::Var("x"@)))
}

/// The fixed-point combinator `λf.((λx.(f (x x))) (λx.(f (x x))))`.
pub open spec fn y_combinator() -> Term {
    let half = lambda("x"@, app(Term::Var("f"@), app(Term::Var("x"@), Term::Var("x"@))));
    lambda("f"@, app(half, half))
}

/// The combinator `(S (K S)) K`.
pub open spec fn metameme_combinator() -> Term {
    app(app(Term::S, app(Term::K, Term::S)), Term::K)
}

/// The signature term `(S Sol) ((S Fun) Meme)`, whose three muses carry
/// resonances of 970, 950 and 990 thousandths.
pub open spec fn solfunmeme() -> Term {
    app(
        app(Term::S, Term::Muse("Sol"@, 970)),
        app(app(Term::S, Term::Muse("Fun"@, 950)), Term::Muse("Meme"@, 990)),
    )
}

/// The poetic term on a theme: `((S theme) (λx.x)) 🌀`, where the theme is a
/// muse of the given resonance.
pub open spec fn poetry(theme: Seq<char>, resonance: nat) -> Term {
    app(
        app(app(Term::S, Term::Muse(theme, resonance)), lambda("x"@, Term::Var("x"@))),
        Term::Sym("🌀"@),
    )
}

/// `resonance`, or one thousand where it is more.
pub open spec fn capped(resonance: nat) -> nat {
    if resonance <= MAX_RESONANCE {
        resonance
    } else {
        MAX_RESONANCE as nat
    }
}

/// The self-referential skeleton built around the symbol `seed`:
/// `Q((λx.(x x)) (λy.(seed y)))`.
pub open spec fn quine_of(seed: Seq<char>) -> Term {
    quine(app(self_application(), lambda("y"@, app(Term::Sym(seed), Term::Var("y"@)))))
}

/// Every muse inside `t` carries a resonance of at most one thousand.
pub open spec fn well_formed(t: Term) -> bool
    decreases t,
{
    match t {
        Term::Lambda(_, body) => well_formed(*body),
        Term::App(function, argument) => well_formed(*function) && well_formed(*argument),
        Term::Muse(_, resonance) => resonance <= MAX_RESONANCE,
        Term::Quine(inner) => well_formed(*inner),
        _ => true,
    }
}

/// The character of the single decimal digit `d`.
pub open spec fn digit(d: nat) -> char
    recommends
        d < 10,
{
    if d == 0 {
        '0'
    } else if d == 1 {
        '1'
    } else if d == 2 {
        '2'
    } else if d == 3 {
        '3'
    } else if d == 4 {
        '4'
    } else if d == 5 {
        '5'
    } else if d == 6 {
        '6'
    } else if d == 7 {
        '7'
    } else if d == 8 {
        '8'
    } else {
        '9'
    }
}

/// The decimal text of `n`, most significant digit first, without leading
/// zeros.
pub open spec fn decimal(n: nat) -> Seq<char>
    decreases n,
{
    if n < 10 {
        seq![digit(n)]
    } else {
        decimal(n / 10).push(digit(n % 10))
    }
}

/// The text of a term: `(f x)` for an application, `λvar.body` for an
/// abstraction, `name[resonance/1000]` for a muse, `Q(inner)` for a quine,
/// `🧬DNA[length]` for a byte payload, the bare name for a variable, a symbol
/// or a combinator.
pub open spec fn render(t: Term) -> Seq<char>
    decreases t,
{
    match t {
        Term::Var(name) => name,
        Term::Lambda(parameter, body) => "λ"@ + parameter + "."@ + render(*body),
        Term::App(function, argument) => "("@ + render(*function) + " "@ + render(*argument)
            + ")"@,
        Term::Sym(text) => text,
        Term::S => "S"@,
        Term::K => "K"@,
        Term::I => "I"@,
        Term::Muse(name, resonance) => name + "["@ + decimal(resonance) + "/1000]"@,
        Term::Quine(inner) => "Q("@ + render(*inner) + ")"@,
        Term::Dna(bytes) => "🧬DNA["@ + decimal(bytes.len()) + "]"@,
    }
}

} // verus!
