//! Random structural mutation of a term.
//!
//! The mutation itself is a function of the term, the mutation rate and a
//! list of random draws ([`LambdaEngine::evolve_with`]). Only the drawing is
//! left to the thread's random number generator ([`LambdaEngine::evolve`]).

use vstd::prelude::*;
use rand::Rng;
use crate::engine::LambdaEngine;
use crate::expr::Expr;
use crate::laws::lemma_mutated_well_formed;
use crate::term::{app, well_formed, Term, MAX_RESONANCE};

verus! {

/// The mutation rate that makes a mutation certain: rates are counted in
/// thousandths, as resonance is.
pub const FULL_RATE: u32 = 1000;

/// The largest change, up or down, that one mutation makes to a resonance.
pub const MAX_DELTA: i32 = 100;

/// The number of symbols a mutated symbol is chosen from.
pub const ALTERNATIVES: u32 = 6;

/// The random choices made at one level of a term.
///
/// A mutation reads `trial` first. Where the trial succeeds it reads the one
/// field that the term at that level calls for: `delta` at a muse, `symbol`
/// at a symbol, `left` at an application.
#[derive(Clone, Copy, Debug, PartialEq, Eq, Structural)]
pub struct Draw {
    /// The Bernoulli trial: the term is mutated where `trial` is below the
    /// mutation rate.
    pub trial: u32,
    /// The change to a muse's resonance, in thousandths.
    pub delta: i32,
    /// Which alternative replaces a symbol.
    pub symbol: u32,
    /// Whether an application is mutated in its function (else in its
    /// argument).
    pub left: bool,
}

impl Draw {
    /// The draw is one that [`LambdaEngine::evolve`] can make: a trial below
    /// a thousand, a change of at most a hundred either way, and the index
    /// of an alternative.
    pub open spec fn in_range(self) -> bool {
        &&& self.trial < FULL_RATE
        &&& -MAX_DELTA <= self.delta <= MAX_DELTA
        &&& self.symbol < ALTERNATIVES
    }
}

/// Every draw of `draws` is in range.
pub open spec fn all_in_range(draws: Seq<Draw>) -> bool {
    forall|i: int| 0 <= i < draws.len() ==> (#[trigger] draws[i]).in_range()
}

/// The symbol that takes the place of a mutated one.
pub open spec fn alternative(index: nat) -> Seq<char> {
    let k = index % (ALTERNATIVES as nat);
    if k == 0 {
        "🌀"@
    } else if k == 1 {
        "🎭"@
    } else if k == 2 {
        "🧬"@
    } else if k == 3 {
        "🌟"@
    } else if k == 4 {
        "💫"@
    } else {
        "🔮"@
    }
}

/// `resonance` moved by `delta` and kept between zero and one thousand.
pub open spec fn perturbed(resonance: nat, delta: int) -> nat {
    if resonance + delta < 0 {
        0
    } else if resonance + delta > MAX_RESONANCE {
        MAX_RESONANCE as nat
    } else {
        (resonance + delta) as nat
    }
}

/// The term that `t` becomes under mutation rate `rate` when the random
/// choices come out as `draws`, one draw for each level visited.
///
/// The term is left as it is where the first trial is not below `rate` (or
/// where no draw is left). Otherwise a muse has its resonance perturbed, a
/// symbol is replaced by an alternative, an application is mutated in one of
/// its two operands at half the rate, and any other term stays as it is.
pub open spec fn mutated(t: Term, rate: nat, draws: Seq<Draw>) -> Term
    decreases draws.len(),
{
    if draws.len() == 0 || draws[0].trial >= rate {
        t
    } else {
        match t {
            Term::Muse(name, resonance) => Term::Muse(
                name,
                perturbed(resonance, draws[0].delta as int),
            ),
            Term::Sym(_) => Term::Sym(alternative(draws[0].symbol as nat)),
            Term::App(function, argument) => if draws[0].left {
                app(mutated(*function, rate / 2, draws.skip(1)), *argument)
            } else {
                app(*function, mutated(*argument, rate / 2, draws.skip(1)))
            },
            _ => t,
        }
    }
}

/// The text of the alternative symbol number `index`.
fn alternative_str(index: u32) -> (r: &'static str)
    ensures
        r@ == alternative(index as nat),
{
    let k = index % ALTERNATIVES;
    if k == 0 {
        "🌀"
    } else if k == 1 {
        "🎭"
    } else if k == 2 {
        "🧬"
    } else if k == 3 {
        "🌟"
    } else if k == 4 {
        "💫"
    } else {
        "🔮"
    }
}

/// `resonance` moved by `delta` and kept between zero and one thousand.
fn perturb(resonance: u32, delta: i32) -> (r: u32)
    ensures
        r == perturbed(resonance as nat, delta as int),
{
    let moved: i64 = resonance as i64 + delta as i64;
    if moved < 0 {
        0
    } else if moved > MAX_RESONANCE as i64 {
        MAX_RESONANCE
    } else {
        moved as u32
    }
}

/// The mutation of `expr` by the draws of `draws` from position `at` on.
fn evolve_from(expr: &Expr, rate: u32, draws: &Vec<Draw>, at: usize) -> (r: Expr)
    requires
        at <= draws@.len(),
    ensures
        r@ == mutated(expr@, rate as nat, draws@.skip(at as int)),
    decreases draws@.len() - at,
{
    let ghost rest = draws@.skip(at as int);
    if at >= draws.len() {
        return expr.clone();
    }
    let draw = draws[at];
    assert(rest[0] == draw);
    assert(rest.skip(1) =~= draws@.skip(at + 1));
    if draw.trial >= rate {
        return expr.clone();
    }
    match expr {
        Expr::Muse(name, resonance) => Expr::Muse(name.clone(), perturb(*resonance, draw.delta)),
        Expr::Sym(_) => Expr::sym(alternative_str(draw.symbol)),
        Expr::App(function, argument) => {
            if draw.left {
                Expr::app(
                    evolve_from(&**function, rate / 2, draws, at + 1),
                    (&**argument).clone(),
                )
            } else {
                Expr::app(
                    (&**function).clone(),
                    evolve_from(&**argument, rate / 2, draws, at + 1),
                )
            }
        },
        _ => expr.clone(),
    }
}

/// The type `rand::rngs::ThreadRng`, the thread-local random number
/// generator of the `rand` crate. It is opaque here: nothing of its state is
/// known.
#[verifier::external_type_specification]
#[verifier::external_body]
pub struct ExThreadRng(rand::rngs::ThreadRng);

/// `rand::thread_rng` hands out a handle to the calling thread's generator.
/// This is taken on trust, and nothing is claimed of the handle. The call
/// stops the program if the operating system cannot seed the generator.
pub assume_specification[ rand::thread_rng ]() -> (rng: rand::rngs::ThreadRng);

/// A number drawn by `Rng::gen_range` of the `rand` crate from the half-open
/// range from zero to `bound`. Taken on trust, as the crate documents it:
/// the number lies in the range. The crate panics on an empty range, so
/// `bound` must be positive.
#[verifier::external_body]
fn uniform_below(rng: &mut rand::rngs::ThreadRng, bound: u32) -> (r: u32)
    requires
        bound > 0,
    ensures
        r < bound,
{
    rng.gen_range(0..bound)
}

/// A truth value drawn by `Rng::gen` of the `rand` crate. Nothing is claimed
/// of it: either value may come back.
#[verifier::external_body]
fn coin(rng: &mut rand::rngs::ThreadRng) -> (r: bool) {
    rng.gen::<bool>()
}

/// Draws, level by level, the random choices for one mutation of `expr`, and
/// appends them to `draws`: a trial at each level, then what the term at
/// that level calls for, down one branch of the term until a trial fails or
/// a leaf is reached.
fn draw_path(expr: &Expr, rate: u32, rng: &mut rand::rngs::ThreadRng, draws: &mut Vec<Draw>)
    ensures
        final(draws)@.len() > old(draws)@.len(),
        final(draws)@.take(old(draws)@.len() as int) == old(draws)@,
        all_in_range(final(draws)@.skip(old(draws)@.len() as int)),
    decreases expr,
{
    let ghost before = draws@;
    let trial = uniform_below(rng, FULL_RATE);
    let mut draw = Draw { trial, delta: 0, symbol: 0, left: false };
    let mut descend = false;
    if trial < rate {
        match expr {
            Expr::Muse(_, _) => {
                let offset = uniform_below(rng, 2 * (MAX_DELTA as u32) + 1);
                draw.delta = offset as i32 - MAX_DELTA;
            },
            Expr::Sym(_) => {
                draw.symbol = uniform_below(rng, ALTERNATIVES);
            },
            Expr::App(_, _) => {
                draw.left = coin(rng);
                descend = true;
            },
            _ => {},
        }
    }
    draws.push(draw);
    assert(draws@.take(before.len() as int) =~= before);
    assert(draws@.skip(before.len() as int) =~= seq![draw]);
    if descend {
        let ghost pushed = draws@;
        match expr {
            Expr::App(function, argument) => {
                if draw.left {
                    draw_path(&**function, rate / 2, rng, draws);
                } else {
                    draw_path(&**argument, rate / 2, rng, draws);
                }
            },
            _ => {},
        }
        assert(draws@.take(before.len() as int) =~= pushed.take(before.len() as int));
        assert(draws@.skip(before.len() as int) =~= seq![draw] + draws@.skip(pushed.len() as int));
    }
}

impl LambdaEngine {
    /// Mutates `expr` at random.
    ///
    /// With probability `mutation_rate` in a thousand the term is mutated: a
    /// muse has its resonance moved by up to a hundred thousandths either
    /// way and kept within bounds, a symbol is replaced by one of the six
    /// alternatives, an application is mutated in one of its operands,
    /// chosen by a fair coin, at half the rate. Otherwise the term comes back
    /// as it is.
    ///
    /// The result is [`mutated`] for some draws in range. At rate zero it is
    /// the term itself. At a rate of a thousand or more a muse comes back as
    /// a muse of the same name whose resonance is [`perturbed`] by at most a
    /// hundred, and a symbol comes back as one of the alternatives.
    pub fn evolve(&self, expr: &Expr, mutation_rate: u32) -> (r: Expr)
        ensures
            exists|draws: Seq<Draw>|
                draws.len() > 0 && all_in_range(draws) && r@ == #[trigger] mutated(
                    expr@,
                    mutation_rate as nat,
                    draws,
                ),
            mutation_rate == 0 ==> r@ == expr@,
            mutation_rate >= FULL_RATE ==> match expr@ {
                Term::Muse(name, resonance) => exists|delta: int|
                    -MAX_DELTA <= delta <= MAX_DELTA && r@ == Term::Muse(
                        name,
                        #[trigger] perturbed(resonance, delta),
                    ),
                Term::Sym(_) => exists|index: nat|
                    index < ALTERNATIVES && r@ == Term::Sym(#[trigger] alternative(index)),
                _ => true,
            },
            well_formed(expr@) ==> well_formed(r@),
    {
        let mut rng = rand::thread_rng();
        let mut draws: Vec<Draw> = Vec::new();
        draw_path(expr, mutation_rate, &mut rng, &mut draws);
        assert(draws@.skip(0) =~= draws@);
        assert(draws@[0].in_range());
        self.evolve_with(expr, mutation_rate, &draws)
    }

    /// Mutates `expr` at rate `mutation_rate` (in thousandths) with the
    /// random choices given in `draws`: the term is [`mutated`].
    pub fn evolve_with(&self, expr: &Expr, mutation_rate: u32, draws: &Vec<Draw>) -> (r: Expr)
        ensures
            r@ == mutated(expr@, mutation_rate as nat, draws@),
            well_formed(expr@) ==> well_formed(r@),
    {
        proof {
            if well_formed(expr@) {
                lemma_mutated_well_formed(expr@, mutation_rate as nat, draws@);
            }
        }
        assert(draws@.skip(0) =~= draws@);
        evolve_from(expr, mutation_rate, draws, 0)
    }
}

} // verus!
