//! The rewrite rules of the calculus, stated on the mathematical model.

use vstd::prelude::*;
use crate::term::{app, quine, render, Term, MAX_RESONANCE};

verus! {

/// The variable environment: which names are bound, and to what.
pub type Bindings = Map<Seq<char>, Term>;

/// `body` with every free occurrence of `var` replaced by `replacement`.
///
/// An abstraction whose own parameter is `var` shadows the substitution and
/// is left as it is. No bound name is ever renamed, so a free variable of
/// `replacement` is captured by an enclosing binder of the same name.
pub open spec fn substitute(body: Term, var: Seq<char>, replacement: Term) -> Term
    decreases body,
{
    match body {
        Term::Var(name) => if name == var {
            replacement
        } else {
            body
        },
        Term::Lambda(parameter, inner) => if parameter == var {
            body
        } else {
            Term::Lambda(parameter, Box::new(substitute(*inner, var, replacement)))
        },
        Term::App(function, argument) => app(
            substitute(*function, var, replacement),
            substitute(*argument, var, replacement),
        ),
        _ => body,
    }
}

/// The resonance of a muse after it has absorbed an argument: one percent
/// more, rounded down, and never above one thousand.
pub open spec fn boosted(resonance: nat) -> nat {
    if resonance * 101 / 100 <= MAX_RESONANCE {
        resonance * 101 / 100
    } else {
        MAX_RESONANCE as nat
    }
}

/// One rewrite of `function argument` inside one of its two operands: the
/// function if it can be rewritten, else the argument.
pub open spec fn step_inside(
    rewritten_function: Option<Term>,
    rewritten_argument: Option<Term>,
    function: Term,
    argument: Term,
) -> Option<Term> {
    match rewritten_function {
        Some(next) => Some(app(next, argument)),
        None => match rewritten_argument {
            Some(next) => Some(app(function, next)),
            None => None,
        },
    }
}

/// The one-step rewrite of `t` under `env`, or `None` where no rule applies.
///
/// - A variable bound in `env` becomes its binding.
/// - `(λx.b) a` becomes `b` with `a` substituted for `x`.
/// - `I a` becomes `a`; `K a` stays `K a`; `S a` becomes `(S a) I`.
/// - `((S f) g) x` becomes `(f x) (g x)`, and `(K a) b` becomes `a`.
/// - A muse applied to `a` absorbs the text of `a` into its name and gains
///   one percent of resonance.
/// - A quine applied to `a` takes `a` inside its wrapper.
/// - Any other application is rewritten in its function, else in its
///   argument.
/// - A bare muse gains one thousandth of resonance until it has a thousand.
/// - A bare quine is unwrapped.
/// - Abstractions, symbols, combinators and byte payloads are inert.
pub open spec fn step(env: Bindings, t: Term) -> Option<Term>
    decreases t,
{
    match t {
        Term::Var(name) => if env.contains_key(name) {
            Some(env[name])
        } else {
            None
        },
        Term::App(function, argument) => match *function {
            Term::Lambda(parameter, body) => Some(substitute(*body, parameter, *argument)),
            Term::S => Some(app(app(Term::S, *argument), Term::I)),
            Term::K => Some(app(Term::K, *argument)),
            Term::I => Some(*argument),
            Term::App(inner_function, inner_argument) => match *inner_function {
                Term::App(head, f) if *head == Term::S => Some(
                    app(app(*f, *argument), app(*inner_argument, *argument)),
                ),
                Term::K => Some(*inner_argument),
                _ => step_inside(step(env, *function), step(env, *argument), *function, *argument),
            },
            Term::Muse(name, resonance) => Some(
                Term::Muse(name + render(*argument), boosted(resonance)),
            ),
            Term::Quine(inner) => Some(quine(app(*inner, *argument))),
            _ => step_inside(step(env, *function), step(env, *argument), *function, *argument),
        },
        Term::Muse(name, resonance) => if resonance < MAX_RESONANCE {
            Some(Term::Muse(name, resonance + 1))
        } else {
            None
        },
        Term::Quine(inner) => Some(*inner),
        _ => None,
    }
}

/// `t` is in normal form under `env`: no rewrite applies to it.
pub open spec fn is_normal(env: Bindings, t: Term) -> bool {
    step(env, t) is None
}

/// The term reached from `t` after `n` rewrites, where a term in normal form
/// stays as it is.
pub open spec fn reduct(env: Bindings, t: Term, n: nat) -> Term
    decreases n,
{
    if n == 0 {
        t
    } else {
        let previous = reduct(env, t, (n - 1) as nat);
        match step(env, previous) {
            Some(next) => next,
            None => previous,
        }
    }
}

/// None of the first `n` terms reached from `t` is in normal form.
pub open spec fn runs_for(env: Bindings, t: Term, n: nat) -> bool {
    forall|i: nat| i < n ==> !is_normal(env, #[trigger] reduct(env, t, i))
}

/// The number of rewrites a budget of `budget` steps performs on `t`: the
/// rewrites stop at the first normal form, or when the budget is spent.
pub open spec fn steps_within(env: Bindings, t: Term, budget: nat) -> nat
    decreases budget,
{
    if budget == 0 || is_normal(env, t) {
        0
    } else {
        1 + steps_within(env, step(env, t)->0, (budget - 1) as nat)
    }
}

/// Rewriting `t` once and then `n` times reaches the same term as rewriting
/// it `n + 1` times.
pub proof fn lemma_reduct_shift(env: Bindings, t: Term, n: nat)
    requires
        !is_normal(env, t),
    ensures
        reduct(env, t, n + 1) == reduct(env, step(env, t)->0, n),
    decreases n,
{
    if n == 0 {
        assert(reduct(env, t, 0) == t);
        assert(reduct(env, t, 1) == step(env, t)->0);
    } else {
        lemma_reduct_shift(env, t, (n - 1) as nat);
    }
}

/// A reduction that performs `n` rewrites without meeting a normal form, and
/// then either meets one or has spent its budget, performs exactly
/// [`steps_within`] rewrites.
pub proof fn lemma_steps_within(env: Bindings, t: Term, budget: nat, n: nat)
    requires
        n <= budget,
        runs_for(env, t, n),
        n == budget || is_normal(env, reduct(env, t, n)),
    ensures
        steps_within(env, t, budget) == n,
    decreases budget,
{
    if n == 0 {
        assert(reduct(env, t, 0) == t);
    } else {
        assert(!is_normal(env, reduct(env, t, 0)));
        let next = step(env, t)->0;
        assert forall|i: nat| i < n - 1 implies !is_normal(env, #[trigger] reduct(env, next, i)) by {
            lemma_reduct_shift(env, t, i);
            assert(!is_normal(env, reduct(env, t, i + 1)));
        }
        lemma_reduct_shift(env, t, (n - 1) as nat);
        lemma_steps_within(env, next, (budget - 1) as nat, (n - 1) as nat);
    }
}

} // verus!
