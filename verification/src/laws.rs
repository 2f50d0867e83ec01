//! Laws of the calculus: what holds of every term, every environment and
//! every budget.

use vstd::prelude::*;
use crate::evolve::{all_in_range, mutated, Draw, FULL_RATE, MAX_DELTA};
use crate::rules::{
    is_normal, lemma_reduct_shift, lemma_steps_within, reduct, runs_for, step, steps_within,
    substitute, Bindings,
};
use crate::term::{app, lambda, quine, well_formed, y_combinator, Term, MAX_RESONANCE};

verus! {

/// Beta reduction: an abstraction applied to an argument rewrites to its
/// body with the argument substituted for the parameter.
pub proof fn lemma_beta(env: Bindings, parameter: Seq<char>, body: Term, argument: Term)
    ensures
        step(env, app(lambda(parameter, body), argument)) == Some(
            substitute(body, parameter, argument),
        ),
{
}

/// The identity law: `I a` rewrites to `a`.
pub proof fn lemma_identity(env: Bindings, a: Term)
    ensures
        step(env, app(Term::I, a)) == Some(a),
{
}

/// The constant law: `(K a) b` rewrites to `a`.
pub proof fn lemma_constant(env: Bindings, a: Term, b: Term)
    ensures
        step(env, app(app(Term::K, a), b)) == Some(a),
{
}

/// The distribution law: `((S f) g) x` rewrites to `(f x) (g x)`.
pub proof fn lemma_distribution(env: Bindings, f: Term, g: Term, x: Term)
    ensures
        step(env, app(app(app(Term::S, f), g), x)) == Some(app(app(f, x), app(g, x))),
{
}

/// `S K K` behaves as the identity: applied to any term it reaches that
/// term in two rewrites.
pub proof fn lemma_skk_is_identity(env: Bindings, a: Term)
    ensures
        reduct(env, app(app(app(Term::S, Term::K), Term::K), a), 2) == a,
{
    let start = app(app(app(Term::S, Term::K), Term::K), a);
    let middle = app(app(Term::K, a), app(Term::K, a));
    assert(reduct(env, start, 0) == start);
    assert(step(env, start) == Some(middle));
    assert(reduct(env, start, 1) == middle);
    assert(step(env, middle) == Some(a));
}

/// A bare quine degrades to its payload in one rewrite.
pub proof fn lemma_quine_unwraps(env: Bindings, inner: Term)
    ensures
        step(env, quine(inner)) == Some(inner),
{
}

/// Abstractions, symbols, the three combinators, byte payloads, unbound
/// variables and saturated muses are in normal form.
pub proof fn lemma_inert_terms(env: Bindings, t: Term)
    requires
        match t {
            Term::Var(name) => !env.contains_key(name),
            Term::Muse(_, resonance) => resonance >= MAX_RESONANCE,
            Term::App(_, _) | Term::Quine(_) => false,
            _ => true,
        },
    ensures
        is_normal(env, t),
{
}

/// A partial application of `K` rewrites to itself, and so never reaches a
/// normal form.
pub proof fn lemma_partial_constant_never_settles(env: Bindings, a: Term, n: nat)
    ensures
        reduct(env, app(Term::K, a), n) == app(Term::K, a),
        runs_for(env, app(Term::K, a), n),
    decreases n,
{
    let term = app(Term::K, a);
    assert(step(env, term) == Some(term));
    if n > 0 {
        lemma_partial_constant_never_settles(env, a, (n - 1) as nat);
        assert forall|i: nat| i < n implies !is_normal(env, #[trigger] reduct(env, term, i)) by {
            lemma_partial_constant_never_settles(env, a, i);
        }
    }
}

/// A bare muse climbs by one thousandth at every rewrite.
pub proof fn lemma_muse_climbs(env: Bindings, name: Seq<char>, resonance: nat, n: nat)
    requires
        resonance + n <= MAX_RESONANCE,
    ensures
        reduct(env, Term::Muse(name, resonance), n) == Term::Muse(name, resonance + n),
    decreases n,
{
    if n > 0 {
        lemma_muse_climbs(env, name, resonance, (n - 1) as nat);
    }
}

/// A bare muse is rewritten until it is saturated or the budget is spent,
/// whichever comes first: it takes a thousand steps less its resonance, if
/// the budget allows as many.
pub proof fn lemma_muse_saturates(env: Bindings, name: Seq<char>, resonance: nat, budget: nat)
    requires
        resonance <= MAX_RESONANCE,
    ensures
        steps_within(env, Term::Muse(name, resonance), budget) == if budget <= MAX_RESONANCE
            - resonance {
            budget
        } else {
            (MAX_RESONANCE - resonance) as nat
        },
{
    let start = Term::Muse(name, resonance);
    let n: nat = if budget <= MAX_RESONANCE - resonance {
        budget
    } else {
        (MAX_RESONANCE - resonance) as nat
    };
    assert forall|i: nat| i < n implies !is_normal(env, #[trigger] reduct(env, start, i)) by {
        lemma_muse_climbs(env, name, resonance, i);
    }
    lemma_muse_climbs(env, name, resonance, n);
    lemma_steps_within(env, start, budget, n);
}

/// The variable `var` occurs in `t` outside every abstraction that binds
/// it.
pub open spec fn occurs_free(t: Term, var: Seq<char>) -> bool
    decreases t,
{
    match t {
        Term::Var(name) => name == var,
        Term::Lambda(parameter, body) => parameter != var && occurs_free(*body, var),
        Term::App(function, argument) => occurs_free(*function, var) || occurs_free(
            *argument,
            var,
        ),
        _ => false,
    }
}

/// Substitution leaves a term as it is where the variable does not occur
/// free in it.
pub proof fn lemma_substitute_absent(body: Term, var: Seq<char>, replacement: Term)
    requires
        !occurs_free(body, var),
    ensures
        substitute(body, var, replacement) == body,
    decreases body,
{
    match body {
        Term::Lambda(parameter, inner) => {
            if parameter != var {
                lemma_substitute_absent(*inner, var, replacement);
            }
        },
        Term::App(function, argument) => {
            lemma_substitute_absent(*function, var, replacement);
            lemma_substitute_absent(*argument, var, replacement);
        },
        _ => {},
    }
}

/// Substitution does not avoid capture: putting the variable `y` in place of
/// `x` under a binder of `y` yields `λy.y`.
pub proof fn lemma_substitute_captures(x: Seq<char>, y: Seq<char>)
    requires
        x != y,
    ensures
        substitute(lambda(y, Term::Var(x)), x, Term::Var(y)) == lambda(y, Term::Var(y)),
{
    assert(substitute(Term::Var(x), x, Term::Var(y)) == Term::Var(y));
}

/// A term in normal form is a fixed point of reduction.
pub proof fn lemma_normal_form_is_fixed(env: Bindings, t: Term, n: nat)
    requires
        is_normal(env, t),
    ensures
        reduct(env, t, n) == t,
    decreases n,
{
    if n > 0 {
        lemma_normal_form_is_fixed(env, t, (n - 1) as nat);
    }
}

/// The count of rewrites within a budget never exceeds the budget, no
/// normal form is met before the count is reached, and where the count is
/// short of the budget the term then reached is in normal form.
pub proof fn lemma_steps_within_stops(env: Bindings, t: Term, budget: nat)
    ensures
        steps_within(env, t, budget) <= budget,
        runs_for(env, t, steps_within(env, t, budget)),
        steps_within(env, t, budget) < budget ==> is_normal(
            env,
            reduct(env, t, steps_within(env, t, budget)),
        ),
    decreases budget,
{
    let n = steps_within(env, t, budget);
    if budget == 0 || is_normal(env, t) {
        assert(reduct(env, t, 0) == t);
    } else {
        let next = step(env, t)->0;
        lemma_steps_within_stops(env, next, (budget - 1) as nat);
        let m = steps_within(env, next, (budget - 1) as nat);
        assert(n == m + 1);
        assert forall|i: nat| i < n implies !is_normal(env, #[trigger] reduct(env, t, i)) by {
            if i == 0 {
                assert(reduct(env, t, 0) == t);
            } else {
                lemma_reduct_shift(env, t, (i - 1) as nat);
                assert(!is_normal(env, reduct(env, next, (i - 1) as nat)));
            }
        }
        lemma_reduct_shift(env, t, m);
    }
}

/// Step-budget termination: a term that meets no normal form within the
/// budget uses the budget up.
pub proof fn lemma_budget_exhausted(env: Bindings, t: Term, budget: nat)
    requires
        runs_for(env, t, budget),
    ensures
        steps_within(env, t, budget) == budget,
{
    lemma_steps_within(env, t, budget, budget);
}

/// A reduction that stops short of its budget stops at the same count, and
/// so on the same term, under every larger budget.
pub proof fn lemma_larger_budget_agrees(env: Bindings, t: Term, budget: nat, larger: nat)
    requires
        steps_within(env, t, budget) < budget,
        budget <= larger,
    ensures
        steps_within(env, t, larger) == steps_within(env, t, budget),
{
    lemma_steps_within_stops(env, t, budget);
    lemma_steps_within(env, t, larger, steps_within(env, t, budget));
}

/// Rewriting `m` times and then `n` times reaches the same term as rewriting
/// `m + n` times.
pub proof fn lemma_reduct_composes(env: Bindings, t: Term, m: nat, n: nat)
    ensures
        reduct(env, t, m + n) == reduct(env, reduct(env, t, m), n),
    decreases n,
{
    if n > 0 {
        lemma_reduct_composes(env, t, m, (n - 1) as nat);
        assert(m + n - 1 == m + (n - 1) as nat);
    }
}

/// A reduction that has spent its budget can be resumed: normalizing the
/// term it ended on under a second budget performs, in all, the rewrites
/// that one normalization under the sum of the two budgets performs.
pub proof fn lemma_resumed_reduction(env: Bindings, t: Term, first: nat, second: nat)
    requires
        runs_for(env, t, first),
    ensures
        steps_within(env, t, first + second) == first + steps_within(
            env,
            reduct(env, t, first),
            second,
        ),
{
    let middle = reduct(env, t, first);
    let rest = steps_within(env, middle, second);
    lemma_steps_within_stops(env, middle, second);
    assert forall|i: nat| i < first + rest implies !is_normal(
        env,
        #[trigger] reduct(env, t, i),
    ) by {
        if i >= first {
            lemma_reduct_composes(env, t, first, (i - first) as nat);
            assert(!is_normal(env, reduct(env, middle, (i - first) as nat)));
        }
    }
    lemma_reduct_composes(env, t, first, rest);
    lemma_steps_within(env, t, first + second, first + rest);
}

/// The fixed-point combinator applied to the identity abstraction `λz.z`
/// never reaches a normal form: after the first rewrite the reduction
/// alternates between two terms for ever.
pub proof fn lemma_y_of_identity_never_settles(env: Bindings, n: nat)
    ensures
        runs_for(env, app(y_combinator(), lambda("z"@, Term::Var("z"@))), n),
{
    let start = app(y_combinator(), lambda("z"@, Term::Var("z"@)));
    assert forall|i: nat| i < n implies !is_normal(env, #[trigger] reduct(env, start, i)) by {
        lemma_y_of_identity_orbit(env, i);
    }
}

/// The terms that the reduction of `Y (λz.z)` goes through.
proof fn lemma_y_of_identity_orbit(env: Bindings, n: nat)
    ensures
        ({
            let identity = lambda("z"@, Term::Var("z"@));
            let half = lambda("x"@, app(identity, app(Term::Var("x"@), Term::Var("x"@))));
            reduct(env, app(y_combinator(), identity), n) == if n == 0 {
                app(y_combinator(), identity)
            } else if n % 2 == 1 {
                app(half, half)
            } else {
                app(identity, app(half, half))
            }
        }),
        !is_normal(env, reduct(env, app(y_combinator(), lambda("z"@, Term::Var("z"@))), n)),
    decreases n,
{
    reveal_strlit("x");
    reveal_strlit("f");
    reveal_strlit("z");
    reveal_with_fuel(substitute, 5);
    let identity = lambda("z"@, Term::Var("z"@));
    let half = lambda("x"@, app(identity, app(Term::Var("x"@), Term::Var("x"@))));
    let start = app(y_combinator(), identity);
    assert("x"@ != "f"@) by {
        assert("x"@[0] != "f"@[0]);
    }
    assert("z"@ != "x"@) by {
        assert("x"@[0] != "z"@[0]);
    }
    assert(step(env, start) == Some(app(half, half)));
    assert(step(env, app(half, half)) == Some(app(identity, app(half, half))));
    assert(step(env, app(identity, app(half, half))) == Some(app(half, half)));
    if n > 0 {
        lemma_y_of_identity_orbit(env, (n - 1) as nat);
    }
}

/// Substitution keeps every resonance within bounds.
pub proof fn lemma_substitute_well_formed(body: Term, var: Seq<char>, replacement: Term)
    requires
        well_formed(body),
        well_formed(replacement),
    ensures
        well_formed(substitute(body, var, replacement)),
    decreases body,
{
    match body {
        Term::Lambda(parameter, inner) => {
            lemma_substitute_well_formed(*inner, var, replacement);
        },
        Term::App(function, argument) => {
            lemma_substitute_well_formed(*function, var, replacement);
            lemma_substitute_well_formed(*argument, var, replacement);
        },
        _ => {},
    }
}

/// Every term bound in `env` keeps its resonances within bounds.
pub open spec fn well_formed_bindings(env: Bindings) -> bool {
    forall|name: Seq<char>| env.contains_key(name) ==> well_formed(#[trigger] env[name])
}

/// A rewrite keeps every resonance within bounds.
pub proof fn lemma_step_well_formed(env: Bindings, t: Term)
    requires
        well_formed_bindings(env),
        well_formed(t),
    ensures
        step(env, t) matches Some(next) ==> well_formed(next),
    decreases t,
{
    reveal_with_fuel(well_formed, 4);
    match t {
        Term::App(function, argument) => {
            lemma_step_well_formed(env, *function);
            lemma_step_well_formed(env, *argument);
            match *function {
                Term::Lambda(parameter, body) => {
                    lemma_substitute_well_formed(*body, parameter, *argument);
                },
                Term::Muse(name, resonance) => {
                    assert(resonance * 101 / 100 >= 0);
                },
                _ => {},
            }
        },
        _ => {},
    }
}

/// A reduction of any length keeps every resonance within bounds.
pub proof fn lemma_reduct_well_formed(env: Bindings, t: Term, n: nat)
    requires
        well_formed_bindings(env),
        well_formed(t),
    ensures
        well_formed(reduct(env, t, n)),
    decreases n,
{
    if n > 0 {
        lemma_reduct_well_formed(env, t, (n - 1) as nat);
        lemma_step_well_formed(env, reduct(env, t, (n - 1) as nat));
    }
}

/// At rate zero a mutation changes nothing, whatever is drawn.
pub proof fn lemma_zero_rate_changes_nothing(t: Term, draws: Seq<Draw>)
    ensures
        mutated(t, 0, draws) == t,
{
}

/// At a rate of a thousand or more, with draws in range, a muse comes back
/// as a muse of the same name whose resonance has moved by at most a
/// hundred and lies between zero and a thousand.
pub proof fn lemma_full_rate_perturbs_muse(
    name: Seq<char>,
    resonance: nat,
    rate: nat,
    draws: Seq<Draw>,
)
    requires
        resonance <= MAX_RESONANCE,
        rate >= FULL_RATE,
        draws.len() > 0,
        all_in_range(draws),
    ensures
        mutated(Term::Muse(name, resonance), rate, draws) matches Term::Muse(new_name, moved)
            && new_name == name && moved <= MAX_RESONANCE && resonance - MAX_DELTA <= moved
            <= resonance + MAX_DELTA,
{
    assert(draws[0].in_range());
}

/// A mutation keeps every resonance within bounds, whatever is drawn.
pub proof fn lemma_mutated_well_formed(t: Term, rate: nat, draws: Seq<Draw>)
    requires
        well_formed(t),
    ensures
        well_formed(mutated(t, rate, draws)),
    decreases draws.len(),
{
    if draws.len() > 0 && draws[0].trial < rate {
        match t {
            Term::App(function, argument) => {
                lemma_mutated_well_formed(*function, rate / 2, draws.skip(1));
                lemma_mutated_well_formed(*argument, rate / 2, draws.skip(1));
            },
            _ => {},
        }
    }
}

/// A mutation touches one operand of an application at most: the other
/// comes back as it was.
pub proof fn lemma_mutation_touches_one_operand(
    function: Term,
    argument: Term,
    rate: nat,
    draws: Seq<Draw>,
)
    ensures
        mutated(app(function, argument), rate, draws) matches Term::App(f, a) && (*f == function
            || *a == argument),
{
}

} // verus!
