//! The reduction engine: a step budget, a variable environment, and the
//! bounded normalization loop.

use vstd::prelude::*;
use vstd::hash_map::StringHashMap;
use vstd::string::StringExecFns;
use crate::expr::Expr;
use crate::laws::{
    lemma_reduct_well_formed, lemma_step_well_formed, lemma_substitute_well_formed,
    well_formed_bindings,
};
use crate::rules::{
    boosted, is_normal, lemma_steps_within, reduct, runs_for, step, step_inside, steps_within,
    substitute, Bindings,
};
use crate::term::{capped, poetry, quine_of, render, well_formed, Term, MAX_RESONANCE};

verus! {

/// The step budget of a fresh engine.
pub const DEFAULT_MAX_STEPS: usize = 1000;

/// What one call of [`LambdaEngine::normalize`] did.
#[derive(Debug)]
pub struct ReductionTrace {
    /// The text of every term the reduction went through, the input first
    /// and the final term last.
    pub steps: Vec<String>,
    /// How many rewrites were performed.
    pub step_count: usize,
    /// The term the reduction ended on.
    pub final_form: Expr,
    /// Whether the reduction stopped short of its budget, on a term that no
    /// rule rewrites.
    pub is_normal_form: bool,
}

impl Clone for ReductionTrace {
    /// A copy with the same texts, the same count, the same flag and a final
    /// form that denotes the same term.
    fn clone(&self) -> (copy: ReductionTrace)
        ensures
            copy.step_count == self.step_count,
            copy.is_normal_form == self.is_normal_form,
            copy.final_form@ == self.final_form@,
            copy.steps@.len() == self.steps@.len(),
            forall|i: int|
                0 <= i < self.steps@.len() ==> (#[trigger] copy.steps@[i])@ == self.steps@[i]@,
    {
        let mut steps: Vec<String> = Vec::new();
        let mut at: usize = 0;
        while at < self.steps.len()
            invariant
                at <= self.steps@.len(),
                steps@.len() == at,
                forall|i: int| 0 <= i < at ==> (#[trigger] steps@[i])@ == self.steps@[i]@,
            decreases self.steps@.len() - at,
        {
            steps.push(self.steps[at].clone());
            at += 1;
        }
        ReductionTrace {
            steps,
            step_count: self.step_count,
            final_form: self.final_form.clone(),
            is_normal_form: self.is_normal_form,
        }
    }
}

/// A step budget and a variable environment.
pub struct LambdaEngine {
    /// The largest number of rewrites one normalization performs.
    pub max_steps: usize,
    /// The expression bound to each variable name.
    pub environment: StringHashMap<Expr>,
}

/// The resonance of a muse that has absorbed an argument.
fn boost(resonance: u32) -> (r: u32)
    ensures
        r == boosted(resonance as nat),
{
    let raised: u64 = (resonance as u64) * 101 / 100;
    if raised <= MAX_RESONANCE as u64 {
        raised as u32
    } else {
        MAX_RESONANCE
    }
}

/// `body` with `replacement` in place of every free occurrence of `var`.
fn substitute_in(body: &Expr, var: &String, replacement: &Expr) -> (r: Expr)
    ensures
        r@ == substitute(body@, var@, replacement@),
    decreases body,
{
    match body {
        Expr::Var(name) => {
            if *name == *var {
                replacement.clone()
            } else {
                body.clone()
            }
        },
        Expr::Lambda(parameter, inner) => {
            if *parameter == *var {
                body.clone()
            } else {
                Expr::Lambda(parameter.clone(), Box::new(substitute_in(&**inner, var, replacement)))
            }
        },
        Expr::App(function, argument) => Expr::app(
            substitute_in(&**function, var, replacement),
            substitute_in(&**argument, var, replacement),
        ),
        _ => body.clone(),
    }
}

impl LambdaEngine {
    /// The environment as a mathematical map from names to terms.
    pub open spec fn bindings(&self) -> Bindings {
        self.environment@.map_values(|e: Expr| e@)
    }

    /// Every bound expression keeps its resonances within bounds.
    pub open spec fn well_formed(&self) -> bool {
        well_formed_bindings(self.bindings())
    }

    /// An engine with the default budget of a thousand steps and nothing
    /// bound.
    pub fn new() -> (engine: LambdaEngine)
        ensures
            engine.max_steps == DEFAULT_MAX_STEPS,
            engine.bindings() == Map::<Seq<char>, Term>::empty(),
            engine.well_formed(),
    {
        let engine = LambdaEngine {
            max_steps: DEFAULT_MAX_STEPS,
            environment: StringHashMap::new(),
        };
        assert(engine.bindings() =~= Map::<Seq<char>, Term>::empty());
        engine
    }

    /// The same engine with a budget of `max_steps`.
    pub fn with_max_steps(self, max_steps: usize) -> (engine: LambdaEngine)
        ensures
            engine.max_steps == max_steps,
            engine.environment == self.environment,
    {
        let mut engine = self;
        engine.max_steps = max_steps;
        engine
    }

    /// Binds `name` to `expr`, in place of whatever `name` was bound to.
    pub fn bind(&mut self, name: &str, expr: Expr)
        ensures
            final(self).bindings() == old(self).bindings().insert(name@, expr@),
            final(self).max_steps == old(self).max_steps,
            old(self).well_formed() && well_formed(expr@) ==> final(self).well_formed(),
    {
        self.environment.insert(name.to_owned(), expr);
        assert(self.bindings() =~= old(self).bindings().insert(name@, expr@));
    }

    /// `body` with `replacement` in place of every free occurrence of the
    /// variable `var`.
    pub fn substitute(&self, body: &Expr, var: &str, replacement: &Expr) -> (r: Expr)
        ensures
            r@ == substitute(body@, var@, replacement@),
            well_formed(body@) && well_formed(replacement@) ==> well_formed(r@),
    {
        proof {
            if well_formed(body@) && well_formed(replacement@) {
                lemma_substitute_well_formed(body@, var@, replacement@);
            }
        }
        let name = var.to_owned();
        substitute_in(body, &name, replacement)
    }

    /// Rewrites the application `whole` in its function, else in its
    /// argument.
    fn reduce_inside(&self, whole: &Expr) -> (r: Option<Expr>)
        requires
            whole@ is App,
        ensures
            ({
                let function = *whole@->App_0;
                let argument = *whole@->App_1;
                let expected = step_inside(
                    step(self.bindings(), function),
                    step(self.bindings(), argument),
                    function,
                    argument,
                );
                match r {
                    Some(next) => expected == Some(next@),
                    None => expected is None,
                }
            }),
        decreases whole, 0nat,
    {
        match whole {
            Expr::App(function, argument) => {
                match self.beta_reduce(&**function) {
                    Some(next) => Some(Expr::app(next, (&**argument).clone())),
                    None => match self.beta_reduce(&**argument) {
                        Some(next) => Some(Expr::app((&**function).clone(), next)),
                        None => None,
                    },
                }
            },
            _ => None,
        }
    }

    /// One rewrite of `expr`, or `None` where `expr` is in normal form.
    pub fn beta_reduce(&self, expr: &Expr) -> (r: Option<Expr>)
        ensures
            match r {
                Some(next) => step(self.bindings(), expr@) == Some(next@),
                None => is_normal(self.bindings(), expr@),
            },
            self.well_formed() && well_formed(expr@) ==> (r matches Some(next) ==> well_formed(
                next@,
            )),
        decreases expr, 1nat,
    {
        proof {
            reveal_with_fuel(<Expr as View>::view, 4);
            if self.well_formed() && well_formed(expr@) {
                lemma_step_well_formed(self.bindings(), expr@);
            }
        }
        match expr {
            Expr::Var(name) => {
                match self.environment.get(name.as_str()) {
                    Some(value) => {
                        assert(self.bindings().contains_key(name@));
                        assert(self.bindings()[name@] == value@);
                        Some(value.clone())
                    },
                    None => {
                        assert(!self.bindings().contains_key(name@));
                        None
                    },
                }
            },
            Expr::App(function, argument) => {
                let argument: &Expr = &**argument;
                match &**function {
                    Expr::Lambda(parameter, body) => Some(
                        substitute_in(&**body, parameter, argument),
                    ),
                    Expr::S => Some(Expr::app(Expr::app(Expr::S, argument.clone()), Expr::I)),
                    Expr::K => Some(Expr::app(Expr::K, argument.clone())),
                    Expr::I => Some(argument.clone()),
                    Expr::App(inner_function, inner_argument) => {
                        match &**inner_function {
                            Expr::App(head, f) => {
                                match &**head {
                                    Expr::S => Some(
                                        Expr::app(
                                            Expr::app((&**f).clone(), argument.clone()),
                                            Expr::app((&**inner_argument).clone(), argument.clone()),
                                        ),
                                    ),
                                    _ => self.reduce_inside(expr),
                                }
                            },
                            Expr::K => Some((&**inner_argument).clone()),
                            _ => self.reduce_inside(expr),
                        }
                    },
                    Expr::Muse(name, resonance) => {
                        let mut absorbed = name.clone();
                        let text = argument.to_string();
                        absorbed.append(text.as_str());
                        Some(Expr::Muse(absorbed, boost(*resonance)))
                    },
                    Expr::Quine(inner) => Some(
                        Expr::quine(Expr::app((&**inner).clone(), argument.clone())),
                    ),
                    _ => self.reduce_inside(expr),
                }
            },
            Expr::Muse(name, resonance) => {
                if *resonance < MAX_RESONANCE {
                    Some(Expr::Muse(name.clone(), *resonance + 1))
                } else {
                    None
                }
            },
            Expr::Quine(inner) => Some((&**inner).clone()),
            _ => None,
        }
    }

    /// Rewrites `expr` until no rule applies or the budget is spent, and
    /// reports every term on the way.
    ///
    /// The number of rewrites is the least `n` such that the `n`-th term
    /// reached from `expr` is in normal form, or the budget if there is no
    /// such `n` below it. The trace counts as one in normal form only where
    /// the loop saw a term that no rule rewrites, that is where it stopped
    /// short of the budget. The engine is left as it was.
    pub fn normalize(&mut self, expr: Expr) -> (trace: ReductionTrace)
        ensures
            *final(self) == *old(self),
            trace.step_count <= old(self).max_steps,
            trace.step_count == steps_within(
                old(self).bindings(),
                expr@,
                old(self).max_steps as nat,
            ),
            runs_for(old(self).bindings(), expr@, trace.step_count as nat),
            trace.final_form@ == reduct(old(self).bindings(), expr@, trace.step_count as nat),
            trace.is_normal_form == (trace.step_count < old(self).max_steps),
            trace.is_normal_form ==> is_normal(old(self).bindings(), trace.final_form@),
            runs_for(old(self).bindings(), expr@, old(self).max_steps as nat) ==> trace.step_count
                == old(self).max_steps && !trace.is_normal_form,
            old(self).well_formed() && well_formed(expr@) ==> well_formed(trace.final_form@),
            trace.steps@.len() == trace.step_count + 1,
            forall|i: int|
                0 <= i <= trace.step_count ==> (#[trigger] trace.steps@[i])@ == render(
                    reduct(old(self).bindings(), expr@, i as nat),
                ),
    {
        let ghost env = self.bindings();
        let ghost start = expr@;
        let mut current = expr;
        let mut steps: Vec<String> = Vec::new();
        steps.push(current.to_string());
        let mut step_count: usize = 0;
        while step_count < self.max_steps
            invariant
                *self == *old(self),
                self.bindings() == env,
                step_count <= self.max_steps,
                current@ == reduct(env, start, step_count as nat),
                runs_for(env, start, step_count as nat),
                steps@.len() == step_count + 1,
                forall|i: int|
                    0 <= i <= step_count ==> (#[trigger] steps@[i])@ == render(
                        reduct(env, start, i as nat),
                    ),
            ensures
                step_count < self.max_steps ==> is_normal(env, current@),
            decreases self.max_steps - step_count,
        {
            match self.beta_reduce(&current) {
                Some(reduced) => {
                    current = reduced;
                    steps.push(current.to_string());
                    step_count += 1;
                },
                None => {
                    break ;
                },
            }
        }
        proof {
            lemma_steps_within(env, start, self.max_steps as nat, step_count as nat);
            if runs_for(env, start, self.max_steps as nat) {
                lemma_steps_within(env, start, self.max_steps as nat, self.max_steps as nat);
            }
            if self.well_formed() && well_formed(start) {
                lemma_reduct_well_formed(env, start, step_count as nat);
            }
        }
        ReductionTrace {
            steps,
            step_count,
            final_form: current,
            is_normal_form: step_count < self.max_steps,
        }
    }

    /// The poetic expression on `theme`: `((S theme) (λx.x)) 🌀`, where the
    /// theme is a muse of `resonance` thousandths, one thousand at most.
    pub fn generate_poetry(&self, theme: &str, resonance: u32) -> (r: Expr)
        ensures
            r@ == poetry(theme@, capped(resonance as nat)),
    {
        let muse = Expr::muse(theme, resonance);
        let inspiration = Expr::app(Expr::S, muse);
        let creativity = Expr::app(inspiration, Expr::lambda("x", Expr::var("x")));
        Expr::app(creativity, Expr::sym("🌀"))
    }

    /// The self-referential skeleton built around the symbol `seed`.
    pub fn create_quine(&self, seed: &str) -> (r: Expr)
        ensures
            r@ == quine_of(seed@),
    {
        let self_ref = Expr::lambda("x", Expr::app(Expr::var("x"), Expr::var("x")));
        let quine_body = Expr::app(
            self_ref,
            Expr::lambda("y", Expr::app(Expr::sym(seed), Expr::var("y"))),
        );
        Expr::quine(quine_body)
    }
}

impl Default for LambdaEngine {
    /// The engine that [`LambdaEngine::new`] makes.
    fn default() -> (engine: LambdaEngine)
        ensures
            engine.max_steps == DEFAULT_MAX_STEPS,
            engine.bindings() == Map::<Seq<char>, Term>::empty(),
            engine.well_formed(),
    {
        LambdaEngine::new()
    }
}

} // verus!
