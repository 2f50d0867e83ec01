use lambda_calculus_core::engine::DEFAULT_MAX_STEPS;
use lambda_calculus_core::{Expr, ExprBuilder, LambdaEngine};

#[test]
fn constructors_build_their_variants() {
    assert_eq!(Expr::var("x"), Expr::Var("x".to_string()));
    assert_eq!(Expr::sym("s"), Expr::Sym("s".to_string()));
    assert_eq!(
        Expr::lambda("x", Expr::I),
        Expr::Lambda("x".to_string(), Box::new(Expr::I))
    );
    assert_eq!(
        Expr::app(Expr::S, Expr::K),
        Expr::App(Box::new(Expr::S), Box::new(Expr::K))
    );
    assert_eq!(Expr::quine(Expr::I), Expr::Quine(Box::new(Expr::I)));
    assert_eq!(Expr::dna(vec![1, 2, 3]), Expr::DNA(vec![1, 2, 3]));
    assert_eq!(Expr::muse("m", 12), Expr::Muse("m".to_string(), 12));
}

#[test]
fn muse_resonance_is_capped_at_a_thousand() {
    assert_eq!(Expr::muse("m", 1000), Expr::Muse("m".to_string(), 1000));
    assert_eq!(Expr::muse("m", 1001), Expr::Muse("m".to_string(), 1000));
    assert_eq!(Expr::muse("m", u32::MAX), Expr::Muse("m".to_string(), 1000));
}

#[test]
fn resonance_is_read_from_a_muse_only() {
    assert_eq!(Expr::muse("m", 321).get_resonance(), 321);
    assert_eq!(Expr::sym("m").get_resonance(), 0);
    assert_eq!(Expr::app(Expr::muse("m", 321), Expr::I).get_resonance(), 0);
    assert_eq!(Expr::quine(Expr::muse("m", 321)).get_resonance(), 0);
}

#[test]
fn clone_is_equal_to_its_source() {
    let term = Expr::app(
        Expr::lambda("x", Expr::quine(Expr::muse("m", 5))),
        Expr::app(Expr::dna(vec![9, 8]), Expr::sym("s")),
    );
    assert_eq!(term.clone(), term);
}

#[test]
fn y_combinator_has_two_equal_halves() {
    let half = Expr::lambda(
        "x",
        Expr::app(Expr::var("f"), Expr::app(Expr::var("x"), Expr::var("x"))),
    );
    let expected = Expr::lambda("f", Expr::app(half.clone(), half));
    assert_eq!(Expr::y_combinator(), expected);
}

#[test]
fn metameme_combinator_is_s_ks_k() {
    let expected = Expr::app(
        Expr::app(Expr::S, Expr::app(Expr::K, Expr::S)),
        Expr::K,
    );
    assert_eq!(Expr::metameme_combinator(), expected);
}

#[test]
fn solfunmeme_is_built_from_three_muses() {
    let expected = Expr::app(
        Expr::app(Expr::S, Expr::Muse("Sol".to_string(), 970)),
        Expr::app(
            Expr::app(Expr::S, Expr::Muse("Fun".to_string(), 950)),
            Expr::Muse("Meme".to_string(), 990),
        ),
    );
    assert_eq!(Expr::solfunmeme(), expected);
}

#[test]
fn created_quine_has_the_self_application_shape() {
    let engine = LambdaEngine::new();
    let self_application = Expr::lambda("x", Expr::app(Expr::var("x"), Expr::var("x")));
    let seeded = Expr::lambda("y", Expr::app(Expr::sym("seed"), Expr::var("y")));
    let expected = Expr::quine(Expr::app(self_application, seeded));
    assert_eq!(engine.create_quine("seed"), expected);
}

#[test]
fn poetry_is_built_around_a_capped_muse() {
    let engine = LambdaEngine::new();
    let expected = |resonance: u32| {
        Expr::app(
            Expr::app(
                Expr::app(Expr::S, Expr::Muse("t".to_string(), resonance)),
                Expr::lambda("x", Expr::var("x")),
            ),
            Expr::sym("🌀"),
        )
    };
    assert_eq!(engine.generate_poetry("t", 700), expected(700));
    assert_eq!(engine.generate_poetry("t", 7000), expected(1000));
}

#[test]
fn new_engine_has_the_default_budget_and_no_bindings() {
    let engine = LambdaEngine::new();
    assert_eq!(engine.max_steps, 1000);
    assert_eq!(engine.max_steps, DEFAULT_MAX_STEPS);
    assert!(engine.environment.is_empty());
    let engine = LambdaEngine::default();
    assert_eq!(engine.max_steps, 1000);
    assert!(engine.environment.is_empty());
}

#[test]
fn budget_can_be_configured() {
    let mut engine = LambdaEngine::new();
    engine.bind("x", Expr::I);
    let engine = engine.with_max_steps(3);
    assert_eq!(engine.max_steps, 3);
    assert_eq!(engine.environment.len(), 1);
    assert_eq!(engine.beta_reduce(&Expr::var("x")), Some(Expr::I));
}

#[test]
fn bind_adds_to_the_environment() {
    let mut engine = LambdaEngine::new();
    engine.bind("a", Expr::S);
    engine.bind("b", Expr::K);
    engine.bind("a", Expr::I);
    assert_eq!(engine.environment.len(), 2);
    assert_eq!(engine.environment.get("a"), Some(&Expr::I));
    assert_eq!(engine.environment.get("b"), Some(&Expr::K));
    assert_eq!(engine.environment.get("c"), None);
}

#[test]
fn builder_starts_from_identity() {
    assert_eq!(ExprBuilder::new().build(), Expr::I);
    assert_eq!(ExprBuilder::default().build(), Expr::I);
}

#[test]
fn builder_wraps_what_it_holds() {
    assert_eq!(ExprBuilder::var("x").build(), Expr::var("x"));
    assert_eq!(
        ExprBuilder::muse("m", 2000).build(),
        Expr::Muse("m".to_string(), 1000)
    );
    assert_eq!(
        ExprBuilder::var("x").lambda("y").build(),
        Expr::lambda("y", Expr::var("x"))
    );
    assert_eq!(
        ExprBuilder::new().app(Expr::K).app(Expr::S).build(),
        Expr::app(Expr::app(Expr::I, Expr::K), Expr::S)
    );
}

#[test]
fn equal_expressions_denote_the_same_term() {
    let build = || {
        Expr::app(
            Expr::lambda("x", Expr::quine(Expr::muse("m", 5))),
            Expr::app(Expr::dna(vec![9, 8]), Expr::sym("s")),
        )
    };
    assert!(build() == build());
    assert!(Expr::S == Expr::S);
    assert!(Expr::dna(vec![]) == Expr::dna(vec![]));
}

#[test]
fn different_expressions_are_unequal() {
    assert!(Expr::var("x") != Expr::sym("x"));
    assert!(Expr::var("x") != Expr::var("y"));
    assert!(Expr::S != Expr::K);
    assert!(Expr::K != Expr::I);
    assert!(Expr::muse("m", 1) != Expr::muse("m", 2));
    assert!(Expr::muse("m", 1) != Expr::muse("n", 1));
    assert!(Expr::dna(vec![1, 2]) != Expr::dna(vec![1, 3]));
    assert!(Expr::dna(vec![1, 2]) != Expr::dna(vec![1]));
    assert!(Expr::quine(Expr::S) != Expr::S);
    assert!(Expr::quine(Expr::S) != Expr::quine(Expr::K));
    assert!(Expr::lambda("x", Expr::I) != Expr::lambda("y", Expr::I));
    assert!(Expr::lambda("x", Expr::I) != Expr::lambda("x", Expr::K));
    assert!(Expr::app(Expr::S, Expr::K) != Expr::app(Expr::K, Expr::S));
    assert!(Expr::app(Expr::S, Expr::K) != Expr::app(Expr::S, Expr::I));
}
