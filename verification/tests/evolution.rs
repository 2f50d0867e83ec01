use lambda_calculus_core::{Draw, Expr, LambdaEngine};

const ALTERNATIVES: [&str; 6] = ["🌀", "🎭", "🧬", "🌟", "💫", "🔮"];

fn draw(trial: u32) -> Draw {
    Draw { trial, delta: 0, symbol: 0, left: false }
}

#[test]
fn zero_rate_returns_the_input() {
    let engine = LambdaEngine::new();
    let terms = vec![
        Expr::muse("x", 500),
        Expr::sym("s"),
        Expr::app(Expr::sym("a"), Expr::muse("b", 1)),
        Expr::y_combinator(),
        Expr::dna(vec![1]),
    ];
    for term in &terms {
        for _ in 0..50 {
            assert_eq!(&engine.evolve(term, 0), term);
        }
        let forced = vec![Draw { trial: 0, delta: 100, symbol: 3, left: true }; 4];
        assert_eq!(&engine.evolve_with(term, 0, &forced), term);
    }
}

#[test]
fn full_rate_moves_a_muse_by_at_most_a_hundred() {
    let engine = LambdaEngine::new();
    let muse = Expr::muse("x", 500);
    for _ in 0..500 {
        match engine.evolve(&muse, 1000) {
            Expr::Muse(name, resonance) => {
                assert_eq!(name, "x");
                assert!((400..=600).contains(&resonance));
            }
            other => panic!("expected a muse, got {:?}", other),
        }
    }
}

#[test]
fn full_rate_keeps_a_muse_within_bounds() {
    let engine = LambdaEngine::new();
    for _ in 0..300 {
        let high = engine.evolve(&Expr::muse("x", 990), 1000).get_resonance();
        assert!((890..=1000).contains(&high));
        let low = engine.evolve(&Expr::muse("x", 10), 1000).get_resonance();
        assert!(low <= 110);
    }
}

#[test]
fn full_rate_replaces_a_symbol_by_an_alternative() {
    let engine = LambdaEngine::new();
    for _ in 0..200 {
        match engine.evolve(&Expr::sym("plain"), 1000) {
            Expr::Sym(text) => assert!(ALTERNATIVES.contains(&text.as_str())),
            other => panic!("expected a symbol, got {:?}", other),
        }
    }
}

#[test]
fn full_rate_touches_one_operand_only() {
    let engine = LambdaEngine::new();
    let left = Expr::sym("left");
    let right = Expr::sym("right");
    let term = Expr::app(left.clone(), right.clone());
    for _ in 0..200 {
        match engine.evolve(&term, 1000) {
            Expr::App(f, a) => assert!(*f == left || *a == right),
            other => panic!("expected an application, got {:?}", other),
        }
    }
}

#[test]
fn random_mutation_leaves_other_variants_alone() {
    let engine = LambdaEngine::new();
    let terms = vec![
        Expr::var("v"),
        Expr::lambda("x", Expr::sym("s")),
        Expr::S,
        Expr::K,
        Expr::I,
        Expr::quine(Expr::muse("m", 3)),
        Expr::dna(vec![4, 5]),
    ];
    for term in &terms {
        for _ in 0..20 {
            assert_eq!(&engine.evolve(term, 1000), term);
        }
    }
}

#[test]
fn muse_is_moved_by_the_drawn_delta() {
    let engine = LambdaEngine::new();
    let muse = Expr::muse("x", 500);
    let with = |delta: i32| {
        let draws = vec![Draw { trial: 0, delta, symbol: 0, left: false }];
        engine.evolve_with(&muse, 1000, &draws)
    };
    assert_eq!(with(-100), Expr::muse("x", 400));
    assert_eq!(with(100), Expr::muse("x", 600));
    assert_eq!(with(0), Expr::muse("x", 500));
    assert_eq!(with(37), Expr::muse("x", 537));
}

#[test]
fn moved_resonance_is_clamped() {
    let engine = LambdaEngine::new();
    let with = |resonance: u32, delta: i32| {
        let draws = vec![Draw { trial: 0, delta, symbol: 0, left: false }];
        engine
            .evolve_with(&Expr::muse("x", resonance), 1000, &draws)
            .get_resonance()
    };
    assert_eq!(with(950, 100), 1000);
    assert_eq!(with(1000, 1), 1000);
    assert_eq!(with(50, -100), 0);
    assert_eq!(with(0, -1), 0);
    assert_eq!(with(0, i32::MIN), 0);
    assert_eq!(with(1000, i32::MAX), 1000);
    assert_eq!(with(100, -100), 0);
    assert_eq!(with(900, 100), 1000);
}

#[test]
fn symbol_is_replaced_by_the_drawn_alternative() {
    let engine = LambdaEngine::new();
    for (index, expected) in ALTERNATIVES.iter().enumerate() {
        let draws = vec![Draw { trial: 999, delta: 0, symbol: index as u32, left: false }];
        assert_eq!(
            engine.evolve_with(&Expr::sym("plain"), 1000, &draws),
            Expr::sym(expected)
        );
    }
    let draws = vec![Draw { trial: 0, delta: 0, symbol: 8, left: false }];
    assert_eq!(
        engine.evolve_with(&Expr::sym("plain"), 1000, &draws),
        Expr::sym("🧬")
    );
}

#[test]
fn trial_decides_whether_the_term_is_mutated() {
    let engine = LambdaEngine::new();
    let muse = Expr::muse("x", 500);
    let with = |trial: u32, rate: u32| {
        let draws = vec![Draw { trial, delta: 50, symbol: 0, left: false }];
        engine.evolve_with(&muse, rate, &draws).get_resonance()
    };
    assert_eq!(with(299, 300), 550);
    assert_eq!(with(300, 300), 500);
    assert_eq!(with(0, 1), 550);
    assert_eq!(with(999, 1000), 550);
    assert_eq!(with(999, 999), 500);
}

#[test]
fn application_is_mutated_in_the_drawn_operand_at_half_rate() {
    let engine = LambdaEngine::new();
    let term = Expr::app(Expr::sym("a"), Expr::muse("b", 500));

    let go_left = Draw { trial: 0, delta: 0, symbol: 0, left: true };
    let go_right = Draw { trial: 0, delta: 0, symbol: 0, left: false };

    let hit = Draw { trial: 499, delta: -20, symbol: 1, left: false };
    let miss = Draw { trial: 500, delta: -20, symbol: 1, left: false };

    assert_eq!(
        engine.evolve_with(&term, 1000, &vec![go_left, hit]),
        Expr::app(Expr::sym("🎭"), Expr::muse("b", 500))
    );
    assert_eq!(
        engine.evolve_with(&term, 1000, &vec![go_right, hit]),
        Expr::app(Expr::sym("a"), Expr::muse("b", 480))
    );
    assert_eq!(engine.evolve_with(&term, 1000, &vec![go_left, miss]), term);
    assert_eq!(engine.evolve_with(&term, 1000, &vec![go_right, miss]), term);
}

#[test]
fn rate_is_halved_at_every_level() {
    let engine = LambdaEngine::new();
    let term = Expr::app(
        Expr::app(Expr::app(Expr::sym("deep"), Expr::I), Expr::I),
        Expr::I,
    );
    let descend = |trial: u32| Draw { trial, delta: 0, symbol: 0, left: true };
    let leaf = |trial: u32| Draw { trial, delta: 0, symbol: 5, left: false };
    let mutated = Expr::app(
        Expr::app(Expr::app(Expr::sym("🔮"), Expr::I), Expr::I),
        Expr::I,
    );
    assert_eq!(
        engine.evolve_with(&term, 1000, &vec![descend(999), descend(499), descend(249), leaf(124)]),
        mutated
    );
    assert_eq!(
        engine.evolve_with(&term, 1000, &vec![descend(999), descend(499), descend(249), leaf(125)]),
        term
    );
    assert_eq!(
        engine.evolve_with(&term, 1000, &vec![descend(999), descend(499), descend(250), leaf(0)]),
        term
    );
    assert_eq!(
        engine.evolve_with(&term, 125, &vec![descend(0), descend(0), descend(0), leaf(14)]),
        mutated
    );
    assert_eq!(
        engine.evolve_with(&term, 125, &vec![descend(0), descend(0), descend(0), leaf(15)]),
        term
    );
}

#[test]
fn mutation_stops_where_the_draws_run_out() {
    let engine = LambdaEngine::new();
    let term = Expr::app(Expr::sym("a"), Expr::sym("b"));
    assert_eq!(engine.evolve_with(&term, 1000, &vec![]), term);
    let go_left = Draw { trial: 0, delta: 0, symbol: 0, left: true };
    assert_eq!(engine.evolve_with(&term, 1000, &vec![go_left]), term);
    assert_eq!(
        engine.evolve_with(&Expr::muse("m", 1), 1000, &vec![]),
        Expr::muse("m", 1)
    );
}

#[test]
fn inert_variants_ignore_the_draws() {
    let engine = LambdaEngine::new();
    let terms = vec![
        Expr::var("v"),
        Expr::lambda("x", Expr::sym("s")),
        Expr::S,
        Expr::quine(Expr::sym("s")),
        Expr::dna(vec![1]),
    ];
    for term in &terms {
        assert_eq!(&engine.evolve_with(term, 1000, &vec![draw(0), draw(0)]), term);
    }
}

#[test]
fn random_mutation_of_a_deep_term_keeps_its_shape() {
    let engine = LambdaEngine::new();
    let term = Expr::app(
        Expr::app(Expr::muse("a", 500), Expr::sym("b")),
        Expr::app(Expr::sym("c"), Expr::muse("d", 500)),
    );
    for _ in 0..200 {
        match engine.evolve(&term, 700) {
            Expr::App(f, a) => match (*f, *a) {
                (Expr::App(ff, fa), Expr::App(af, aa)) => {
                    assert!(matches!(*ff, Expr::Muse(_, _)));
                    assert!(matches!(*fa, Expr::Sym(_)));
                    assert!(matches!(*af, Expr::Sym(_)));
                    assert!(matches!(*aa, Expr::Muse(_, _)));
                }
                other => panic!("shape changed: {:?}", other),
            },
            other => panic!("shape changed: {:?}", other),
        }
    }
}
