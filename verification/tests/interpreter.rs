use whist_lang::{Decl, InterpreterErr, Primitive, Stm, SyntaxContext, WsToken};

fn run_src(ctx: &mut SyntaxContext, src: &str) -> Result<Option<whist_lang::Expr>, InterpreterErr> {
    ctx.push(src).expect("source should lex");
    let stms = Stm::scan(ctx, Vec::new(), WsToken::Eof).expect("source should parse");
    Stm::run(ctx, &Decl::Closure(stms))
}

#[test]
fn arithmetic_chain_is_left_associative() {
    let mut ctx = SyntaxContext::with_seed(7);
    run_src(&mut ctx, "tell -> 5 - 2 - 1 ;").unwrap();
    assert!(matches!(ctx.output()[0], Primitive::Int(2)));
}

#[test]
fn arithmetic_binops() {
    let mut ctx = SyntaxContext::with_seed(7);
    run_src(&mut ctx, "tell -> 4 + 3 ; tell -> 4 * 3 ; tell -> 9 / 2 ; tell -> -7 / 2 ;").unwrap();
    assert!(matches!(ctx.output()[0], Primitive::Int(7)));
    assert!(matches!(ctx.output()[1], Primitive::Int(12)));
    assert!(matches!(ctx.output()[2], Primitive::Int(4)));
    assert!(matches!(ctx.output()[3], Primitive::Int(-3)));
}

#[test]
fn comparator_table_is_inverted_for_gt_and_ge() {
    let mut ctx = SyntaxContext::with_seed(7);
    run_src(&mut ctx, "tell -> 5 > 5 ; tell -> 5 >= 5 ; tell -> 5 = 5 ; tell -> 5 /= 5 ;")
        .unwrap();
    assert!(matches!(ctx.output()[0], Primitive::Bool(true)));
    assert!(matches!(ctx.output()[1], Primitive::Bool(false)));
    assert!(matches!(ctx.output()[2], Primitive::Bool(true)));
    assert!(matches!(ctx.output()[3], Primitive::Bool(false)));
}

#[test]
fn dice_sum_stays_in_range() {
    let mut ctx = SyntaxContext::with_seed(42);
    run_src(&mut ctx, "tell -> 3 d 6 ;").unwrap();
    match ctx.output()[0] {
        Primitive::Int(s) => assert!(3 <= s && s <= 18),
        _ => panic!("dice sum should be an integer"),
    }
}

#[test]
fn dice_success_count_stays_in_range() {
    let mut ctx = SyntaxContext::with_seed(42);
    run_src(&mut ctx, "tell -> 3 d 6 : >= 4 ;").unwrap();
    match ctx.output()[0] {
        Primitive::Int(c) => assert!(0 <= c && c <= 3),
        _ => panic!("dice count should be an integer"),
    }
}

#[test]
fn dice_runs_are_reproducible_from_a_seed() {
    let mut a = SyntaxContext::with_seed(99);
    let mut b = SyntaxContext::with_seed(99);
    run_src(&mut a, "tell -> 5 d 20 ;").unwrap();
    run_src(&mut b, "tell -> 5 d 20 ;").unwrap();
    match (&a.output()[0], &b.output()[0]) {
        (Primitive::Int(x), Primitive::Int(y)) => assert_eq!(x, y),
        _ => panic!("dice sums should be integers"),
    }
}

#[test]
fn register_round_trip_and_unbind() {
    let mut ctx = SyntaxContext::with_seed(7);
    run_src(&mut ctx, "let [ x ] <- 5 ; tell -> integer [ x ] ;").unwrap();
    assert!(matches!(ctx.output()[0], Primitive::Int(5)));
    let r = run_src(&mut ctx, "set [ x ] <- ... ; tell -> integer [ x ] ;");
    match r {
        Err(InterpreterErr::UninitReg(name)) => assert_eq!(name, b"x".to_vec()),
        other => panic!("reading an unbound register should fail, got {:?}", other),
    }
}

#[test]
fn set_of_unbound_register_fails() {
    let mut ctx = SyntaxContext::with_seed(7);
    let r = run_src(&mut ctx, "set [ y ] <- 1 ;");
    assert!(matches!(r, Err(InterpreterErr::UninitReg(_))));
}

#[test]
fn block_returns_early_at_first_out() {
    let mut ctx = SyntaxContext::with_seed(7);
    let r = run_src(&mut ctx, "tell -> 1 ; out -> 2 ; tell -> 3 ;").unwrap();
    assert!(r.is_some());
    assert_eq!(ctx.output().len(), 1);
    assert!(matches!(ctx.output()[0], Primitive::Int(1)));
}

#[test]
fn while_loop_discards_out_and_runs_to_condition_false() {
    let mut ctx = SyntaxContext::with_seed(7);
    run_src(
        &mut ctx,
        "let [ x ] <- 0 ; while | integer [ x ] < 3 | : set [ x ] <- integer [ x ] + 1 ; out -> 9 ; >>>> tell -> integer [ x ] ;",
    )
    .unwrap();
    assert!(matches!(ctx.output()[0], Primitive::Int(3)));
}

#[test]
fn reevaluating_a_pure_literal_changes_nothing() {
    let mut ctx = SyntaxContext::with_seed(7);
    run_src(&mut ctx, "tell -> 7 ; tell -> 7 ;").unwrap();
    assert!(matches!(ctx.output()[0], Primitive::Int(7)));
    assert!(matches!(ctx.output()[1], Primitive::Int(7)));
}

#[test]
fn define_binds_a_deferred_procedure() {
    let mut ctx = SyntaxContext::with_seed(7);
    run_src(&mut ctx, "define [ f ] <- 41 + 1 ; tell -> integer [ f ] ;").unwrap();
    assert!(matches!(ctx.output()[0], Primitive::Int(42)));
}

#[test]
fn if_runs_its_body_only_when_true() {
    let mut ctx = SyntaxContext::with_seed(7);
    run_src(&mut ctx, "if | 1 < 2 | -> 10 ; if | 2 < 1 | -> 11 ;").unwrap();
    assert_eq!(ctx.output().len(), 0);
}

#[test]
fn division_by_zero_is_reported() {
    let mut ctx = SyntaxContext::with_seed(7);
    let r = run_src(&mut ctx, "tell -> 1 / 0 ;");
    assert!(matches!(r, Err(InterpreterErr::DivisionByZero)));
}

#[test]
fn overflow_is_reported() {
    let mut ctx = SyntaxContext::with_seed(7);
    let r = run_src(&mut ctx, "tell -> 32767 + 1 ;");
    assert!(matches!(r, Err(InterpreterErr::Overflow)));
}

#[test]
fn boolean_reading_of_arithmetic() {
    let mut ctx = SyntaxContext::with_seed(7);
    run_src(&mut ctx, "let [ x ] <- 1 ; if | integer [ x ] | -> 5 ;").unwrap();
}

#[test]
fn unknown_word_is_a_lex_fault() {
    let mut ctx = SyntaxContext::with_seed(7);
    assert!(ctx.push("tell -> @@ ;").is_err());
}

#[test]
fn comments_are_stripped() {
    let mut ctx = SyntaxContext::with_seed(7);
    run_src(&mut ctx, "~ a remark\ntell -> 1 ; # a note # tell -> 2 ;").unwrap();
    assert_eq!(ctx.output().len(), 2);
}

#[test]
fn void_literal_reads_as_zero() {
    let mut ctx = SyntaxContext::with_seed(7);
    run_src(&mut ctx, "tell -> 3 + ... ;").unwrap();
    assert!(matches!(ctx.output()[0], Primitive::Int(3)));
}
