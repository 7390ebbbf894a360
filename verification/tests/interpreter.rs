use lisp_rs::env::Env;
use lisp_rs::error::LispError;
use lisp_rs::eval::eval_str;
use lisp_rs::exp::LispExp;
use lisp_rs::lexer::{tokenize, Token};
use lisp_rs::parser::parse;

#[test]
fn lexer_test_simple() {
    let tokens = tokenize("(+ 1 2)").unwrap();
    assert_eq!(
        tokens,
        vec![
            Token::LParen,
            Token::Symbol("+".into()),
            Token::Number(1.0f64.to_bits()),
            Token::Number(2.0f64.to_bits()),
            Token::RParen
        ]
    )
}

#[test]
fn test_complex() {
    let tokens = tokenize(
        "(
                (define r 10)
                (define pi 3.14)
                (* pi (* r r))
        )",
    )
    .unwrap();
    assert_eq!(
        tokens,
        vec![
            Token::LParen,
            Token::LParen,
            Token::Symbol("define".into()),
            Token::Symbol("r".into()),
            Token::Number(10.0f64.to_bits()),
            Token::RParen,
            Token::LParen,
            Token::Symbol("define".into()),
            Token::Symbol("pi".into()),
            Token::Number(3.14f64.to_bits()),
            Token::RParen,
            Token::LParen,
            Token::Symbol("*".into()),
            Token::Symbol("pi".into()),
            Token::LParen,
            Token::Symbol("*".into()),
            Token::Symbol("r".into()),
            Token::Symbol("r".into()),
            Token::RParen,
            Token::RParen,
            Token::RParen
        ]
    )
}

#[test]
fn parser_test_simple() {
    let tokens = tokenize("(+ 1 2)").unwrap();
    let exp = parse(tokens).unwrap();
    assert_eq!(
        exp,
        vec![LispExp::List(vec![
            LispExp::Symbol("+".into()),
            LispExp::Number(1.0f64.to_bits()),
            LispExp::Number(2.0f64.to_bits())
        ])]
    );
}

#[test]
fn test_lambda() {
    let tokens = tokenize("(lambda (a) (+ a 1))").unwrap();
    let exp = parse(tokens).unwrap();
    assert_eq!(exp.len(), 1);
}

#[test]
fn eval_test_simple() {
    assert_eq!(
        eval_str("(+ 2 2)", &mut Env::new()),
        Ok(LispExp::Number(4.0f64.to_bits()))
    );
    assert_eq!(
        eval_str("(+ 2 (- 5 1))", &mut Env::new()),
        Ok(LispExp::Number(6.0f64.to_bits()))
    );
    assert_eq!(
        eval_str("(* 2 (/ 5 1))", &mut Env::new()),
        Ok(LispExp::Number(10.0f64.to_bits()))
    );
    assert_eq!(
        eval_str("((lambda (a) (+ a 1)) 10)", &mut Env::new()),
        Ok(LispExp::Number(11.0f64.to_bits()))
    );
    assert_eq!(
        eval_str(
            "
            (define a 1)
            (+ a 5)
        ",
            &mut Env::new()
        ),
        Ok(LispExp::Number(6.0f64.to_bits()))
    );
}

#[test]
fn parse_stray_close_paren() {
    let tokens = tokenize(")(").unwrap();
    assert!(matches!(parse(tokens), Err(LispError::Parser(_))));
}

#[test]
fn parse_unclosed_paren() {
    let tokens = tokenize("(( )").unwrap();
    assert!(matches!(parse(tokens), Err(LispError::Parser(_))));
}

#[test]
fn define_then_reference() {
    let mut env = Env::new();
    assert_eq!(
        eval_str("(define a 1) (+ a 5)", &mut env),
        Ok(LispExp::Number(6.0f64.to_bits()))
    );
}

#[test]
fn lambda_param_shadows_outer() {
    let mut env = Env::new();
    assert_eq!(
        eval_str("(define a 1) (+ ((lambda (a) (+ a 10)) 5) a)", &mut env),
        Ok(LispExp::Number(16.0f64.to_bits()))
    );
    assert_eq!(
        eval_str("(+ a 0)", &mut env),
        Ok(LispExp::Number(1.0f64.to_bits()))
    );
}

#[test]
fn lambda_arity_error() {
    assert!(matches!(
        eval_str("((lambda (a b) (+ a b)) 1)", &mut Env::new()),
        Err(LispError::Eval(_))
    ));
}

#[test]
fn apply_non_procedure_error() {
    assert!(matches!(
        eval_str("(1 2)", &mut Env::new()),
        Err(LispError::Eval(_))
    ));
}

#[test]
fn undefined_variable_error() {
    assert!(matches!(
        eval_str("x", &mut Env::new()),
        Err(LispError::Eval(_))
    ));
}

#[test]
fn define_binds_literal_form() {
    let mut env = Env::new();
    let r = eval_str("(define a (+ 1 2)) a", &mut env).unwrap();
    assert_eq!(
        r,
        LispExp::List(vec![
            LispExp::Symbol("+".into()),
            LispExp::Number(1.0f64.to_bits()),
            LispExp::Number(2.0f64.to_bits())
        ])
    );
}

#[test]
fn bool_literals() {
    assert_eq!(eval_str("true", &mut Env::new()), Ok(LispExp::Bool(true)));
    assert_eq!(eval_str("false", &mut Env::new()), Ok(LispExp::Bool(false)));
}

#[test]
fn empty_input_error() {
    assert!(matches!(
        eval_str("", &mut Env::new()),
        Err(LispError::Eval(_))
    ));
}

#[test]
fn division_by_zero_is_infinity() {
    assert_eq!(
        eval_str("(/ 1 0)", &mut Env::new()),
        Ok(LispExp::Number(f64::INFINITY.to_bits()))
    );
}

#[test]
fn number_literal_forms() {
    let tokens = tokenize("-2.5e3").unwrap();
    assert_eq!(tokens, vec![Token::Number((-2500.0f64).to_bits())]);
}

#[test]
fn newline_vanishes_inside_run() {
    let tokens = tokenize("a\nb").unwrap();
    assert_eq!(tokens, vec![Token::Symbol("ab".into())]);
}

#[test]
fn closure_sees_snapshot_only() {
    let mut env = Env::new();
    eval_str("(define (f) b)", &mut env).unwrap();
    eval_str("(define b 7)", &mut env).unwrap();
    assert!(matches!(eval_str("(f)", &mut env), Err(LispError::Eval(_))));
}

#[test]
fn exp_helpers() {
    let two = 2.0f64.to_bits();
    assert_eq!(
        LispExp::Number(two).as_list(),
        LispExp::List(vec![LispExp::Number(two)])
    );
    assert_eq!(LispExp::Number(two).expect_number(), Ok(two));
    assert!(matches!(
        LispExp::Bool(true).expect_number(),
        Err(LispError::Eval(_))
    ));
    assert_eq!(LispExp::Symbol("x".into()).expect_symbol(), Ok("x".to_string()));
    assert!(matches!(
        LispExp::Bool(true).expect_list(),
        Err(LispError::Eval(_))
    ));
    let l = LispExp::List(vec![LispExp::Bool(false)]);
    assert_eq!(l.expect_list(), Ok(&vec![LispExp::Bool(false)]));
}

#[test]
fn env_scoping() {
    let mut root = Env::new();
    let one = 1.0f64.to_bits();
    let two = 2.0f64.to_bits();
    root.assign("x", LispExp::Number(one));
    assert_eq!(root.lookup("x"), Some(LispExp::Number(one)));
    let mut child = Env::extend(root);
    assert_eq!(child.lookup("x"), Some(LispExp::Number(one)));
    child.assign("x", LispExp::Number(two));
    assert_eq!(child.lookup("x"), Some(LispExp::Number(two)));
    assert_eq!(child.lookup("nothing"), None);
}

#[test]
fn error_message_format() {
    assert_eq!(
        LispError::Eval("boom".into()).message(),
        "Eval error: `boom`"
    );
    assert_eq!(
        LispError::Parser("unclosed left paren".into()).message(),
        "Parser error: `unclosed left paren`"
    );
}
