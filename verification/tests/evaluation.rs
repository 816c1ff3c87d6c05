use std::sync::Arc;

use minilisp::{
    car, cdr, cons, eval, eval_within, lambda, parse, quote, to_string, Cell, Error, Func,
    FuncBody, Lambda, Macro, NativeFunction, NativeSpecial, Scope, SpecialForm, Value,
    DEPTH_LIMIT,
};

fn sym(name: &str) -> Arc<Value> {
    Value::from_name(name)
}

fn run(scope: &Arc<Scope>, input: &str) -> Result<String, Error> {
    let value = parse(input)?;
    let result = eval(scope, &value)?;
    Ok(to_string(&result))
}

fn with(parent: &Arc<Scope>, bindings: Vec<(&str, Arc<Value>)>) -> Arc<Scope> {
    parent.new_child(
        bindings
            .into_iter()
            .map(|(name, value)| (name.to_string(), value))
            .collect(),
    )
}

#[test]
fn atoms_evaluate_to_themselves() {
    let scope = Scope::builtin();
    assert_eq!(run(&scope, "()").unwrap(), "nil");
    let function = Func::from_native("cons", NativeFunction::Cons);
    assert!(Arc::ptr_eq(&eval(&scope, &function).unwrap(), &function));
    let special = SpecialForm::from_native("quote", 1, NativeSpecial::Quote);
    assert!(Arc::ptr_eq(&eval(&scope, &special).unwrap(), &special));
}

#[test]
fn symbols_evaluate_by_lookup() {
    let scope = with(&Scope::builtin(), vec![("x", sym("one"))]);
    assert_eq!(run(&scope, "x").unwrap(), "one");
    assert_eq!(run(&scope, "cons").unwrap(), "#func");
    assert_eq!(run(&scope, "quote").unwrap(), "#special_form");
}

#[test]
fn quoting_suppresses_evaluation() {
    let scope = Scope::builtin();
    assert_eq!(eval(&scope, &parse("(quote a)").unwrap()).unwrap(), sym("a"));
    assert_eq!(run(&scope, "'(a b)").unwrap(), "(a b)");
    assert_eq!(run(&scope, "(quote (a b))").unwrap(), "(a b)");
    assert_eq!(run(&scope, "''a").unwrap(), "'a");
    assert_eq!(run(&scope, "(quote 'a)").unwrap(), "'a");
}

#[test]
fn quoted_literal_is_shared_not_copied() {
    let scope = Scope::builtin();
    let inner = parse("(a b)").unwrap();
    let quoted = Arc::new(Value::Quoted(inner.clone()));
    let first = eval(&scope, &quoted).unwrap();
    let second = eval(&scope, &quoted).unwrap();
    assert!(Arc::ptr_eq(&first, &inner));
    assert!(Arc::ptr_eq(&second, &inner));
}

#[test]
fn primitives_build_and_project_cells() {
    let scope = Scope::builtin();
    assert_eq!(run(&scope, "(cons 'a 'b)").unwrap(), "(a . b)");
    assert_eq!(run(&scope, "(cons 'a '(b c))").unwrap(), "(a b c)");
    assert_eq!(run(&scope, "(cons 'a ())").unwrap(), "(a)");
    assert_eq!(run(&scope, "(car '(a b c))").unwrap(), "a");
    assert_eq!(run(&scope, "(cdr '(a b c))").unwrap(), "(b c)");
    assert_eq!(run(&scope, "(cdr '(a))").unwrap(), "nil");
    assert_eq!(run(&scope, "(car (cdr '(a b c)))").unwrap(), "b");
}

#[test]
fn car_arity_and_unbound_name() {
    let scope = Scope::builtin();
    assert!(matches!(run(&scope, "(car)"), Err(Error::ArityError)));
    assert!(matches!(run(&scope, "(car '(a) '(b))"), Err(Error::ArityError)));
    assert!(matches!(run(&scope, "(cdr)"), Err(Error::ArityError)));
    assert!(matches!(run(&scope, "(cons 'a)"), Err(Error::ArityError)));
    assert!(matches!(run(&scope, "(cons 'a 'b 'c)"), Err(Error::ArityError)));
    assert!(matches!(run(&scope, "(quote)"), Err(Error::ArityError)));
    assert!(matches!(run(&scope, "(quote a b)"), Err(Error::ArityError)));
    assert!(matches!(run(&scope, "(lambda (x))"), Err(Error::ArityError)));
    match run(&scope, "(nosuch 'a)") {
        Err(Error::NotFoundError(name)) => assert_eq!(name, "nosuch"),
        other => panic!("{:?}", other),
    }
    match run(&scope, "nosuch") {
        Err(Error::NotFoundError(name)) => assert_eq!(name, "nosuch"),
        other => panic!("{:?}", other),
    }
}

#[test]
fn projection_of_a_non_cell_is_a_type_error() {
    let scope = Scope::builtin();
    assert!(matches!(run(&scope, "(car 'a)"), Err(Error::TypeError)));
    assert!(matches!(run(&scope, "(cdr ())"), Err(Error::TypeError)));
    assert!(matches!(run(&scope, "(car car)"), Err(Error::TypeError)));
}

#[test]
fn applying_a_non_callable_is_an_eval_error() {
    let scope = Scope::builtin();
    match run(&scope, "('a 'b)") {
        Err(Error::EvalError(message)) => assert_eq!(message, "Not a function: a"),
        other => panic!("{:?}", other),
    }
    match run(&scope, "((cons 'a 'b))") {
        Err(Error::EvalError(message)) => assert_eq!(message, "Not a function: (a . b)"),
        other => panic!("{:?}", other),
    }
    match run(&scope, "(())") {
        Err(Error::EvalError(message)) => assert_eq!(message, "Not a function: nil"),
        other => panic!("{:?}", other),
    }
}

#[test]
fn operands_are_evaluated_left_to_right() {
    let scope = Scope::builtin();
    match run(&scope, "(cons first second)") {
        Err(Error::NotFoundError(name)) => assert_eq!(name, "first"),
        other => panic!("{:?}", other),
    }
    match run(&scope, "(cons 'a second)") {
        Err(Error::NotFoundError(name)) => assert_eq!(name, "second"),
        other => panic!("{:?}", other),
    }
    assert!(matches!(run(&scope, "(cons (car 'a) second)"), Err(Error::TypeError)));
}

#[test]
fn operator_is_evaluated_before_operands() {
    let scope = Scope::builtin();
    match run(&scope, "(nosuch (car 'a))") {
        Err(Error::NotFoundError(name)) => assert_eq!(name, "nosuch"),
        other => panic!("{:?}", other),
    }
}

#[test]
fn lambda_builds_a_closure() {
    let scope = Scope::builtin();
    assert_eq!(run(&scope, "(lambda (x) x)").unwrap(), "#func");
    assert_eq!(run(&scope, "((lambda (x) x) 'a)").unwrap(), "a");
    assert_eq!(run(&scope, "((lambda (x y) (cons y x)) 'a 'b)").unwrap(), "(b . a)");
    assert_eq!(run(&scope, "((lambda () 'a))").unwrap(), "a");
    assert_eq!(
        run(&scope, "(((lambda (x) (lambda (y) (cons x y))) 'a) 'b)").unwrap(),
        "(a . b)"
    );
}

#[test]
fn lambda_formals_must_be_a_list_of_symbols() {
    let scope = Scope::builtin();
    assert!(matches!(run(&scope, "(lambda x x)"), Err(Error::TypeError)));
    assert!(matches!(run(&scope, "(lambda ('x) x)"), Err(Error::TypeError)));
    assert!(matches!(run(&scope, "(lambda ((x)) x)"), Err(Error::TypeError)));
    assert!(matches!(run(&scope, "(lambda (x ()) x)"), Err(Error::TypeError)));
    let improper = Cell::new(sym("x"), sym("y"));
    let args = vec![improper, sym("x")];
    assert!(matches!(lambda(&scope, &args), Err(Error::TypeError)));
}

#[test]
fn closure_arity_must_match() {
    let scope = Scope::builtin();
    assert!(matches!(run(&scope, "((lambda (x) x))"), Err(Error::ArityError)));
    assert!(matches!(run(&scope, "((lambda (x) x) 'a 'b)"), Err(Error::ArityError)));
    assert!(matches!(run(&scope, "((lambda () 'a) 'b)"), Err(Error::ArityError)));
    assert!(matches!(run(&scope, "((lambda (x y) x) 'a)"), Err(Error::ArityError)));
}

#[test]
fn variadic_formal_takes_the_remaining_arguments() {
    let scope = Scope::builtin();
    assert_eq!(run(&scope, "((lambda (...rest) rest) 'a 'b 'c)").unwrap(), "(a b c)");
    assert_eq!(run(&scope, "((lambda (...rest) rest))").unwrap(), "nil");
    assert_eq!(run(&scope, "((lambda (x ...rest) rest) 'a 'b 'c)").unwrap(), "(b c)");
    assert_eq!(run(&scope, "((lambda (x ...rest) x) 'a 'b 'c)").unwrap(), "a");
    assert_eq!(run(&scope, "((lambda (x ...rest) rest) 'a)").unwrap(), "nil");
    assert!(matches!(
        run(&scope, "((lambda (x y ...rest) rest) 'a)"),
        Err(Error::ArityError)
    ));
    assert!(matches!(run(&scope, "((lambda (x ...rest) rest))"), Err(Error::ArityError)));
}

#[test]
fn variadic_formal_must_come_last() {
    let scope = Scope::builtin();
    assert!(matches!(
        run(&scope, "((lambda (...rest x) x) 'a 'b)"),
        Err(Error::ArityError)
    ));
    assert!(matches!(
        run(&scope, "((lambda (...a ...b) a) 'a 'b)"),
        Err(Error::ArityError)
    ));
    assert!(matches!(run(&scope, "((lambda (...a ...b) a))"), Err(Error::ArityError)));
}

#[test]
fn bare_marker_binds_the_empty_name() {
    let scope = Scope::builtin();
    let closure = Lambda::new(scope.clone(), vec!["...".to_string()], sym(""));
    let call = Cell::from_vec(vec![closure, Arc::new(Value::Quoted(sym("a")))]);
    assert_eq!(to_string(&eval(&scope, &call).unwrap()), "(a)");
    assert_eq!(run(&scope, "((lambda (..) ..) 'a)").unwrap(), "a");
}

#[test]
fn later_formal_shadows_an_earlier_one_of_the_same_name() {
    let scope = Scope::builtin();
    assert_eq!(run(&scope, "((lambda (x x) x) 'a 'b)").unwrap(), "b");
    assert_eq!(run(&scope, "((lambda (x ...x) x) 'a 'b)").unwrap(), "(b)");
}

#[test]
fn lexical_capture() {
    let outer = with(&Scope::builtin(), vec![("x", sym("1")), ("2", sym("2"))]);
    assert_eq!(run(&outer, "((lambda (y) (cons x y)) 2)").unwrap(), "(1 . 2)");

    let closure = eval(&outer, &parse("(lambda (y) (cons x y))").unwrap()).unwrap();
    let call_site = with(
        &Scope::builtin(),
        vec![("x", sym("other")), ("f", closure), ("2", sym("2"))],
    );
    assert_eq!(run(&call_site, "x").unwrap(), "other");
    assert_eq!(run(&call_site, "(f 2)").unwrap(), "(1 . 2)");
    assert_eq!(run(&call_site, "((lambda (x) (f x)) 2)").unwrap(), "(1 . 2)");
}

#[test]
fn closure_does_not_see_the_callers_bindings() {
    let definition = Scope::builtin();
    let closure = eval(&definition, &parse("(lambda () hidden)").unwrap()).unwrap();
    let call_site = with(&Scope::builtin(), vec![("hidden", sym("seen")), ("f", closure)]);
    match run(&call_site, "(f)") {
        Err(Error::NotFoundError(name)) => assert_eq!(name, "hidden"),
        other => panic!("{:?}", other),
    }
}

#[test]
fn macro_two_phase_semantics() {
    let scope = Scope::builtin();
    let body = parse("'(quote 5)").unwrap();
    let five = Macro::new(scope.clone(), vec![], body);
    let call_site = with(&scope, vec![("five", five)]);
    assert_eq!(eval(&call_site, &parse("(five)").unwrap()).unwrap(), sym("5"));
}

#[test]
fn macro_receives_operands_unevaluated() {
    let scope = Scope::builtin();
    let first = Macro::new(
        scope.clone(),
        vec!["form".to_string()],
        parse("(cons 'quote (cons (car form) ()))").unwrap(),
    );
    let call_site = with(&scope, vec![("first", first)]);
    assert_eq!(run(&call_site, "(first (a b c))").unwrap(), "a");
}

#[test]
fn macro_expansion_runs_in_the_callers_scope() {
    let definition = with(&Scope::builtin(), vec![("x", sym("defined"))]);
    let get_x = Macro::new(definition.clone(), vec![], parse("'x").unwrap());
    let call_site = with(&Scope::builtin(), vec![("x", sym("called")), ("get-x", get_x)]);
    assert_eq!(run(&call_site, "(get-x)").unwrap(), "called");

    let body_x = Macro::new(definition, vec![], parse("(cons 'quote (cons x ()))").unwrap());
    let call_site = with(&Scope::builtin(), vec![("x", sym("called")), ("body-x", body_x)]);
    assert_eq!(run(&call_site, "(body-x)").unwrap(), "defined");
}

#[test]
fn macro_arity_is_the_number_of_formals() {
    let scope = Scope::builtin();
    let one = Macro::new(scope.clone(), vec!["a".to_string()], parse("''ok").unwrap());
    let call_site = with(&scope, vec![("one", one)]);
    assert_eq!(run(&call_site, "(one x)").unwrap(), "ok");
    assert!(matches!(run(&call_site, "(one)"), Err(Error::ArityError)));
    assert!(matches!(run(&call_site, "(one x y)"), Err(Error::ArityError)));
}

#[test]
fn macro_failure_in_either_phase_is_returned() {
    let scope = Scope::builtin();
    let broken = Macro::new(scope.clone(), vec![], parse("(car 'a)").unwrap());
    let unbound = Macro::new(scope.clone(), vec![], parse("'nosuch").unwrap());
    let call_site = with(&scope, vec![("broken", broken), ("unbound", unbound)]);
    assert!(matches!(run(&call_site, "(broken)"), Err(Error::TypeError)));
    match run(&call_site, "(unbound)") {
        Err(Error::NotFoundError(name)) => assert_eq!(name, "nosuch"),
        other => panic!("{:?}", other),
    }
}

#[test]
fn macro_called_directly_pairs_as_far_as_both_reach() {
    let scope = Scope::builtin();
    let definition = Macro {
        scope: scope.clone(),
        formals: vec!["a".to_string(), "b".to_string()],
        body: parse("(cons 'quote (cons a ()))").unwrap(),
    };
    let result = definition.call(&scope, &[sym("x"), sym("y"), sym("z")]).unwrap();
    assert_eq!(to_string(&result), "x");
    let unbound = Macro {
        scope: scope.clone(),
        formals: vec!["a".to_string(), "b".to_string()],
        body: parse("(cons 'quote (cons b ()))").unwrap(),
    };
    assert!(matches!(
        unbound.call(&scope, &[sym("x")]),
        Err(Error::NotFoundError(_))
    ));
}

#[test]
fn improper_list() {
    let scope = Scope::builtin();
    let pair = Cell::new(sym("a"), sym("b"));
    assert_eq!(car(&[pair.clone()]).unwrap(), sym("a"));
    assert_eq!(cdr(&[pair.clone()]).unwrap(), sym("b"));
    assert!(matches!(pair.to_args(), Err(Error::TypeError)));
    assert!(matches!(eval(&scope, &pair), Err(Error::TypeError)));
    let call = Cell::new(sym("car"), sym("b"));
    assert!(matches!(eval(&scope, &call), Err(Error::TypeError)));
    assert_eq!(run(&scope, "(car (cons 'a 'b))").unwrap(), "a");
}

#[test]
fn to_args_lists_the_elements() {
    assert_eq!(Value::nil().to_args().unwrap(), Vec::<Arc<Value>>::new());
    assert_eq!(
        parse("(a (b) c)").unwrap().to_args().unwrap(),
        vec![sym("a"), parse("(b)").unwrap(), sym("c")]
    );
    assert!(matches!(sym("a").to_args(), Err(Error::TypeError)));
    assert!(matches!(
        Arc::new(Value::Quoted(Value::nil())).to_args(),
        Err(Error::TypeError)
    ));
}

#[test]
fn from_vec_builds_a_proper_list() {
    assert_eq!(Cell::from_vec(vec![]), Value::nil());
    assert_eq!(
        Cell::from_vec(vec![sym("a"), sym("b")]),
        Cell::new(sym("a"), Cell::new(sym("b"), Value::nil()))
    );
    assert_eq!(to_string(&Cell::from_vec(vec![sym("a"), sym("b"), sym("c")])), "(a b c)");
}

#[test]
fn truthiness() {
    assert!(!Value::nil().is_truthy());
    assert!(sym("nil").is_truthy());
    assert!(sym("a").is_truthy());
    assert!(Cell::new(Value::nil(), Value::nil()).is_truthy());
    assert!(Arc::new(Value::Quoted(Value::nil())).is_truthy());
    assert!(Func::from_native("car", NativeFunction::Car).is_truthy());
}

#[test]
fn primitives_called_directly() {
    let scope = Scope::builtin();
    let a = sym("a");
    let b = sym("b");
    assert_eq!(cons(&[a.clone(), b.clone()]).unwrap(), Cell::new(a.clone(), b.clone()));
    assert!(matches!(cons(&[]), Err(Error::ArityError)));
    assert!(matches!(cons(&[a.clone()]), Err(Error::ArityError)));
    assert!(matches!(car(&[]), Err(Error::ArityError)));
    assert!(matches!(car(&[a.clone()]), Err(Error::TypeError)));
    assert!(matches!(cdr(&[a.clone(), b.clone()]), Err(Error::ArityError)));
    assert!(Arc::ptr_eq(&quote(&scope, &[a.clone()]).unwrap(), &a));
    assert!(matches!(quote(&scope, &[]), Err(Error::ArityError)));
    assert!(matches!(lambda(&scope, &[a.clone()]), Err(Error::ArityError)));
    let closure = lambda(&scope, &[parse("(x)").unwrap(), sym("x")]).unwrap();
    match &*closure {
        Value::Function(function) => {
            assert_eq!(function.name, "#lambda");
            assert_eq!(function.arity, None);
            assert_eq!(function.call(&[b.clone()]).unwrap(), b);
        }
        other => panic!("{:?}", other),
    }
}

#[test]
fn declared_arity_is_checked_before_the_primitive_runs() {
    let wide = Func::new_with_arity("cons3".to_string(), FuncBody::Native(NativeFunction::Cons), 3);
    let any = Func::new("car*".to_string(), FuncBody::Native(NativeFunction::Car));
    match (&*wide, &*any) {
        (Value::Function(wide), Value::Function(any)) => {
            assert_eq!(wide.arity, Some(3));
            assert_eq!(any.arity, None);
            assert!(matches!(wide.call(&[sym("a"), sym("b")]), Err(Error::ArityError)));
            assert!(matches!(
                wide.call(&[sym("a"), sym("b"), sym("c")]),
                Err(Error::ArityError)
            ));
            assert!(matches!(any.call(&[]), Err(Error::ArityError)));
            assert!(matches!(any.call(&[sym("a")]), Err(Error::TypeError)));
            assert_eq!(any.call(&[Cell::new(sym("a"), sym("b"))]).unwrap(), sym("a"));
        }
        other => panic!("{:?}", other),
    }
}

#[test]
fn special_form_called_directly() {
    let scope = Scope::builtin();
    let form = SpecialForm::new("q".to_string(), 1, NativeSpecial::Quote);
    match &*form {
        Value::SpecialForm(form) => {
            assert_eq!(form.name, "q");
            assert_eq!(form.arity, 1);
            assert_eq!(form.call(&scope, &[sym("a")]).unwrap(), sym("a"));
            assert!(matches!(form.call(&scope, &[]), Err(Error::ArityError)));
        }
        other => panic!("{:?}", other),
    }
    let odd = SpecialForm::new("q2".to_string(), 2, NativeSpecial::Quote);
    match &*odd {
        Value::SpecialForm(odd) => {
            assert!(matches!(odd.call(&scope, &[sym("a")]), Err(Error::ArityError)));
            assert!(matches!(odd.call(&scope, &[sym("a"), sym("b")]), Err(Error::ArityError)));
        }
        other => panic!("{:?}", other),
    }
}

#[test]
fn callables_never_compare_equal() {
    assert_ne!(
        Func::from_native("car", NativeFunction::Car),
        Func::from_native("car", NativeFunction::Car)
    );
    assert_ne!(
        SpecialForm::from_native("quote", 1, NativeSpecial::Quote),
        SpecialForm::from_native("quote", 1, NativeSpecial::Quote)
    );
    let body = FuncBody::Native(NativeFunction::Cdr);
    assert!(body != body);
}

#[test]
fn depth_bound_cuts_off_runaway_recursion() {
    let scope = Scope::builtin();
    let omega = parse("((lambda (x) (x x)) (lambda (x) (x x)))").unwrap();
    match eval_within(&scope, &omega, 1000) {
        Err(Error::EvalError(message)) => assert_eq!(message, "Recursion limit exceeded"),
        other => panic!("{:?}", other),
    }
}

#[test]
fn depth_bound_counts_nested_applications() {
    let scope = Scope::builtin();
    let flat = parse("(cons 'a 'b)").unwrap();
    assert!(matches!(eval_within(&scope, &flat, 0), Err(Error::EvalError(_))));
    assert_eq!(to_string(&eval_within(&scope, &flat, 1).unwrap()), "(a . b)");

    let nested = parse("(car (cons 'a 'b))").unwrap();
    assert!(matches!(eval_within(&scope, &nested, 1), Err(Error::EvalError(_))));
    assert_eq!(to_string(&eval_within(&scope, &nested, 2).unwrap()), "a");
    assert_eq!(to_string(&eval_within(&scope, &nested, 3).unwrap()), "a");
    assert_eq!(to_string(&eval_within(&scope, &nested, DEPTH_LIMIT).unwrap()), "a");

    assert_eq!(eval_within(&scope, &parse("'a").unwrap(), 0).unwrap(), sym("a"));
    assert!(matches!(
        eval_within(&scope, &Cell::new(sym("car"), sym("b")), 0),
        Err(Error::TypeError)
    ));
}

#[test]
fn failed_evaluation_leaves_the_scope_usable() {
    let scope = with(&Scope::builtin(), vec![("x", sym("kept"))]);
    assert!(run(&scope, "(car x)").is_err());
    assert!(run(&scope, "(").is_err());
    assert_eq!(run(&scope, "x").unwrap(), "kept");
    assert_eq!(run(&scope, "(cons x x)").unwrap(), "(kept . kept)");
}

#[test]
fn transcript_lines_match() {
    let cases = [
        ("a", "#error: NotFoundError(\"a\")"),
        ("'a", "a"),
        ("()", "nil"),
        ("(quote a)", "a"),
        ("(quote (a b c))", "(a b c)"),
        ("(cons 'a 'b)", "(a . b)"),
        ("(cons 'a (cons 'b ()))", "(a b)"),
        ("(car '(a b))", "a"),
        ("(cdr '(a b))", "(b)"),
        ("(car 'a)", "#error: TypeError"),
        ("(car)", "#error: ArityError"),
        ("(car '(a) '(b))", "#error: ArityError"),
        ("(nosuch)", "#error: NotFoundError(\"nosuch\")"),
        ("('a)", "#error: EvalError(\"Not a function: a\")"),
        ("a b", "#error: ParseError"),
        ("(a", "#error: ParseError"),
        (")", "#error: ParseError"),
        ("(lambda (x) x)", "#func"),
        ("lambda", "#special_form"),
        ("((lambda (x) (cons x x)) 'a)", "(a . a)"),
        ("((lambda (x ...xs) xs) 'a 'b 'c)", "(b c)"),
        ("((lambda (f x) (f (f x))) (lambda (x) (cons x ())) 'a)", "((a))"),
        ("((lambda (f x) (f x)) cdr '(a b))", "(b)"),
        ("((lambda (q) (q a)) quote)", "a"),
    ];
    for (input, expected) in cases {
        let scope = Scope::builtin();
        let result = parse(input).and_then(|value| eval(&scope, &value));
        let output = match result {
            Ok(value) => to_string(&value),
            Err(err) => format!("#error: {:?}", err),
        };
        assert_eq!(output, expected, "{}", input);
    }
}
