use std::sync::Arc;

use minilisp::{to_string, Error, NativeFunction, NativeSpecial, Scope, Value};

fn sym(name: &str) -> Arc<Value> {
    Value::from_name(name)
}

fn empty() -> Scope {
    Scope { bindings: Vec::new(), parent: None }
}

#[test]
fn builtin_binds_the_five_primitives() {
    let scope = Scope::builtin();
    for name in ["cons", "car", "cdr"] {
        match &*scope.lookup(name).unwrap() {
            Value::Function(function) => assert_eq!(function.name, name),
            other => panic!("{:?}", other),
        }
    }
    for (name, arity) in [("quote", 1), ("lambda", 2)] {
        match &*scope.lookup(name).unwrap() {
            Value::SpecialForm(special) => {
                assert_eq!(special.name, name);
                assert_eq!(special.arity, arity);
            }
            other => panic!("{:?}", other),
        }
    }
    match &*scope.lookup("cons").unwrap() {
        Value::Function(function) => assert_eq!(function.arity, Some(2)),
        other => panic!("{:?}", other),
    }
    match &*scope.lookup("car").unwrap() {
        Value::Function(function) => assert_eq!(function.arity, Some(1)),
        other => panic!("{:?}", other),
    }
    assert!(scope.parent.is_none());
    assert_eq!(scope.bindings.len(), 5);
}

#[test]
fn lookup_of_an_unbound_name_is_not_found() {
    let scope = Scope::builtin();
    match scope.lookup("define") {
        Err(Error::NotFoundError(name)) => assert_eq!(name, "define"),
        other => panic!("{:?}", other),
    }
    match empty().lookup("") {
        Err(Error::NotFoundError(name)) => assert_eq!(name, ""),
        other => panic!("{:?}", other),
    }
}

#[test]
fn bind_adds_and_replaces() {
    let mut scope = empty();
    scope.bind("x", sym("first"));
    assert_eq!(scope.lookup("x").unwrap(), sym("first"));
    scope.bind("y", sym("other"));
    scope.bind("x", sym("second"));
    assert_eq!(scope.lookup("x").unwrap(), sym("second"));
    assert_eq!(scope.lookup("y").unwrap(), sym("other"));
}

#[test]
fn bind_native_function_and_special_form() {
    let mut scope = empty();
    scope.bind_native_function("pair", 2, NativeFunction::Cons);
    scope.bind_special_form("literally", 1, NativeSpecial::Quote);
    match &*scope.lookup("pair").unwrap() {
        Value::Function(function) => {
            assert_eq!(function.name, "pair");
            assert_eq!(function.arity, Some(2));
            let pair = function.call(&[sym("a"), sym("b")]).unwrap();
            assert_eq!(to_string(&pair), "(a . b)");
        }
        other => panic!("{:?}", other),
    }
    let scope = Arc::new(scope);
    match &*scope.lookup("literally").unwrap() {
        Value::SpecialForm(special) => {
            assert_eq!(special.name, "literally");
            assert_eq!(special.arity, 1);
            assert_eq!(special.call(&scope, &[sym("a")]).unwrap(), sym("a"));
        }
        other => panic!("{:?}", other),
    }
}

#[test]
fn child_sees_its_own_bindings_first() {
    let root = Arc::new({
        let mut scope = empty();
        scope.bind("x", sym("root-x"));
        scope.bind("y", sym("root-y"));
        scope
    });
    let child = root.new_child(vec![("x".to_string(), sym("child-x"))]);
    let grandchild = child.new_child(vec![("z".to_string(), sym("grandchild-z"))]);
    assert_eq!(child.lookup("x").unwrap(), sym("child-x"));
    assert_eq!(child.lookup("y").unwrap(), sym("root-y"));
    assert_eq!(grandchild.lookup("x").unwrap(), sym("child-x"));
    assert_eq!(grandchild.lookup("y").unwrap(), sym("root-y"));
    assert_eq!(grandchild.lookup("z").unwrap(), sym("grandchild-z"));
    assert!(matches!(child.lookup("z"), Err(Error::NotFoundError(_))));
    assert_eq!(root.lookup("x").unwrap(), sym("root-x"));
}

#[test]
fn child_points_to_its_parent() {
    let root = Scope::builtin();
    let child = root.new_child(vec![]);
    assert!(Arc::ptr_eq(child.parent.as_ref().unwrap(), &root));
    assert!(child.bindings.is_empty());
}

#[test]
fn last_binding_of_a_name_counts() {
    let root = Arc::new(empty());
    let child = root.new_child(vec![
        ("x".to_string(), sym("first")),
        ("y".to_string(), sym("only")),
        ("x".to_string(), sym("last")),
    ]);
    assert_eq!(child.lookup("x").unwrap(), sym("last"));
    assert_eq!(child.lookup("y").unwrap(), sym("only"));
}
