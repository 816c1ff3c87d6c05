//! Runtime values: the tagged data that the reader builds and the evaluator
//! consumes and produces.

use std::sync::Arc;
use vstd::prelude::*;
use vstd::std_specs::cmp::PartialEqSpecImpl;

use crate::error::Error;
use crate::model::{
    lambda_name, list_items, list_of, macro_name, native_function, native_special, Closure,
    NativeFunction, NativeSpecial, Procedure, ProcedureBody, Special, SpecialBody, Term,
};
use crate::scope::Scope;

verus! {

/// A runtime value. Values are immutable once built, and one value may be
/// part of many others: every link is reference counted.
#[derive(Debug, PartialEq, Eq)]
pub enum Value {
    /// The empty list, which is also the only false value.
    Nil,
    /// A pair; chains of pairs form lists.
    Cell(Cell),
    /// An identifier.
    Symbol(String),
    /// A form whose evaluation yields the wrapped value as it stands.
    Quoted(Arc<Value>),
    /// A callable that receives evaluated arguments.
    Function(Func),
    /// A callable that receives its operands unevaluated.
    SpecialForm(SpecialForm),
}

/// A pair of two values.
#[derive(Debug, PartialEq, Eq)]
pub struct Cell {
    pub left: Arc<Value>,
    pub right: Arc<Value>,
}

/// A user-defined special form: its body yields code, which is then
/// evaluated where the macro was invoked.
#[derive(Debug, PartialEq, Eq)]
pub struct Macro {
    pub scope: Arc<Scope>,
    pub formals: Vec<String>,
    pub body: Arc<Value>,
}

/// A user-defined function with the scope it was defined in.
#[derive(Debug, PartialEq, Eq)]
pub struct Lambda {
    pub scope: Arc<Scope>,
    pub formals: Vec<String>,
    pub body: Arc<Value>,
}

/// What a function runs when it is called.
#[derive(Debug)]
pub enum FuncBody {
    /// One of the primitives of the language.
    Native(NativeFunction),
    /// A body written in the language.
    Lambda(Lambda),
}

impl PartialEq for FuncBody {
    /// Function bodies are never equal, not even to themselves.
    fn eq(&self, other: &Self) -> (r: bool) {
        false
    }
}

impl PartialEqSpecImpl for FuncBody {
    open spec fn obeys_eq_spec() -> bool {
        true
    }

    open spec fn eq_spec(&self, other: &Self) -> bool {
        false
    }
}

impl Eq for FuncBody {}

/// A function value: a name for display, the number of arguments it
/// declares, if any, and what it runs.
#[derive(Debug, PartialEq, Eq)]
pub struct Func {
    pub name: String,
    pub arity: Option<usize>,
    pub body: FuncBody,
}

/// What a special form runs when it is called.
#[derive(Debug)]
pub enum SpecialFormBody {
    /// One of the primitives of the language.
    Native(NativeSpecial),
    /// A body written in the language.
    Macro(Macro),
}

/// A special form value: a name for display, the number of operands it
/// takes, and what it runs.
#[derive(Debug)]
pub struct SpecialForm {
    pub name: String,
    pub arity: usize,
    pub body: SpecialFormBody,
}

impl PartialEq for SpecialForm {
    /// Special forms are never equal, not even to themselves.
    fn eq(&self, other: &Self) -> (r: bool) {
        false
    }
}

impl PartialEqSpecImpl for SpecialForm {
    open spec fn obeys_eq_spec() -> bool {
        true
    }

    open spec fn eq_spec(&self, other: &Self) -> bool {
        false
    }
}

impl Eq for SpecialForm {}

/// The models of a sequence of values, in order.
pub open spec fn terms_of(values: Seq<Arc<Value>>) -> Seq<Term> {
    Seq::new(values.len(), |i: int| values[i].view())
}

/// The character sequences of a sequence of strings, in order.
pub open spec fn names_of(names: Seq<String>) -> Seq<Seq<char>> {
    Seq::new(names.len(), |i: int| names[i]@)
}

impl Cell {
    /// The pair of `left` and `right`.
    pub fn new(left: Arc<Value>, right: Arc<Value>) -> (value: Arc<Value>)
        ensures
            value@ == Term::Cell(Box::new(left@), Box::new(right@)),
    {
        Arc::new(Value::Cell(Cell { left, right }))
    }

    /// The empty list, which is the same value as `Nil`.
    pub fn empty_list() -> (value: Arc<Value>)
        ensures
            value@ == Term::Nil,
    {
        Value::nil()
    }

    /// The proper list of `values`, in the order given.
    pub fn from_vec(values: Vec<Arc<Value>>) -> (list: Arc<Value>)
        ensures
            list@ == list_of(terms_of(values@)),
    {
        let ghost items = terms_of(values@);
        let mut remaining = values;
        let mut list = Cell::empty_list();
        assert(items.subrange(items.len() as int, items.len() as int) =~= Seq::<Term>::empty());
        while remaining.len() > 0
            invariant
                remaining@.len() <= items.len(),
                terms_of(remaining@) == items.subrange(0, remaining@.len() as int),
                list@ == list_of(items.subrange(remaining@.len() as int, items.len() as int)),
            decreases remaining@.len(),
        {
            let ghost before = remaining@;
            let last = remaining.pop().unwrap();
            proof {
                let n = remaining@.len() as int;
                assert(last@ == items[n]) by {
                    assert(terms_of(before)[n] == before[n]@);
                }
                assert(items.subrange(n, items.len() as int).drop_first() =~= items.subrange(
                    n + 1,
                    items.len() as int,
                ));
                assert(terms_of(remaining@) =~= items.subrange(0, n)) by {
                    assert forall|i: int| 0 <= i < n implies terms_of(remaining@)[i] == items[i] by {
                        assert(terms_of(before)[i] == before[i]@);
                    }
                }
            }
            list = Cell::new(last, list);
        }
        assert(items.subrange(0, items.len() as int) =~= items);
        list
    }
}

impl Lambda {
    /// The closure that this function stands for.
    pub open spec fn view(&self) -> Closure
        decreases self,
    {
        Closure {
            env: self.scope.view(),
            formals: names_of(self.formals@),
            body: Box::new(self.body.view()),
        }
    }

    /// The function that binds `formals` in a child of `scope` and evaluates
    /// `body` there. It declares no number of arguments: the formals decide
    /// when it is called.
    pub fn new(scope: Arc<Scope>, formals: Vec<String>, body: Arc<Value>) -> (value: Arc<Value>)
        ensures
            value@ == Term::Function(
                Procedure {
                    name: lambda_name(),
                    arity: None,
                    body: ProcedureBody::Lambda(
                        Closure {
                            env: scope.view(),
                            formals: names_of(formals@),
                            body: Box::new(body@),
                        },
                    ),
                },
            ),
    {
        proof {
            reveal_with_fuel(Value::view, 4);
        }
        Arc::new(
            Value::Function(
                Func {
                    name: String::from_str("#lambda"),
                    arity: None,
                    body: FuncBody::Lambda(Lambda { scope, formals, body }),
                },
            ),
        )
    }
}

impl Macro {
    /// The closure that this macro stands for.
    pub open spec fn view(&self) -> Closure
        decreases self,
    {
        Closure {
            env: self.scope.view(),
            formals: names_of(self.formals@),
            body: Box::new(self.body.view()),
        }
    }

    /// The special form of as many operands as there are `formals`, which
    /// binds them in a child of `scope`, evaluates `body` there, and
    /// evaluates what that yields where it was invoked.
    pub fn new(scope: Arc<Scope>, formals: Vec<String>, body: Arc<Value>) -> (value: Arc<Value>)
        ensures
            value@ == Term::SpecialForm(
                Special {
                    name: macro_name(),
                    arity: formals@.len(),
                    body: SpecialBody::Macro(
                        Closure {
                            env: scope.view(),
                            formals: names_of(formals@),
                            body: Box::new(body@),
                        },
                    ),
                },
            ),
    {
        proof {
            reveal_with_fuel(Value::view, 4);
        }
        let arity = formals.len();
        Arc::new(
            Value::SpecialForm(
                SpecialForm {
                    name: String::from_str("#macro"),
                    arity,
                    body: SpecialFormBody::Macro(Macro { scope, formals, body }),
                },
            ),
        )
    }
}

impl FuncBody {
    /// The model of this body.
    pub open spec fn view(&self) -> ProcedureBody
        decreases self,
    {
        match self {
            FuncBody::Native(native) => ProcedureBody::Native(*native),
            FuncBody::Lambda(lambda) => ProcedureBody::Lambda(lambda.view()),
        }
    }
}

impl Func {
    /// The model of this function.
    pub open spec fn view(&self) -> Procedure
        decreases self,
    {
        Procedure {
            name: self.name@,
            arity: match self.arity {
                Some(n) => Some(n as nat),
                None => None,
            },
            body: self.body.view(),
        }
    }

    /// The function called `name` that runs `body` on any number of
    /// arguments.
    pub fn new(name: String, body: FuncBody) -> (value: Arc<Value>)
        ensures
            value@ == Term::Function(Procedure { name: name@, arity: None, body: body@ }),
    {
        proof {
            reveal_with_fuel(Value::view, 3);
        }
        Arc::new(Value::Function(Func { name, arity: None, body }))
    }

    /// The function called `name` that runs `body` on exactly `arity`
    /// arguments.
    pub fn new_with_arity(name: String, body: FuncBody, arity: usize) -> (value: Arc<Value>)
        ensures
            value@ == Term::Function(
                Procedure { name: name@, arity: Some(arity as nat), body: body@ },
            ),
    {
        proof {
            reveal_with_fuel(Value::view, 3);
        }
        Arc::new(Value::Function(Func { name, arity: Some(arity), body }))
    }

    /// The primitive `native` as a function called `name` with no declared
    /// number of arguments.
    pub fn from_native(name: &'static str, native: NativeFunction) -> (value: Arc<Value>)
        ensures
            value@ == Term::Function(
                Procedure { name: name@, arity: None, body: ProcedureBody::Native(native) },
            ),
    {
        Func::new(String::from_str(name), FuncBody::Native(native))
    }

    /// The primitive `native` as a function called `name` of exactly `arity`
    /// arguments.
    pub fn from_native_with_arity(name: &'static str, native: NativeFunction, arity: usize) -> (value:
        Arc<Value>)
        ensures
            value@ == native_function(name@, arity as nat, native),
    {
        Func::new_with_arity(String::from_str(name), FuncBody::Native(native), arity)
    }
}

impl SpecialFormBody {
    /// The model of this body.
    pub open spec fn view(&self) -> SpecialBody
        decreases self,
    {
        match self {
            SpecialFormBody::Native(native) => SpecialBody::Native(*native),
            SpecialFormBody::Macro(definition) => SpecialBody::Macro(definition.view()),
        }
    }
}

impl SpecialForm {
    /// The model of this special form.
    pub open spec fn view(&self) -> Special
        decreases self,
    {
        Special { name: self.name@, arity: self.arity as nat, body: self.body.view() }
    }

    /// The primitive `body` as a special form called `name` of exactly
    /// `arity` operands.
    pub fn new(name: String, arity: usize, body: NativeSpecial) -> (value: Arc<Value>)
        ensures
            value@ == native_special(name@, arity as nat, body),
    {
        proof {
            reveal_with_fuel(Value::view, 3);
        }
        Arc::new(
            Value::SpecialForm(SpecialForm { name, arity, body: SpecialFormBody::Native(body) }),
        )
    }

    /// The primitive `native` as a special form called `name` of exactly
    /// `arity` operands.
    pub fn from_native(name: &'static str, arity: usize, native: NativeSpecial) -> (value: Arc<
        Value,
    >)
        ensures
            value@ == native_special(name@, arity as nat, native),
    {
        SpecialForm::new(String::from_str(name), arity, native)
    }
}

impl Value {
    /// The term that this value stands for: the same tree, with sharing
    /// forgotten.
    pub open spec fn view(&self) -> Term
        decreases self,
    {
        match self {
            Value::Nil => Term::Nil,
            Value::Cell(cell) => Term::Cell(Box::new(cell.left.view()), Box::new(cell.right.view())),
            Value::Symbol(name) => Term::Symbol(name@),
            Value::Quoted(inner) => Term::Quoted(Box::new(inner.view())),
            Value::Function(function) => Term::Function(function.view()),
            Value::SpecialForm(special) => Term::SpecialForm(special.view()),
        }
    }

    /// The symbol called `name`.
    pub fn from_name(name: &str) -> (value: Arc<Value>)
        ensures
            value@ == Term::Symbol(name@),
    {
        Arc::new(Value::Symbol(String::from_str(name)))
    }

    /// The empty list.
    pub fn nil() -> (value: Arc<Value>)
        ensures
            value@ == Term::Nil,
    {
        Arc::new(Value::Nil)
    }

    /// Whether the value counts as true: everything but `Nil` does.
    pub fn is_truthy(&self) -> (truthy: bool)
        ensures
            truthy == !(self@ is Nil),
    {
        match self {
            Value::Nil => false,
            _ => true,
        }
    }

    /// The elements of a proper list, in order. A chain that ends in
    /// anything but `Nil` is a type error.
    pub fn to_args(self: &Arc<Self>) -> (result: Result<Vec<Arc<Value>>, Error>)
        ensures
            match list_items(self@) {
                Some(items) => result matches Ok(args) && terms_of(args@) == items,
                None => result matches Err(Error::TypeError),
            },
    {
        let mut args: Vec<Arc<Value>> = Vec::new();
        let mut current: &Arc<Value> = self;
        loop
            invariant
                match list_items(current@) {
                    Some(rest) => list_items(self@) == Some(terms_of(args@) + rest),
                    None => list_items(self@) is None,
                },
            decreases current@,
        {
            match &**current {
                Value::Nil => {
                    assert(terms_of(args@) + Seq::<Term>::empty() =~= terms_of(args@));
                    return Ok(args);
                },
                Value::Cell(cell) => {
                    proof {
                        let rest = list_items(cell.right@);
                        if rest is Some {
                            assert(terms_of(args@.push(cell.left)) + rest->0 =~= terms_of(args@)
                                + (seq![cell.left@] + rest->0));
                        }
                    }
                    args.push(cell.left.clone());
                    current = &cell.right;
                },
                _ => {
                    return Err(Error::TypeError);
                },
            }
        }
    }
}

} // verus!
