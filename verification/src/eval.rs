//! The evaluator: a tree walk that follows the semantics step by step.
//!
//! Every function that can recurse comes in two forms. The `_within` form
//! takes the depth to which applications may nest and fails with an
//! evaluation error beyond it; the plain form allows [`DEPTH_LIMIT`], which
//! no machine reaches. By the depth law of the semantics, a result other
//! than that failure is the same for every bound that is large enough.

use std::sync::Arc;
use vstd::prelude::*;

use crate::error::{Error, Failure};
use crate::model::{list_items, NativeFunction, NativeSpecial, Term};
use crate::printer::to_string;
use crate::scope::{lemma_pairs_push, pairs_of, Scope};
use crate::semantics::{
    apply_closure, apply_function, apply_native, apply_native_special, apply_special,
    closure_frame, eval_all, eval_term, expand_macro, has_splat, is_splat, lemma_pair_up_next,
    pair_up, splat_marker, splat_name, symbol_names,
};
use crate::values::{
    names_of, terms_of, Cell, Func, FuncBody, Lambda, Macro, SpecialForm, SpecialFormBody, Value,
};

verus! {

/// How deeply [`eval`] lets applications nest: more than any call stack
/// holds, so that in practice nothing is cut off.
pub const DEPTH_LIMIT: u64 = 0xffff_ffff_ffff_ffff;

/// The model of what an evaluation returned.
pub open spec fn outcome(result: Result<Arc<Value>, Error>) -> Result<Term, Failure> {
    match result {
        Ok(value) => Ok(value.view()),
        Err(error) => Err(error@),
    }
}

/// The primitive `cons`: the pair of its two arguments.
pub fn cons(args: &[Arc<Value>]) -> (result: Result<Arc<Value>, Error>)
    ensures
        outcome(result) == apply_native(NativeFunction::Cons, terms_of(args@)),
{
    if args.len() != 2 {
        return Err(Error::ArityError);
    }
    Ok(Cell::new(args[0].clone(), args[1].clone()))
}

/// The primitive `car`: the left slot of its one argument, which must be a
/// cell.
pub fn car(args: &[Arc<Value>]) -> (result: Result<Arc<Value>, Error>)
    ensures
        outcome(result) == apply_native(NativeFunction::Car, terms_of(args@)),
{
    if args.len() != 1 {
        return Err(Error::ArityError);
    }
    match &*args[0] {
        Value::Cell(cell) => Ok(cell.left.clone()),
        _ => Err(Error::TypeError),
    }
}

/// The primitive `cdr`: the right slot of its one argument, which must be a
/// cell.
pub fn cdr(args: &[Arc<Value>]) -> (result: Result<Arc<Value>, Error>)
    ensures
        outcome(result) == apply_native(NativeFunction::Cdr, terms_of(args@)),
{
    if args.len() != 1 {
        return Err(Error::ArityError);
    }
    match &*args[0] {
        Value::Cell(cell) => Ok(cell.right.clone()),
        _ => Err(Error::TypeError),
    }
}

/// The primitive `quote`: its one operand, unevaluated.
pub fn quote(scope: &Arc<Scope>, args: &[Arc<Value>]) -> (result: Result<Arc<Value>, Error>)
    ensures
        outcome(result) == apply_native_special(NativeSpecial::Quote, scope@, terms_of(args@)),
{
    if args.len() != 1 {
        return Err(Error::ArityError);
    }
    Ok(args[0].clone())
}

/// The primitive `lambda`: the closure over `scope` of a body, the second
/// operand, with the formals that the first operand lists.
pub fn lambda(scope: &Arc<Scope>, args: &[Arc<Value>]) -> (result: Result<Arc<Value>, Error>)
    ensures
        outcome(result) == apply_native_special(NativeSpecial::Lambda, scope@, terms_of(args@)),
{
    if args.len() != 2 {
        return Err(Error::ArityError);
    }
    let items = match args[0].to_args() {
        Ok(items) => items,
        Err(error) => {
            return Err(error);
        },
    };
    let mut formals: Vec<String> = Vec::new();
    let mut index: usize = 0;
    let ghost names = terms_of(items@);
    while index < items.len()
        invariant
            args@.len() == 2,
            list_items(terms_of(args@)[0]) == Some(names),
            names == terms_of(items@),
            index <= items@.len(),
            formals@.len() == index,
            forall|i: int| 0 <= i < index ==> #[trigger] names[i] == Term::Symbol(formals@[i]@),
        decreases items@.len() - index,
    {
        match &*items[index] {
            Value::Symbol(name) => {
                formals.push(name.clone());
            },
            _ => {
                assert(!(names[index as int] is Symbol));
                return Err(Error::TypeError);
            },
        }
        index += 1;
    }
    assert(symbol_names(names) == Some(names_of(formals@))) by {
        assert forall|i: int| 0 <= i < names.len() implies #[trigger] names[i] is Symbol by {}
        assert(symbol_names(names)->0 =~= names_of(formals@));
    }
    Ok(Lambda::new(scope.clone(), formals, args[1].clone()))
}

/// How many characters the marker of a variadic formal has.
const MARKER_LENGTH: usize = 3;

/// Whether a formal parameter takes all remaining arguments.
pub fn is_variadic(formal: &String) -> (variadic: bool)
    ensures
        variadic == is_splat(formal@),
{
    let text = formal.as_str();
    if text.unicode_len() < MARKER_LENGTH {
        return false;
    }
    let marked = text.get_char(0) == '.' && text.get_char(1) == '.' && text.get_char(2) == '.';
    proof {
        let start = formal@.subrange(0, 3);
        if marked {
            assert(splat_marker() =~= start);
        } else {
            assert(start[0] == formal@[0] && start[1] == formal@[1] && start[2] == formal@[2]);
        }
    }
    marked
}

/// The name that a variadic formal binds.
fn variadic_name(formal: &String) -> (name: String)
    requires
        is_splat(formal@),
    ensures
        name@ == splat_name(formal@),
{
    let text = formal.as_str();
    String::from_str(text.substring_char(MARKER_LENGTH, text.unicode_len()))
}

/// The values from place `from` on, in order.
fn tail_from(args: &[Arc<Value>], from: usize) -> (rest: Vec<Arc<Value>>)
    requires
        from <= args@.len(),
    ensures
        rest@ == args@.skip(from as int),
{
    let mut rest: Vec<Arc<Value>> = Vec::new();
    let mut index = from;
    while index < args.len()
        invariant
            from <= index <= args@.len(),
            rest@ == args@.subrange(from as int, index as int),
        decreases args@.len() - index,
    {
        rest.push(args[index].clone());
        index += 1;
    }
    rest
}

impl Lambda {
    /// Calls the closure on evaluated `args`.
    pub fn call(&self, args: &[Arc<Value>]) -> (result: Result<Arc<Value>, Error>)
        ensures
            outcome(result) == apply_closure(self@, terms_of(args@), DEPTH_LIMIT as nat),
    {
        self.call_within(args, DEPTH_LIMIT)
    }

    /// Calls the closure on evaluated `args`, with applications nested at
    /// most `depth` deep.
    pub fn call_within(&self, args: &[Arc<Value>], depth: u64) -> (result: Result<
        Arc<Value>,
        Error,
    >)
        ensures
            outcome(result) == apply_closure(self@, terms_of(args@), depth as nat),
        decreases depth, 1nat, 0nat,
    {
        let ghost formals = names_of(self.formals@);
        let ghost terms = terms_of(args@);
        let count = self.formals.len();
        let mut pairs: Vec<(String, Arc<Value>)> = Vec::new();
        let mut index: usize = 0;
        assert(pairs_of(pairs@) =~= pair_up(formals, terms, 0));
        while index < count
            invariant
                formals == names_of(self.formals@),
                terms == terms_of(args@),
                count == self.formals@.len(),
                index <= count,
                index <= args@.len(),
                forall|i: int| 0 <= i < index ==> !is_splat(#[trigger] formals[i]),
                pairs_of(pairs@) == pair_up(formals, terms, index as nat),
                self@.formals == formals,
            decreases count - index,
        {
            let formal = &self.formals[index];
            assert(formal@ == formals[index as int]);
            if is_variadic(formal) {
                if index + 1 != count {
                    assert(closure_frame(formals, terms) is None) by {
                        if is_splat(formals.last()) {
                            assert(formals.drop_last()[index as int] == formals[index as int]);
                        }
                    }
                    return Err(Error::ArityError);
                }
                let name = variadic_name(formal);
                let rest = Cell::from_vec(tail_from(args, index));
                proof {
                    let fixed = formals.drop_last();
                    assert(!has_splat(fixed));
                    assert(terms_of(args@.skip(index as int)) =~= terms.skip(index as int));
                    assert(pair_up(fixed, terms, fixed.len()) =~= pair_up(
                        formals,
                        terms,
                        index as nat,
                    ));
                    lemma_pairs_push(pairs@, name, rest);
                }
                pairs.push((name, rest));
                let scope = self.scope.new_child(pairs);
                return eval_within(&scope, &self.body, depth);
            }
            if index >= args.len() {
                assert(closure_frame(formals, terms) is None);
                return Err(Error::ArityError);
            }
            proof {
                lemma_pairs_push(pairs@, *formal, args@[index as int]);
                lemma_pair_up_next(formals, terms, index as nat);
            }
            pairs.push((formal.clone(), args[index].clone()));
            index += 1;
        }
        assert(!has_splat(formals));
        if args.len() != count {
            return Err(Error::ArityError);
        }
        let scope = self.scope.new_child(pairs);
        eval_within(&scope, &self.body, depth)
    }
}

impl Func {
    /// Calls the function on evaluated `args`.
    pub fn call(&self, args: &[Arc<Value>]) -> (result: Result<Arc<Value>, Error>)
        ensures
            outcome(result) == apply_function(self@, terms_of(args@), DEPTH_LIMIT as nat),
    {
        self.call_within(args, DEPTH_LIMIT)
    }

    /// Calls the function on evaluated `args`, with applications nested at
    /// most `depth` deep.
    pub fn call_within(&self, args: &[Arc<Value>], depth: u64) -> (result: Result<
        Arc<Value>,
        Error,
    >)
        ensures
            outcome(result) == apply_function(self@, terms_of(args@), depth as nat),
        decreases depth, 1nat, 1nat,
    {
        match &self.body {
            FuncBody::Native(native) => {
                if let Some(arity) = self.arity {
                    if args.len() != arity {
                        return Err(Error::ArityError);
                    }
                }
                match native {
                    NativeFunction::Cons => cons(args),
                    NativeFunction::Car => car(args),
                    NativeFunction::Cdr => cdr(args),
                }
            },
            FuncBody::Lambda(lambda) => lambda.call_within(args, depth),
        }
    }
}

impl Macro {
    /// Expands the macro on unevaluated `args` and evaluates the expansion
    /// in `dynamic_scope`.
    pub fn call(&self, dynamic_scope: &Arc<Scope>, args: &[Arc<Value>]) -> (result: Result<
        Arc<Value>,
        Error,
    >)
        ensures
            outcome(result) == expand_macro(
                self@,
                dynamic_scope@,
                terms_of(args@),
                DEPTH_LIMIT as nat,
            ),
    {
        self.call_within(dynamic_scope, args, DEPTH_LIMIT)
    }

    /// Expands the macro on unevaluated `args` and evaluates the expansion
    /// in `dynamic_scope`, with applications nested at most `depth` deep.
    pub fn call_within(&self, dynamic_scope: &Arc<Scope>, args: &[Arc<Value>], depth: u64) -> (result:
        Result<Arc<Value>, Error>)
        ensures
            outcome(result) == expand_macro(self@, dynamic_scope@, terms_of(args@), depth as nat),
        decreases depth, 1nat, 0nat,
    {
        let ghost formals = names_of(self.formals@);
        let ghost terms = terms_of(args@);
        let count = if self.formals.len() <= args.len() {
            self.formals.len()
        } else {
            args.len()
        };
        let mut pairs: Vec<(String, Arc<Value>)> = Vec::new();
        let mut index: usize = 0;
        assert(pairs_of(pairs@) =~= pair_up(formals, terms, 0));
        while index < count
            invariant
                formals == names_of(self.formals@),
                terms == terms_of(args@),
                index <= count,
                count <= self.formals@.len(),
                count <= args@.len(),
                pairs_of(pairs@) == pair_up(formals, terms, index as nat),
            decreases count - index,
        {
            proof {
                lemma_pairs_push(pairs@, self.formals@[index as int], args@[index as int]);
                lemma_pair_up_next(formals, terms, index as nat);
            }
            pairs.push((self.formals[index].clone(), args[index].clone()));
            index += 1;
        }
        let lexical_scope = self.scope.new_child(pairs);
        let code = match eval_within(&lexical_scope, &self.body, depth) {
            Ok(code) => code,
            Err(error) => {
                return Err(error);
            },
        };
        eval_within(dynamic_scope, &code, depth)
    }
}

impl SpecialForm {
    /// Calls the special form on unevaluated `args` from `scope`.
    pub fn call(&self, scope: &Arc<Scope>, args: &[Arc<Value>]) -> (result: Result<
        Arc<Value>,
        Error,
    >)
        ensures
            outcome(result) == apply_special(self@, scope@, terms_of(args@), DEPTH_LIMIT as nat),
    {
        self.call_within(scope, args, DEPTH_LIMIT)
    }

    /// Calls the special form on unevaluated `args` from `scope`, with
    /// applications nested at most `depth` deep.
    pub fn call_within(&self, scope: &Arc<Scope>, args: &[Arc<Value>], depth: u64) -> (result:
        Result<Arc<Value>, Error>)
        ensures
            outcome(result) == apply_special(self@, scope@, terms_of(args@), depth as nat),
        decreases depth, 1nat, 1nat,
    {
        if args.len() != self.arity {
            return Err(Error::ArityError);
        }
        match &self.body {
            SpecialFormBody::Native(native) => match native {
                NativeSpecial::Quote => quote(scope, args),
                NativeSpecial::Lambda => lambda(scope, args),
            },
            SpecialFormBody::Macro(definition) => definition.call_within(scope, args, depth),
        }
    }
}

/// Evaluates `value` in `scope`.
///
/// `Nil`, functions and special forms evaluate to themselves, a symbol to
/// what `scope` binds it to, a quoted value to the value inside. A cell is
/// an application of its left slot to the proper list in its right slot.
/// The first failure ends the evaluation and is returned; nothing that
/// existed before is changed.
pub fn eval(scope: &Arc<Scope>, value: &Arc<Value>) -> (result: Result<Arc<Value>, Error>)
    ensures
        outcome(result) == eval_term(scope@, value@, DEPTH_LIMIT as nat),
{
    eval_within(scope, value, DEPTH_LIMIT)
}

/// Evaluates `value` in `scope`, with applications nested at most `depth`
/// deep: an application inside `depth` others fails with the evaluation
/// error `Recursion limit exceeded`.
pub fn eval_within(scope: &Arc<Scope>, value: &Arc<Value>, depth: u64) -> (result: Result<
    Arc<Value>,
    Error,
>)
    ensures
        outcome(result) == eval_term(scope@, value@, depth as nat),
    decreases depth, 0nat, 0nat,
{
    match &**value {
        Value::Nil => Ok(value.clone()),
        Value::Function(_) => Ok(value.clone()),
        Value::SpecialForm(_) => Ok(value.clone()),
        Value::Symbol(name) => scope.lookup(name.as_str()),
        Value::Quoted(inner) => Ok(inner.clone()),
        Value::Cell(cell) => {
            let operands = match cell.right.to_args() {
                Ok(operands) => operands,
                Err(error) => {
                    return Err(error);
                },
            };
            if depth == 0 {
                return Err(Error::EvalError(String::from_str("Recursion limit exceeded")));
            }
            let operator = match eval_within(scope, &cell.left, depth - 1) {
                Ok(operator) => operator,
                Err(error) => {
                    return Err(error);
                },
            };
            match &*operator {
                Value::Function(function) => {
                    let ghost forms = terms_of(operands@);
                    let mut args: Vec<Arc<Value>> = Vec::new();
                    let mut index: usize = 0;
                    assert(forms.skip(0) =~= forms);
                    while index < operands.len()
                        invariant
                            forms == terms_of(operands@),
                            index <= operands@.len(),
                            depth > 0,
                            eval_term(scope@, value@, depth as nat) == (match eval_all(
                                scope@,
                                forms,
                                (depth - 1) as nat,
                            ) {
                                Err(failure) => Err(failure),
                                Ok(values) => apply_function(
                                    function@,
                                    values,
                                    (depth - 1) as nat,
                                ),
                            }),
                            match eval_all(scope@, forms.skip(index as int), (depth - 1) as nat) {
                                Ok(rest) => eval_all(scope@, forms, (depth - 1) as nat) == Ok::<
                                    Seq<Term>,
                                    Failure,
                                >(terms_of(args@) + rest),
                                Err(failure) => eval_all(scope@, forms, (depth - 1) as nat) == Err::<
                                    Seq<Term>,
                                    Failure,
                                >(failure),
                            },
                        decreases operands@.len() - index,
                    {
                        let ghost remaining = forms.skip(index as int);
                        assert(remaining[0] == operands@[index as int]@);
                        assert(remaining.drop_first() =~= forms.skip(index + 1));
                        match eval_within(scope, &operands[index], depth - 1) {
                            Ok(value) => {
                                proof {
                                    match eval_all(
                                        scope@,
                                        forms.skip(index + 1),
                                        (depth - 1) as nat,
                                    ) {
                                        Ok(rest) => {
                                            assert(terms_of(args@.push(value)) + rest =~= terms_of(
                                                args@,
                                            ) + (seq![value@] + rest));
                                        },
                                        Err(_) => {},
                                    }
                                }
                                args.push(value);
                            },
                            Err(error) => {
                                return Err(error);
                            },
                        }
                        index += 1;
                    }
                    assert(terms_of(args@) + Seq::<Term>::empty() =~= terms_of(args@));
                    function.call_within(args.as_slice(), depth - 1)
                },
                Value::SpecialForm(special) => special.call_within(
                    scope,
                    operands.as_slice(),
                    depth - 1,
                ),
                _ => Err(
                    Error::EvalError(
                        String::from_str("Not a function: ").concat(to_string(&operator).as_str()),
                    ),
                ),
            }
        },
    }
}

} // verus!
