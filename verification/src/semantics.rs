//! What evaluation means: a big-step semantics over terms and environments.
//!
//! The language has programs that never finish, so every function here
//! takes a bound on how deeply applications may nest. An evaluation that
//! would have to nest deeper fails with [`depth_exceeded`]; any other result
//! stays the same under every larger bound.

use vstd::prelude::*;

use crate::error::Failure;
use crate::model::{
    frame_of, lambda_name, list_items, list_of, Closure, Env, NativeFunction, NativeSpecial,
    Procedure, ProcedureBody, Special, SpecialBody, Term,
};
use crate::printer::render;

verus! {

/// The failure of an evaluation that ran out of nesting depth.
pub open spec fn depth_exceeded() -> Failure {
    Failure::Eval("Recursion limit exceeded"@)
}

/// The failure of applying `operator`, which is neither a function nor a
/// special form.
pub open spec fn not_callable(operator: Term) -> Failure {
    Failure::Eval("Not a function: "@ + render(operator))
}

/// The prefix that marks a formal parameter as taking all remaining
/// arguments.
pub open spec fn splat_marker() -> Seq<char> {
    seq!['.', '.', '.']
}

/// Whether a formal parameter takes all remaining arguments.
pub open spec fn is_splat(formal: Seq<char>) -> bool {
    splat_marker().is_prefix_of(formal)
}

/// The name that a variadic formal binds: the formal without its marker.
pub open spec fn splat_name(formal: Seq<char>) -> Seq<char> {
    formal.skip(splat_marker().len() as int)
}

/// Whether any of `formals` is variadic.
pub open spec fn has_splat(formals: Seq<Seq<char>>) -> bool {
    exists|i: int| 0 <= i < formals.len() && is_splat(#[trigger] formals[i])
}

/// The first `count` names paired with the first `count` terms.
pub open spec fn pair_up(names: Seq<Seq<char>>, terms: Seq<Term>, count: nat) -> Seq<
    (Seq<char>, Term),
> {
    Seq::new(count, |i: int| (names[i], terms[i]))
}

/// Pairing one more name with one more term appends that pair.
pub proof fn lemma_pair_up_next(names: Seq<Seq<char>>, terms: Seq<Term>, count: nat)
    ensures
        pair_up(names, terms, count + 1) == pair_up(names, terms, count).push(
            (names[count as int], terms[count as int]),
        ),
{
    assert(pair_up(names, terms, count + 1) =~= pair_up(names, terms, count).push(
        (names[count as int], terms[count as int]),
    ));
}

/// The bindings of a function call, or `None` where the number of arguments
/// does not fit the formals.
///
/// Without a variadic formal, there must be as many arguments as formals.
/// A variadic formal must come last; it takes the list of all arguments
/// that the formals before it leave over. Formals with a variadic one
/// anywhere but last fit no arguments at all.
pub open spec fn closure_frame(formals: Seq<Seq<char>>, args: Seq<Term>) -> Option<
    Seq<(Seq<char>, Term)>,
> {
    if formals.len() > 0 && is_splat(formals.last()) {
        let fixed = formals.drop_last();
        if has_splat(fixed) || args.len() < fixed.len() {
            None
        } else {
            Some(
                pair_up(fixed, args, fixed.len()).push(
                    (splat_name(formals.last()), list_of(args.skip(fixed.len() as int))),
                ),
            )
        }
    } else if has_splat(formals) || args.len() != formals.len() {
        None
    } else {
        Some(pair_up(formals, args, formals.len()))
    }
}

/// The bindings of a macro call: formals and operands paired in order, as
/// far as both reach.
pub open spec fn macro_frame(formals: Seq<Seq<char>>, operands: Seq<Term>) -> Seq<
    (Seq<char>, Term),
> {
    pair_up(
        formals,
        operands,
        if formals.len() <= operands.len() {
            formals.len()
        } else {
            operands.len()
        },
    )
}

/// The names of a list of symbols, or `None` where one of `items` is not a
/// symbol.
pub open spec fn symbol_names(items: Seq<Term>) -> Option<Seq<Seq<char>>> {
    if forall|i: int| 0 <= i < items.len() ==> #[trigger] items[i] is Symbol {
        Some(Seq::new(items.len(), |i: int| items[i]->Symbol_0))
    } else {
        None
    }
}

/// What a primitive function returns.
///
/// `cons` pairs its two arguments; `car` and `cdr` project the left and the
/// right slot of their one argument, which must be a cell. Any other number
/// of arguments is an arity error.
pub open spec fn apply_native(native: NativeFunction, args: Seq<Term>) -> Result<Term, Failure> {
    match native {
        NativeFunction::Cons => if args.len() == 2 {
            Ok(Term::Cell(Box::new(args[0]), Box::new(args[1])))
        } else {
            Err(Failure::Arity)
        },
        NativeFunction::Car => if args.len() == 1 {
            match args[0] {
                Term::Cell(left, _) => Ok(*left),
                _ => Err(Failure::Type),
            }
        } else {
            Err(Failure::Arity)
        },
        NativeFunction::Cdr => if args.len() == 1 {
            match args[0] {
                Term::Cell(_, right) => Ok(*right),
                _ => Err(Failure::Type),
            }
        } else {
            Err(Failure::Arity)
        },
    }
}

/// What a primitive special form returns for unevaluated `operands` in
/// `env`.
///
/// `quote` returns its one operand. `lambda` takes a proper list of symbols
/// and a body and returns the closure of that body over `env`; formals that
/// are no such list are a type error.
pub open spec fn apply_native_special(native: NativeSpecial, env: Env, operands: Seq<Term>) -> Result<
    Term,
    Failure,
> {
    match native {
        NativeSpecial::Quote => if operands.len() == 1 {
            Ok(operands[0])
        } else {
            Err(Failure::Arity)
        },
        NativeSpecial::Lambda => if operands.len() == 2 {
            match list_items(operands[0]) {
                Some(items) => match symbol_names(items) {
                    Some(formals) => Ok(
                        Term::Function(
                            Procedure {
                                name: lambda_name(),
                                arity: None,
                                body: ProcedureBody::Lambda(
                                    Closure { env, formals, body: Box::new(operands[1]) },
                                ),
                            },
                        ),
                    ),
                    None => Err(Failure::Type),
                },
                None => Err(Failure::Type),
            }
        } else {
            Err(Failure::Arity)
        },
    }
}

/// The value of `term` in `env`, with applications nested at most `depth`
/// deep.
///
/// `Nil`, functions and special forms are their own value; a symbol is
/// what `env` binds it to; a quoted term yields the term inside, as it
/// stands. A cell is an application: its chain must be a proper list of an
/// operator and operands. The operator is evaluated first. A function gets
/// the values of the operands, taken left to right in `env`; a special form
/// gets the operands themselves, and `env`; anything else cannot be called.
pub open spec fn eval_term(env: Env, term: Term, depth: nat) -> Result<Term, Failure>
    decreases depth, 0nat, 0nat,
{
    match term {
        Term::Nil => Ok(term),
        Term::Function(_) => Ok(term),
        Term::SpecialForm(_) => Ok(term),
        Term::Symbol(name) => match env.lookup(name) {
            Some(value) => Ok(value),
            None => Err(Failure::NotFound(name)),
        },
        Term::Quoted(inner) => Ok(*inner),
        Term::Cell(operator, rest) => match list_items(*rest) {
            None => Err(Failure::Type),
            Some(operands) => if depth == 0 {
                Err(depth_exceeded())
            } else {
                match eval_term(env, *operator, (depth - 1) as nat) {
                    Err(failure) => Err(failure),
                    Ok(Term::Function(function)) => match eval_all(
                        env,
                        operands,
                        (depth - 1) as nat,
                    ) {
                        Err(failure) => Err(failure),
                        Ok(args) => apply_function(function, args, (depth - 1) as nat),
                    },
                    Ok(Term::SpecialForm(special)) => apply_special(
                        special,
                        env,
                        operands,
                        (depth - 1) as nat,
                    ),
                    Ok(other) => Err(not_callable(other)),
                }
            },
        },
    }
}

/// The values of `terms` in `env`, evaluated left to right; the first
/// failure ends the evaluation.
pub open spec fn eval_all(env: Env, terms: Seq<Term>, depth: nat) -> Result<Seq<Term>, Failure>
    decreases depth, 1nat, terms.len(),
{
    if terms.len() == 0 {
        Ok(Seq::empty())
    } else {
        match eval_term(env, terms[0], depth) {
            Err(failure) => Err(failure),
            Ok(first) => match eval_all(env, terms.drop_first(), depth) {
                Err(failure) => Err(failure),
                Ok(rest) => Ok(seq![first] + rest),
            },
        }
    }
}

/// The result of calling `function` on evaluated `args`.
///
/// A primitive with a declared number of arguments accepts exactly that
/// many. A closure's formals decide for themselves.
pub open spec fn apply_function(function: Procedure, args: Seq<Term>, depth: nat) -> Result<
    Term,
    Failure,
>
    decreases depth, 1nat, 1nat,
{
    match function.body {
        ProcedureBody::Native(native) => if function.arity is Some && function.arity->0
            != args.len() {
            Err(Failure::Arity)
        } else {
            apply_native(native, args)
        },
        ProcedureBody::Lambda(closure) => apply_closure(closure, args, depth),
    }
}

/// The result of calling a closure: its body evaluated in a fresh child of
/// the environment that the closure captured, whatever the caller's
/// environment is.
pub open spec fn apply_closure(closure: Closure, args: Seq<Term>, depth: nat) -> Result<
    Term,
    Failure,
>
    decreases depth, 1nat, 0nat,
{
    match closure_frame(closure.formals, args) {
        None => Err(Failure::Arity),
        Some(pairs) => eval_term(closure.env.child(frame_of(pairs)), *closure.body, depth),
    }
}

/// The result of calling `special` on unevaluated `operands` from `env`.
/// There must be exactly as many operands as the form declares.
pub open spec fn apply_special(special: Special, env: Env, operands: Seq<Term>, depth: nat) -> Result<
    Term,
    Failure,
>
    decreases depth, 1nat, 1nat,
{
    if operands.len() != special.arity {
        Err(Failure::Arity)
    } else {
        match special.body {
            SpecialBody::Native(native) => apply_native_special(native, env, operands),
            SpecialBody::Macro(definition) => expand_macro(definition, env, operands, depth),
        }
    }
}

/// The result of invoking a macro from `env`: two evaluations in a row.
/// The body, in a child of the macro's own environment that binds the
/// formals to the operands as written, yields code; that code is then
/// evaluated in `env`.
pub open spec fn expand_macro(definition: Closure, env: Env, operands: Seq<Term>, depth: nat) -> Result<
    Term,
    Failure,
>
    decreases depth, 1nat, 0nat,
{
    match eval_term(
        definition.env.child(frame_of(macro_frame(definition.formals, operands))),
        *definition.body,
        depth,
    ) {
        Err(failure) => Err(failure),
        Ok(code) => eval_term(env, code, depth),
    }
}

} // verus!
