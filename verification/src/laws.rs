//! Laws of the language, proved from the semantics.

use vstd::prelude::*;

use crate::error::Failure;
use crate::model::{
    frame_of, list_items, list_of, native_function, native_special, Closure, Env,
    NativeFunction, NativeSpecial, Procedure, ProcedureBody, Special, SpecialBody, Term,
};
use crate::semantics::{
    apply_closure, apply_function, apply_native, apply_special, closure_frame, depth_exceeded,
    eval_all, eval_term, expand_macro, has_splat, is_splat, macro_frame, splat_name,
};

verus! {

/// Building a list and taking it apart again gives back the elements.
pub proof fn law_items_of_list(items: Seq<Term>)
    ensures
        list_items(list_of(items)) == Some(items),
    decreases items.len(),
{
    if items.len() > 0 {
        law_items_of_list(items.drop_first());
        assert(seq![items[0]] + items.drop_first() =~= items);
    }
}

/// Taking a proper list apart and building it again gives back the list.
pub proof fn law_list_of_items(term: Term)
    requires
        list_items(term) is Some,
    ensures
        list_of(list_items(term)->0) == term,
    decreases term,
{
    match term {
        Term::Cell(left, right) => {
            law_list_of_items(*right);
            let rest = list_items(*right)->0;
            assert((seq![*left] + rest).drop_first() =~= rest);
        },
        _ => {},
    }
}

/// The root environment binds exactly the five primitives, each under its
/// own name.
pub proof fn law_builtin_bindings()
    ensures
        Env::builtin().lookup("cons"@) == Some(native_function("cons"@, 2, NativeFunction::Cons)),
        Env::builtin().lookup("car"@) == Some(native_function("car"@, 1, NativeFunction::Car)),
        Env::builtin().lookup("cdr"@) == Some(native_function("cdr"@, 1, NativeFunction::Cdr)),
        Env::builtin().lookup("quote"@) == Some(native_special("quote"@, 1, NativeSpecial::Quote)),
        Env::builtin().lookup("lambda"@) == Some(
            native_special("lambda"@, 2, NativeSpecial::Lambda),
        ),
        forall|name: Seq<char>|
            name != "cons"@ && name != "car"@ && name != "cdr"@ && name != "quote"@ && name
                != "lambda"@ ==> (#[trigger] Env::builtin().lookup(name)) is None,
{
    reveal_strlit("cons");
    reveal_strlit("car");
    reveal_strlit("cdr");
    reveal_strlit("quote");
    reveal_strlit("lambda");
    assert("cons"@.len() == 4 && "car"@.len() == 3 && "cdr"@.len() == 3 && "quote"@.len() == 5
        && "lambda"@.len() == 6);
    assert("car"@[1] != "cdr"@[1]);
}

/// Quoting suppresses evaluation: a quoted term evaluates to the term
/// inside, untouched, in every environment and at every depth.
pub proof fn law_quoted_yields_inner(env: Env, inner: Term, depth: nat)
    ensures
        eval_term(env, Term::Quoted(Box::new(inner)), depth) == Ok::<Term, Failure>(inner),
{
}

/// The `quote` form returns its operand as written: wherever the operator
/// evaluates to the `quote` primitive, `(quote x)` is `x`, whether or not
/// `x` could be evaluated.
pub proof fn law_quote_form_yields_operand(env: Env, operator: Term, operand: Term, depth: nat)
    requires
        eval_term(env, operator, depth) matches Ok(Term::SpecialForm(special))
            && special.arity == 1 && special.body == SpecialBody::Native(NativeSpecial::Quote),
    ensures
        eval_term(env, list_of(seq![operator, operand]), depth + 1) == Ok::<Term, Failure>(
            operand,
        ),
{
    let form = list_of(seq![operator, operand]);
    law_items_of_list(seq![operator, operand]);
    assert(seq![operator, operand].drop_first() =~= seq![operand]);
    law_items_of_list(seq![operand]);
    assert(form == Term::Cell(Box::new(operator), Box::new(list_of(seq![operand]))));
    let special = eval_term(env, operator, depth)->Ok_0->SpecialForm_0;
    assert(apply_special(special, env, seq![operand], depth) == Ok::<Term, Failure>(operand));
}

/// In the root environment `(quote x)` is `x` for every `x`, never an
/// unbound-symbol failure.
pub proof fn law_builtin_quote(operand: Term, depth: nat)
    requires
        depth > 0,
    ensures
        eval_term(Env::builtin(), list_of(seq![Term::Symbol("quote"@), operand]), depth) == Ok::<
            Term,
            Failure,
        >(operand),
{
    law_builtin_bindings();
    law_quote_form_yields_operand(
        Env::builtin(),
        Term::Symbol("quote"@),
        operand,
        (depth - 1) as nat,
    );
}

/// A symbol that no frame binds is not found, neither as a value nor as
/// the operator of an application.
pub proof fn law_unbound_symbol(env: Env, name: Seq<char>, operands: Seq<Term>, depth: nat)
    requires
        env.lookup(name) is None,
    ensures
        eval_term(env, Term::Symbol(name), depth) == Err::<Term, Failure>(Failure::NotFound(name)),
        eval_term(env, list_of(seq![Term::Symbol(name)] + operands), depth + 1) == Err::<
            Term,
            Failure,
        >(Failure::NotFound(name)),
{
    let items = seq![Term::Symbol(name)] + operands;
    assert(items.drop_first() =~= operands);
    law_items_of_list(operands);
}

/// A primitive function with a declared number of arguments fails with an
/// arity error on any other number, whatever the arguments are.
pub proof fn law_native_arity(function: Procedure, args: Seq<Term>, depth: nat)
    requires
        function.body is Native,
        function.arity matches Some(arity) && arity != args.len(),
    ensures
        apply_function(function, args, depth) == Err::<Term, Failure>(Failure::Arity),
{
}

/// An application whose operator evaluates to a primitive function fails
/// with an arity error when the number of operands is not the declared
/// one, provided the operands themselves evaluate: so does `car` in the
/// root environment on no operand or on two.
pub proof fn law_native_call_arity(
    env: Env,
    operator: Term,
    operands: Seq<Term>,
    function: Procedure,
    depth: nat,
)
    requires
        eval_term(env, operator, depth) == Ok::<Term, Failure>(Term::Function(function)),
        function.body is Native,
        function.arity matches Some(arity) && arity != operands.len(),
        eval_all(env, operands, depth) is Ok,
    ensures
        eval_term(env, list_of(seq![operator] + operands), depth + 1) == Err::<Term, Failure>(
            Failure::Arity,
        ),
{
    assert((seq![operator] + operands).drop_first() =~= operands);
    law_items_of_list(operands);
    lemma_eval_all_length(env, operands, depth);
    let args = eval_all(env, operands, depth)->Ok_0;
    assert(apply_function(function, args, depth) == Err::<Term, Failure>(Failure::Arity));
}

/// Evaluating a sequence of terms yields one value for each.
pub proof fn lemma_eval_all_length(env: Env, terms: Seq<Term>, depth: nat)
    ensures
        eval_all(env, terms, depth) matches Ok(values) ==> values.len() == terms.len(),
    decreases terms.len(),
{
    if terms.len() > 0 {
        lemma_eval_all_length(env, terms.drop_first(), depth);
    }
}

/// The primitives themselves take two, one and one arguments.
pub proof fn law_primitive_arity(native: NativeFunction, args: Seq<Term>)
    requires
        args.len() != (if native == NativeFunction::Cons {
            2nat
        } else {
            1nat
        }),
    ensures
        apply_native(native, args) == Err::<Term, Failure>(Failure::Arity),
{
}

/// A special form fails with an arity error unless it gets exactly as many
/// operands as it declares.
pub proof fn law_special_arity(special: Special, env: Env, operands: Seq<Term>, depth: nat)
    requires
        special.arity != operands.len(),
    ensures
        apply_special(special, env, operands, depth) == Err::<Term, Failure>(Failure::Arity),
{
}

/// A closure without a variadic formal fails with an arity error unless it
/// gets exactly as many arguments as it has formals; one whose last formal
/// is variadic fails with it when the arguments do not reach that formal.
pub proof fn law_closure_arity(closure: Closure, args: Seq<Term>, depth: nat)
    requires
        if has_splat(closure.formals) {
            args.len() < closure.formals.len() - 1
        } else {
            args.len() != closure.formals.len()
        },
    ensures
        apply_closure(closure, args, depth) == Err::<Term, Failure>(Failure::Arity),
{
    let formals = closure.formals;
    if formals.len() > 0 && is_splat(formals.last()) {
        assert(has_splat(formals));
    }
}

/// A variadic formal must come last: a closure with one before its last
/// formal fits no arguments at all.
pub proof fn law_variadic_must_be_last(closure: Closure, args: Seq<Term>, depth: nat)
    requires
        closure.formals.len() > 0,
        has_splat(closure.formals.drop_last()),
    ensures
        apply_closure(closure, args, depth) == Err::<Term, Failure>(Failure::Arity),
{
    let formals = closure.formals;
    let at = choose|i: int| 0 <= i < formals.drop_last().len() && is_splat(formals.drop_last()[i]);
    assert(formals[at] == formals.drop_last()[at]);
    assert(has_splat(formals));
}

/// A trailing variadic formal takes the list of the arguments that the
/// formals before it leave over, and those formals take one argument each.
pub proof fn law_variadic_takes_the_rest(closure: Closure, args: Seq<Term>, depth: nat)
    requires
        closure.formals.len() > 0,
        is_splat(closure.formals.last()),
        !has_splat(closure.formals.drop_last()),
        args.len() >= closure.formals.len() - 1,
    ensures
        closure_frame(closure.formals, args) matches Some(pairs) && pairs.len()
            == closure.formals.len() && pairs.last() == (
            splat_name(closure.formals.last()),
            list_of(args.skip(closure.formals.len() - 1)),
        ) && forall|i: int|
            0 <= i < closure.formals.len() - 1 ==> #[trigger] pairs[i] == (
                closure.formals[i],
                args[i],
            ),
{
}

/// Lexical scope: what an application of a function yields depends on the
/// function and on the values of the operands, not on the environment in
/// which the application stands. Two applications that reach the same
/// function with the same arguments from two environments agree.
pub proof fn law_lexical_scope(
    here: Env,
    there: Env,
    operator_here: Term,
    operator_there: Term,
    operands_here: Seq<Term>,
    operands_there: Seq<Term>,
    function: Procedure,
    args: Seq<Term>,
    depth: nat,
)
    requires
        eval_term(here, operator_here, depth) == Ok::<Term, Failure>(Term::Function(function)),
        eval_term(there, operator_there, depth) == Ok::<Term, Failure>(Term::Function(function)),
        eval_all(here, operands_here, depth) == Ok::<Seq<Term>, Failure>(args),
        eval_all(there, operands_there, depth) == Ok::<Seq<Term>, Failure>(args),
    ensures
        eval_term(here, list_of(seq![operator_here] + operands_here), depth + 1) == apply_function(
            function,
            args,
            depth,
        ),
        eval_term(there, list_of(seq![operator_there] + operands_there), depth + 1)
            == apply_function(function, args, depth),
{
    assert((seq![operator_here] + operands_here).drop_first() =~= operands_here);
    assert((seq![operator_there] + operands_there).drop_first() =~= operands_there);
    law_items_of_list(operands_here);
    law_items_of_list(operands_there);
}

/// A closure call evaluates the body in a child of the captured
/// environment, which holds the formals and nothing of the caller.
pub proof fn law_closure_captures(closure: Closure, args: Seq<Term>, depth: nat)
    requires
        closure_frame(closure.formals, args) is Some,
    ensures
        apply_closure(closure, args, depth) == eval_term(
            closure.env.child(frame_of(closure_frame(closure.formals, args)->0)),
            *closure.body,
            depth,
        ),
{
}

/// The two phases of a macro: once its body has yielded code in the
/// macro's own environment, the result of the invocation is the value of
/// that code in the caller's environment, not the code itself.
pub proof fn law_macro_two_phases(
    definition: Closure,
    env: Env,
    operands: Seq<Term>,
    code: Term,
    depth: nat,
)
    requires
        eval_term(
            definition.env.child(
                frame_of(macro_frame(definition.formals, operands)),
            ),
            *definition.body,
            depth,
        ) == Ok::<Term, Failure>(code),
    ensures
        expand_macro(definition, env, operands, depth) == eval_term(env, code, depth),
{
}

/// An application whose operator evaluates to a macro hands the macro its
/// operands as written and yields what the invocation yields.
pub proof fn law_macro_invocation(
    env: Env,
    operator: Term,
    special: Special,
    definition: Closure,
    operands: Seq<Term>,
    depth: nat,
)
    requires
        eval_term(env, operator, depth) == Ok::<Term, Failure>(Term::SpecialForm(special)),
        special.arity == operands.len(),
        special.body == SpecialBody::Macro(definition),
    ensures
        eval_term(env, list_of(seq![operator] + operands), depth + 1) == expand_macro(
            definition,
            env,
            operands,
            depth,
        ),
{
    assert((seq![operator] + operands).drop_first() =~= operands);
    law_items_of_list(operands);
    assert(apply_special(special, env, operands, depth) == expand_macro(
        definition,
        env,
        operands,
        depth,
    ));
}

/// An improper list: the left slot of a cell is well defined whatever its
/// right slot holds, but a chain that ends in a symbol has no operand
/// list, and evaluating it as an application is a type error.
pub proof fn law_improper_list(env: Env, left: Term, name: Seq<char>, depth: nat)
    ensures
        apply_native(
            NativeFunction::Car,
            seq![Term::Cell(Box::new(left), Box::new(Term::Symbol(name)))],
        ) == Ok::<Term, Failure>(left),
        list_items(Term::Cell(Box::new(left), Box::new(Term::Symbol(name)))) is None,
        eval_term(env, Term::Cell(Box::new(left), Box::new(Term::Symbol(name))), depth) == Err::<
            Term,
            Failure,
        >(Failure::Type),
{
}

/// Evaluation does not depend on the depth bound: a result other than
/// running out of depth stays the same under every larger bound.
pub proof fn law_depth_irrelevant(env: Env, term: Term, depth: nat, more: nat)
    requires
        eval_term(env, term, depth) != Err::<Term, Failure>(depth_exceeded()),
        depth <= more,
    ensures
        eval_term(env, term, more) == eval_term(env, term, depth),
    decreases more - depth,
{
    if depth < more {
        lemma_eval_term_stable(env, term, depth);
        law_depth_irrelevant(env, term, depth + 1, more);
    }
}

/// One more level of depth leaves the value of a term as it is.
pub proof fn lemma_eval_term_stable(env: Env, term: Term, depth: nat)
    ensures
        eval_term(env, term, depth) != Err::<Term, Failure>(depth_exceeded()) ==> eval_term(
            env,
            term,
            depth + 1,
        ) == eval_term(env, term, depth),
    decreases depth, 0nat, 0nat,
{
    match term {
        Term::Cell(operator, rest) => {
            match list_items(*rest) {
                Some(operands) => {
                    if depth > 0 {
                        let below = (depth - 1) as nat;
                        lemma_eval_term_stable(env, *operator, below);
                        match eval_term(env, *operator, below) {
                            Ok(Term::Function(function)) => {
                                lemma_eval_all_stable(env, operands, below);
                                match eval_all(env, operands, below) {
                                    Ok(args) => {
                                        lemma_apply_function_stable(function, args, below);
                                    },
                                    Err(_) => {},
                                }
                            },
                            Ok(Term::SpecialForm(special)) => {
                                lemma_apply_special_stable(special, env, operands, below);
                            },
                            _ => {},
                        }
                    }
                },
                None => {},
            }
        },
        _ => {},
    }
}

/// One more level of depth leaves the values of a sequence of terms as
/// they are.
pub proof fn lemma_eval_all_stable(env: Env, terms: Seq<Term>, depth: nat)
    ensures
        eval_all(env, terms, depth) != Err::<Seq<Term>, Failure>(depth_exceeded()) ==> eval_all(
            env,
            terms,
            depth + 1,
        ) == eval_all(env, terms, depth),
    decreases depth, 1nat, terms.len(),
{
    if terms.len() > 0 {
        lemma_eval_term_stable(env, terms[0], depth);
        lemma_eval_all_stable(env, terms.drop_first(), depth);
    }
}

/// One more level of depth leaves the result of a function call as it is.
pub proof fn lemma_apply_function_stable(function: Procedure, args: Seq<Term>, depth: nat)
    ensures
        apply_function(function, args, depth) != Err::<Term, Failure>(depth_exceeded())
            ==> apply_function(function, args, depth + 1) == apply_function(
            function,
            args,
            depth,
        ),
    decreases depth, 1nat, 1nat,
{
    match function.body {
        ProcedureBody::Lambda(closure) => {
            lemma_apply_closure_stable(closure, args, depth);
        },
        ProcedureBody::Native(_) => {},
    }
}

/// One more level of depth leaves the result of a closure call as it is.
pub proof fn lemma_apply_closure_stable(closure: Closure, args: Seq<Term>, depth: nat)
    ensures
        apply_closure(closure, args, depth) != Err::<Term, Failure>(depth_exceeded())
            ==> apply_closure(closure, args, depth + 1) == apply_closure(closure, args, depth),
    decreases depth, 1nat, 0nat,
{
    match closure_frame(closure.formals, args) {
        Some(pairs) => {
            lemma_eval_term_stable(
                closure.env.child(frame_of(pairs)),
                *closure.body,
                depth,
            );
        },
        None => {},
    }
}

/// One more level of depth leaves the result of a special form as it is.
pub proof fn lemma_apply_special_stable(
    special: Special,
    env: Env,
    operands: Seq<Term>,
    depth: nat,
)
    ensures
        apply_special(special, env, operands, depth) != Err::<Term, Failure>(depth_exceeded())
            ==> apply_special(special, env, operands, depth + 1) == apply_special(
            special,
            env,
            operands,
            depth,
        ),
    decreases depth, 1nat, 1nat,
{
    if operands.len() == special.arity {
        match special.body {
            SpecialBody::Macro(definition) => {
                lemma_expand_macro_stable(definition, env, operands, depth);
            },
            SpecialBody::Native(_) => {},
        }
    }
}

/// One more level of depth leaves the result of a macro invocation as it
/// is.
pub proof fn lemma_expand_macro_stable(
    definition: Closure,
    env: Env,
    operands: Seq<Term>,
    depth: nat,
)
    ensures
        expand_macro(definition, env, operands, depth) != Err::<Term, Failure>(depth_exceeded())
            ==> expand_macro(definition, env, operands, depth + 1) == expand_macro(
            definition,
            env,
            operands,
            depth,
        ),
    decreases depth, 1nat, 0nat,
{
    let inner = definition.env.child(
        frame_of(macro_frame(definition.formals, operands)),
    );
    lemma_eval_term_stable(inner, *definition.body, depth);
    match eval_term(inner, *definition.body, depth) {
        Ok(code) => {
            lemma_eval_term_stable(env, code, depth);
        },
        Err(_) => {},
    }
}

} // verus!
