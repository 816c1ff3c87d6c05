//! The mathematical model of values and scopes.
//!
//! Executable values share structure through reference counting; their
//! models are plain trees, so two values are the same term exactly when
//! they have the same shape and the same leaves. Terms and environments
//! are finite by construction: no term contains itself, and an environment
//! reaches its root in finitely many steps.

use vstd::prelude::*;

verus! {

/// The primitives that a root scope binds as functions.
#[derive(Debug, Clone, Copy, PartialEq, Eq, Structural)]
pub enum NativeFunction {
    /// Builds a cell from two arguments.
    Cons,
    /// Projects the left slot of a cell.
    Car,
    /// Projects the right slot of a cell.
    Cdr,
}

/// The primitives that a root scope binds as special forms.
#[derive(Debug, Clone, Copy, PartialEq, Eq, Structural)]
pub enum NativeSpecial {
    /// Returns its operand unevaluated.
    Quote,
    /// Builds a closure over the calling scope.
    Lambda,
}

/// The model of a value.
pub enum Term {
    /// The empty list.
    Nil,
    /// A pair of a left and a right term.
    Cell(Box<Term>, Box<Term>),
    /// An identifier, by its characters.
    Symbol(Seq<char>),
    /// A term shielded from evaluation.
    Quoted(Box<Term>),
    /// A callable that receives evaluated arguments.
    Function(Procedure),
    /// A callable that receives its operands unevaluated.
    SpecialForm(Special),
}

/// A body with its formal parameters and the environment it was defined in.
pub struct Closure {
    pub env: Env,
    pub formals: Seq<Seq<char>>,
    pub body: Box<Term>,
}

/// What a function runs when it is called.
pub enum ProcedureBody {
    Native(NativeFunction),
    Lambda(Closure),
}

/// The model of a function value.
pub struct Procedure {
    pub name: Seq<char>,
    pub arity: Option<nat>,
    pub body: ProcedureBody,
}

/// What a special form runs when it is called.
pub enum SpecialBody {
    Native(NativeSpecial),
    Macro(Closure),
}

/// The model of a special form.
pub struct Special {
    pub name: Seq<char>,
    pub arity: nat,
    pub body: SpecialBody,
}

/// The model of a scope: one frame of bindings and the enclosing environment.
pub struct Env {
    pub bindings: Map<Seq<char>, Term>,
    pub parent: Option<Box<Env>>,
}

/// The proper list whose elements are `items`, in order.
pub open spec fn list_of(items: Seq<Term>) -> Term
    decreases items.len(),
{
    if items.len() == 0 {
        Term::Nil
    } else {
        Term::Cell(Box::new(items[0]), Box::new(list_of(items.drop_first())))
    }
}

/// The elements of a proper list, or `None` for a chain that does not end in
/// `Nil`.
pub open spec fn list_items(term: Term) -> Option<Seq<Term>>
    decreases term,
{
    match term {
        Term::Nil => Some(Seq::empty()),
        Term::Cell(left, right) => match list_items(*right) {
            Some(rest) => Some(seq![*left] + rest),
            None => None,
        },
        _ => None,
    }
}

/// The name that every user-defined function carries.
pub open spec fn lambda_name() -> Seq<char> {
    "#lambda"@
}

/// The name that every macro carries.
pub open spec fn macro_name() -> Seq<char> {
    "#macro"@
}

/// The function value that wraps the primitive `native` under `name`, with
/// a declared number of arguments.
pub open spec fn native_function(name: Seq<char>, arity: nat, native: NativeFunction) -> Term {
    Term::Function(Procedure { name, arity: Some(arity), body: ProcedureBody::Native(native) })
}

/// The special form that wraps the primitive `native` under `name`.
pub open spec fn native_special(name: Seq<char>, arity: nat, native: NativeSpecial) -> Term {
    Term::SpecialForm(Special { name, arity, body: SpecialBody::Native(native) })
}

/// The frame that a list of bindings stands for: where a name occurs more
/// than once, its last occurrence counts.
pub open spec fn frame_of(pairs: Seq<(Seq<char>, Term)>) -> Map<Seq<char>, Term>
    decreases pairs.len(),
{
    if pairs.len() == 0 {
        Map::empty()
    } else {
        frame_of(pairs.drop_last()).insert(pairs.last().0, pairs.last().1)
    }
}

impl Env {
    /// The root environment with no bindings.
    pub open spec fn empty() -> Env {
        Env { bindings: Map::empty(), parent: None }
    }

    /// This environment with `name` bound to `term` in its innermost frame.
    pub open spec fn bind(self, name: Seq<char>, term: Term) -> Env {
        Env { bindings: self.bindings.insert(name, term), parent: self.parent }
    }

    /// A fresh frame holding `bindings` whose parent is this environment.
    pub open spec fn child(self, bindings: Map<Seq<char>, Term>) -> Env {
        Env { bindings, parent: Some(Box::new(self)) }
    }

    /// The root environment of the language: `cons`, `car` and `cdr` as
    /// functions of two, one and one arguments, `quote` and `lambda` as
    /// special forms of one and two operands.
    pub open spec fn builtin() -> Env {
        Env::empty().bind("cons"@, native_function("cons"@, 2, NativeFunction::Cons)).bind(
            "car"@,
            native_function("car"@, 1, NativeFunction::Car),
        ).bind("cdr"@, native_function("cdr"@, 1, NativeFunction::Cdr)).bind(
            "quote"@,
            native_special("quote"@, 1, NativeSpecial::Quote),
        ).bind("lambda"@, native_special("lambda"@, 2, NativeSpecial::Lambda))
    }

    /// The value of `name` in the innermost frame that binds it.
    pub open spec fn lookup(self, name: Seq<char>) -> Option<Term>
        decreases self,
    {
        if self.bindings.contains_key(name) {
            Some(self.bindings[name])
        } else {
            match self.parent {
                Some(parent) => parent.lookup(name),
                None => None,
            }
        }
    }
}

} // verus!
