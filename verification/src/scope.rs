//! Scopes: chains of name bindings.

use std::sync::Arc;
use vstd::prelude::*;

use crate::error::Error;
use crate::model::{
    frame_of, native_function, native_special, Env, NativeFunction, NativeSpecial, Term,
};
use crate::values::{Func, SpecialForm, Value};

verus! {

/// One frame of bindings with a link to the enclosing scope. Links point
/// towards the root only, so a chain of scopes always ends.
#[derive(Debug, PartialEq, Eq)]
pub struct Scope {
    /// The bindings of this frame, oldest first. Where a name occurs more
    /// than once, the last occurrence is the one in force.
    pub bindings: Vec<(String, Arc<Value>)>,
    /// The enclosing scope; `None` for a root.
    pub parent: Option<Arc<Scope>>,
}

/// The map that a list of bindings stands for: where a name occurs more than
/// once, the last occurrence counts.
pub open spec fn bindings_model(bindings: Seq<(String, Arc<Value>)>) -> Map<Seq<char>, Term>
    decreases bindings,
{
    if bindings.len() == 0 {
        Map::empty()
    } else {
        bindings_model(bindings.drop_last()).insert(bindings.last().0@, bindings.last().1.view())
    }
}

/// The models of a list of bindings, in order.
pub open spec fn pairs_of(bindings: Seq<(String, Arc<Value>)>) -> Seq<(Seq<char>, Term)> {
    Seq::new(bindings.len(), |i: int| (bindings[i].0@, bindings[i].1.view()))
}

/// The models of a list of bindings with one more are the models of the
/// list with the model of that one more.
pub proof fn lemma_pairs_push(bindings: Seq<(String, Arc<Value>)>, name: String, value: Arc<Value>)
    ensures
        pairs_of(bindings.push((name, value))) == pairs_of(bindings).push((name@, value.view())),
{
    assert(pairs_of(bindings.push((name, value))) =~= pairs_of(bindings).push(
        (name@, value.view()),
    ));
}

/// A list of bindings stands for the frame of its models.
pub proof fn lemma_bindings_frame(bindings: Seq<(String, Arc<Value>)>)
    ensures
        bindings_model(bindings) == frame_of(pairs_of(bindings)),
    decreases bindings.len(),
{
    if bindings.len() > 0 {
        lemma_bindings_frame(bindings.drop_last());
        assert(pairs_of(bindings).drop_last() =~= pairs_of(bindings.drop_last()));
    }
}

/// A name that occurs in a list of bindings, with none after it, is bound to
/// the value at that place.
pub proof fn lemma_bindings_found(bindings: Seq<(String, Arc<Value>)>, name: Seq<char>, at: int)
    requires
        0 <= at < bindings.len(),
        bindings[at].0@ == name,
        forall|j: int| at < j < bindings.len() ==> bindings[j].0@ != name,
    ensures
        bindings_model(bindings).contains_key(name),
        bindings_model(bindings)[name] == bindings[at].1.view(),
    decreases bindings.len(),
{
    if at < bindings.len() - 1 {
        lemma_bindings_found(bindings.drop_last(), name, at);
    }
}

/// A name that occurs nowhere in a list of bindings is not bound.
pub proof fn lemma_bindings_absent(bindings: Seq<(String, Arc<Value>)>, name: Seq<char>)
    requires
        forall|j: int| 0 <= j < bindings.len() ==> bindings[j].0@ != name,
    ensures
        !bindings_model(bindings).contains_key(name),
    decreases bindings.len(),
{
    if bindings.len() > 0 {
        lemma_bindings_absent(bindings.drop_last(), name);
    }
}

impl Scope {
    /// The environment that this scope stands for.
    pub open spec fn view(&self) -> Env
        decreases self,
    {
        Env {
            bindings: bindings_model(self.bindings@),
            parent: match self.parent {
                Some(parent) => Some(Box::new(parent.view())),
                None => None,
            },
        }
    }

    /// The root scope of the language.
    pub fn builtin() -> (scope: Arc<Scope>)
        ensures
            scope@ == Env::builtin(),
    {
        let mut scope = Scope { bindings: Vec::new(), parent: None };
        assert(scope@ == Env::empty()) by {
            assert(bindings_model(scope.bindings@) == Map::<Seq<char>, Term>::empty());
        }
        scope.bind_native_function("cons", 2, NativeFunction::Cons);
        scope.bind_native_function("car", 1, NativeFunction::Car);
        scope.bind_native_function("cdr", 1, NativeFunction::Cdr);
        scope.bind_special_form("quote", 1, NativeSpecial::Quote);
        scope.bind_special_form("lambda", 2, NativeSpecial::Lambda);
        Arc::new(scope)
    }

    /// Binds `name` in this frame to the primitive `native` as a function
    /// of exactly `arity` arguments.
    pub fn bind_native_function(&mut self, name: &'static str, arity: usize, native: NativeFunction)
        ensures
            final(self)@ == old(self)@.bind(name@, native_function(name@, arity as nat, native)),
    {
        self.bind(name, Func::from_native_with_arity(name, native, arity));
    }

    /// Binds `name` in this frame to the primitive `native` as a special
    /// form of exactly `arity` operands.
    pub fn bind_special_form(&mut self, name: &'static str, arity: usize, native: NativeSpecial)
        ensures
            final(self)@ == old(self)@.bind(name@, native_special(name@, arity as nat, native)),
    {
        self.bind(name, SpecialForm::from_native(name, arity, native));
    }

    /// Binds `name` to `value` in this frame, in place of what the frame
    /// bound it to before.
    pub fn bind(&mut self, name: &str, value: Arc<Value>)
        ensures
            final(self)@ == old(self)@.bind(name@, value@),
    {
        let ghost before = self.bindings@;
        self.bindings.push((String::from_str(name), value));
        assert(bindings_model(self.bindings@) == bindings_model(before).insert(name@, value@)) by {
            assert(self.bindings@.drop_last() =~= before);
        }
    }

    /// The value that the innermost frame binding `name` gives it, from this
    /// scope towards the root; a name that no frame binds is not found.
    pub fn lookup(&self, name: &str) -> (result: Result<Arc<Value>, Error>)
        ensures
            match self@.lookup(name@) {
                Some(term) => result matches Ok(value) && value@ == term,
                None => result matches Err(Error::NotFoundError(missing)) && missing@ == name@,
            },
    {
        let key = String::from_str(name);
        match self.find(&key) {
            Some(value) => Ok(value),
            None => Err(Error::NotFoundError(key)),
        }
    }

    /// The value bound to `key` on the chain that starts here, if any.
    fn find(&self, key: &String) -> (found: Option<Arc<Value>>)
        ensures
            match self@.lookup(key@) {
                Some(term) => found matches Some(value) && value@ == term,
                None => found is None,
            },
        decreases self,
    {
        let mut index = self.bindings.len();
        while index > 0
            invariant
                index <= self.bindings@.len(),
                forall|j: int| index <= j < self.bindings@.len() ==> self.bindings@[j].0@ != key@,
            decreases index,
        {
            index -= 1;
            if self.bindings[index].0 == *key {
                proof {
                    lemma_bindings_found(self.bindings@, key@, index as int);
                }
                return Some(self.bindings[index].1.clone());
            }
        }
        proof {
            lemma_bindings_absent(self.bindings@, key@);
        }
        match &self.parent {
            Some(parent) => parent.find(key),
            None => None,
        }
    }

    /// A scope that holds `bindings` and whose parent is `self`. Where a
    /// name occurs more than once in `bindings`, the last occurrence counts.
    pub fn new_child(self: &Arc<Self>, bindings: Vec<(String, Arc<Value>)>) -> (child: Arc<Scope>)
        ensures
            child@ == self@.child(frame_of(pairs_of(bindings@))),
    {
        proof {
            lemma_bindings_frame(bindings@);
        }
        Arc::new(Scope { bindings, parent: Some(self.clone()) })
    }
}

} // verus!
