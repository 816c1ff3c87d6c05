//! The printer: a value back to text.

use std::sync::Arc;
use vstd::prelude::*;

use crate::model::Term;
use crate::values::Value;

verus! {

/// The text of a term.
///
/// `Nil` is `nil`, a symbol is its name, a quoted term is a quote mark and
/// the term, and a cell is its chain between parentheses. Functions and
/// special forms show a fixed placeholder and nothing of what they hold.
pub open spec fn render(term: Term) -> Seq<char>
    decreases term, 1int,
{
    match term {
        Term::Nil => "nil"@,
        Term::Symbol(name) => name,
        Term::Quoted(inner) => "'"@ + render(*inner),
        Term::Function(_) => "#func"@,
        Term::SpecialForm(_) => "#special_form"@,
        Term::Cell(_, _) => "("@ + render_chain(term, true),
    }
}

/// The text of a chain of cells from `term` on, up to and including the
/// closing paren; `first` says that no element has been written yet.
///
/// The left slots are separated by single spaces. A chain that ends in `Nil`
/// closes at once; one that ends in anything else shows that value after
/// ` . `.
pub open spec fn render_chain(term: Term, first: bool) -> Seq<char>
    decreases term, (if term is Cell { 0int } else { 2int }),
{
    match term {
        Term::Cell(left, right) => (if first {
            Seq::<char>::empty()
        } else {
            " "@
        }) + render(*left) + render_chain(*right, false),
        Term::Nil => ")"@,
        _ => " . "@ + render(term) + ")"@,
    }
}

/// Appends to `buffer` an open-paren and the chain that starts at `list`.
pub fn print_list(buffer: &mut String, list: &Arc<Value>)
    ensures
        final(buffer)@ == old(buffer)@ + "("@ + render_chain(list@, true),
    decreases list@, (if list@ is Cell { 0int } else { 2int }),
{
    buffer.append("(");
    let mut first = true;
    let mut current: &Arc<Value> = list;
    loop
        invariant
            buffer@ + render_chain(current@, first) == old(buffer)@ + "("@ + render_chain(
                list@,
                true,
            ),
            current@ == list@ || decreases_to!(list@ => current@),
            first ==> current@ == list@,
        ensures
            !(current@ is Cell),
        decreases current@,
    {
        match &**current {
            Value::Cell(cell) => {
                let ghost before = buffer@;
                let ghost was_first = first;
                if first {
                    first = false;
                    assert(before + Seq::<char>::empty() =~= before);
                } else {
                    buffer.append(" ");
                }
                print_value(buffer, &cell.left);
                assert(buffer@ + render_chain(cell.right@, false) =~= before + render_chain(
                    current@,
                    was_first,
                ));
                current = &cell.right;
            },
            _ => {
                break;
            },
        }
    }
    match &**current {
        Value::Nil => {},
        _ => {
            buffer.append(" . ");
            print_value(buffer, current);
        },
    }
    buffer.append(")");
}

/// Appends the text of `value` to `buffer`.
pub fn print_value(buffer: &mut String, value: &Arc<Value>)
    ensures
        final(buffer)@ == old(buffer)@ + render(value@),
    decreases value@, 1int,
{
    match &**value {
        Value::Cell(_) => {
            print_list(buffer, value);
        },
        Value::Symbol(name) => {
            buffer.append(name.as_str());
        },
        Value::Quoted(inner) => {
            buffer.append("'");
            assert(*value@->Quoted_0 == inner@);
            print_value(buffer, inner);
        },
        Value::Function(_) => {
            buffer.append("#func");
        },
        Value::SpecialForm(_) => {
            buffer.append("#special_form");
        },
        Value::Nil => {
            buffer.append("nil");
        },
    }
}

/// The text of `value`.
pub fn to_string(value: &Arc<Value>) -> (text: String)
    ensures
        text@ == render(value@),
{
    let mut buffer = String::new();
    print_value(&mut buffer, value);
    buffer
}

} // verus!
