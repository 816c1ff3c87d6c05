//! The reader: text to exactly one value.

use std::sync::Arc;
use vstd::prelude::*;

use crate::error::Error;
use crate::model::{list_of, Term};
use crate::tokenizer::{lemma_next_lexeme, next_lexeme, Lexeme, Token, Tokenizer};
use crate::values::{terms_of, Cell, Value};

verus! {

/// The expression that starts with the first token at or after `from`, with
/// the position that follows it; `None` where the text holds no complete
/// expression there.
///
/// A symbol stands for itself, a quote mark wraps the expression after it,
/// and an open-paren starts a list that runs to the matching close-paren.
/// The tests on positions only witness that reading moves forward: by
/// [`lemma_parse_form_advances`] they never fail.
pub open spec fn parse_form(text: Seq<char>, from: int) -> Option<(Term, int)>
    decreases text.len() - from, 0int,
{
    match next_lexeme(text, from) {
        Some((lexeme, after)) if from < after <= text.len() => match lexeme {
            Lexeme::Symbol(name) => Some((Term::Symbol(name), after)),
            Lexeme::CloseParen => None,
            Lexeme::QuoteMark => match parse_form(text, after) {
                Some((inner, end)) => Some((Term::Quoted(Box::new(inner)), end)),
                None => None,
            },
            Lexeme::OpenParen => match parse_items(text, after) {
                Some((items, end)) => Some((list_of(items), end)),
                None => None,
            },
        },
        _ => None,
    }
}

/// The expressions from `from` up to the close-paren that ends their list,
/// in written order, with the position after that close-paren; `None` where
/// one of them is malformed or the list is never closed.
pub open spec fn parse_items(text: Seq<char>, from: int) -> Option<(Seq<Term>, int)>
    decreases text.len() - from, 1int,
{
    match next_lexeme(text, from) {
        Some((Lexeme::CloseParen, after)) => Some((Seq::empty(), after)),
        _ => match parse_form(text, from) {
            Some((head, next)) if from < next <= text.len() => match parse_items(text, next) {
                Some((rest, end)) => Some((seq![head] + rest, end)),
                None => None,
            },
            _ => None,
        },
    }
}

/// The one expression that `text` holds, or `None` where it holds none, a
/// malformed one, or anything after the first.
pub open spec fn parse_text(text: Seq<char>) -> Option<Term> {
    match parse_form(text, 0) {
        Some((term, end)) if next_lexeme(text, end) is None => Some(term),
        _ => None,
    }
}

/// Reading an expression consumes at least one character and stays within
/// the text.
pub proof fn lemma_parse_form_advances(text: Seq<char>, from: int)
    ensures
        parse_form(text, from) matches Some((_, end)) ==> from < end <= text.len(),
        parse_items(text, from) matches Some((_, end)) ==> from < end <= text.len(),
    decreases text.len() - from, 1int,
{
    lemma_next_lexeme(text, from);
    match next_lexeme(text, from) {
        Some((lexeme, after)) => {
            match lexeme {
                Lexeme::QuoteMark => {
                    lemma_parse_form_advances(text, after);
                },
                Lexeme::OpenParen => {
                    lemma_parse_form_advances(text, after);
                },
                _ => {},
            }
            match parse_form(text, from) {
                Some((_, next)) => {
                    lemma_parse_form_advances(text, next);
                },
                None => {},
            }
        },
        None => {},
    }
}

/// Reads one expression at the tokenizer's position.
pub fn parse_value(tokenizer: &mut Tokenizer) -> (result: Result<Arc<Value>, Error>)
    ensures
        final(tokenizer).text() == old(tokenizer).text(),
        match parse_form(old(tokenizer).text(), old(tokenizer).position()) {
            Some((term, end)) => result matches Ok(value) && value@ == term
                && final(tokenizer).position() == end,
            None => result matches Err(Error::ParseError),
        },
    decreases old(tokenizer).text().len() - old(tokenizer).position(),
{
    let ghost text = tokenizer.text();
    let ghost from = tokenizer.position();
    match tokenizer.next() {
        None => Err(Error::ParseError),
        Some(Token::CloseParen) => Err(Error::ParseError),
        Some(Token::Symbol(name)) => Ok(Arc::new(Value::Symbol(name))),
        Some(Token::QuoteMark) => {
            match parse_value(tokenizer) {
                Ok(inner) => Ok(Arc::new(Value::Quoted(inner))),
                Err(error) => Err(error),
            }
        },
        Some(Token::OpenParen) => {
            let ghost first = tokenizer.position();
            let mut values: Vec<Arc<Value>> = Vec::new();
            assert(terms_of(values@) =~= Seq::<Term>::empty());
            loop
                invariant
                    text == old(tokenizer).text(),
                    from == old(tokenizer).position(),
                    next_lexeme(text, from) == Some((Lexeme::OpenParen, first)),
                    tokenizer.text() == text,
                    from < first <= tokenizer.position() <= text.len(),
                    match parse_items(text, tokenizer.position()) {
                        Some((rest, end)) => parse_items(text, first) == Some(
                            (terms_of(values@) + rest, end),
                        ),
                        None => parse_items(text, first) is None,
                    },
                ensures
                    next_lexeme(text, tokenizer.position()) matches Some((Lexeme::CloseParen, _)),
                decreases text.len() - tokenizer.position(),
            {
                let ghost here = tokenizer.position();
                proof {
                    lemma_next_lexeme(text, here);
                }
                if tokenizer.next_is_close_paren() {
                    break;
                }
                let ghost start = tokenizer.position();
                proof {
                    lemma_next_lexeme(text, start);
                    lemma_parse_form_advances(text, start);
                    lemma_parse_form_advances(text, here);
                    assert(parse_form(text, start) == parse_form(text, here));
                }
                match parse_value(tokenizer) {
                    Ok(value) => {
                        proof {
                            let next = tokenizer.position();
                            match parse_items(text, next) {
                                Some((rest, end)) => {
                                    assert(terms_of(values@.push(value)) + rest =~= terms_of(
                                        values@,
                                    ) + (seq![value@] + rest));
                                },
                                None => {},
                            }
                        }
                        values.push(value);
                    },
                    Err(error) => {
                        return Err(error);
                    },
                }
            }
            let closing = tokenizer.next();
            proof {
                assert(terms_of(values@) + Seq::<Term>::empty() =~= terms_of(values@));
            }
            Ok(Cell::from_vec(values))
        },
    }
}

/// Reads `input` as exactly one expression.
///
/// Lists keep the order in which their elements were written. Text that
/// holds no expression, an unmatched close-paren, a list that is never
/// closed, or anything after the first expression is a parse error.
pub fn parse(input: &str) -> (result: Result<Arc<Value>, Error>)
    ensures
        match parse_text(input@) {
            Some(term) => result matches Ok(value) && value@ == term,
            None => result matches Err(Error::ParseError),
        },
{
    let mut tokenizer = Tokenizer::new(input);
    let value = match parse_value(&mut tokenizer) {
        Ok(value) => value,
        Err(error) => {
            return Err(error);
        },
    };
    if tokenizer.next().is_some() {
        return Err(Error::ParseError);
    }
    Ok(value)
}

} // verus!
