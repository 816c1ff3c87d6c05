//! Laws that tie the printer to the reader.

use vstd::prelude::*;

use crate::model::{list_of, Term};
use crate::parser::{lemma_parse_form_advances, parse_form, parse_items, parse_text};
use crate::printer::{render, render_chain};
use crate::tokenizer::{
    is_blank, is_symbol_char, lemma_next_lexeme, lemma_skip_blanks, lemma_symbol_end, lexemes,
    next_lexeme, skip_blanks, symbol_end, Lexeme,
};

verus! {

/// A name that reads back as a single symbol: not empty, and made of symbol
/// characters only.
pub open spec fn is_symbol_name(name: Seq<char>) -> bool {
    name.len() > 0 && forall|i: int| 0 <= i < name.len() ==> is_symbol_char(#[trigger] name[i])
}

/// Whether every symbol in `term` has a name that reads back as a single
/// symbol.
pub open spec fn printable(term: Term) -> bool
    decreases term,
{
    match term {
        Term::Symbol(name) => is_symbol_name(name),
        Term::Quoted(inner) => printable(*inner),
        Term::Cell(left, right) => printable(*left) && printable(*right),
        _ => true,
    }
}

/// What the text of `term` reads back as.
///
/// Symbols, quoting and proper lists come back as they were. `Nil` and the
/// callables come back as the symbols that their texts spell, and a chain
/// that ends in anything but `Nil` comes back as a proper list with a `.`
/// before its last element.
pub open spec fn reread(term: Term) -> Term
    decreases term, 1int,
{
    match term {
        Term::Nil => Term::Symbol("nil"@),
        Term::Symbol(_) => term,
        Term::Quoted(inner) => Term::Quoted(Box::new(reread(*inner))),
        Term::Function(_) => Term::Symbol("#func"@),
        Term::SpecialForm(_) => Term::Symbol("#special_form"@),
        Term::Cell(_, _) => list_of(reread_chain(term)),
    }
}

/// What the elements of the chain that starts at `term` read back as.
pub open spec fn reread_chain(term: Term) -> Seq<Term>
    decreases term, (if term is Cell { 0int } else { 2int }),
{
    match term {
        Term::Cell(left, right) => seq![reread(*left)] + reread_chain(*right),
        Term::Nil => Seq::empty(),
        _ => seq![Term::Symbol("."@), reread(term)],
    }
}

/// Whether `piece` stands in `text` at `at`.
pub open spec fn occurs(text: Seq<char>, at: int, piece: Seq<char>) -> bool {
    &&& 0 <= at
    &&& at + piece.len() <= text.len()
    &&& text.subrange(at, at + piece.len()) == piece
}

/// Whether a symbol that ends just before `at` really ends there.
pub open spec fn delimited(text: Seq<char>, at: int) -> bool {
    at >= text.len() || !is_symbol_char(text[at])
}

/// Where two pieces stand one after the other, each stands at its place.
pub proof fn lemma_occurs_split(text: Seq<char>, at: int, first: Seq<char>, second: Seq<char>)
    requires
        occurs(text, at, first + second),
    ensures
        occurs(text, at, first),
        occurs(text, at + first.len(), second),
{
    let whole = first + second;
    assert(text.subrange(at, at + first.len()) =~= first) by {
        assert forall|i: int| 0 <= i < first.len() implies text[at + i] == first[i] by {
            assert(text.subrange(at, at + whole.len())[i] == whole[i]);
        }
    }
    assert(text.subrange(at + first.len(), at + first.len() + second.len()) =~= second) by {
        assert forall|i: int| 0 <= i < second.len() implies text[at + first.len() + i]
            == second[i] by {
            assert(text.subrange(at, at + whole.len())[first.len() + i] == whole[first.len() + i]);
        }
    }
}

/// Where a piece stands, each of its characters stands.
pub proof fn lemma_occurs_at(text: Seq<char>, at: int, piece: Seq<char>, offset: int)
    requires
        occurs(text, at, piece),
        0 <= offset < piece.len(),
    ensures
        text[at + offset] == piece[offset],
{
    assert(text.subrange(at, at + piece.len())[offset] == piece[offset]);
}

/// A character that is not blank decides the token that starts on it.
pub proof fn lemma_lexeme_at(text: Seq<char>, at: int)
    requires
        0 <= at < text.len(),
        !is_blank(text[at]),
    ensures
        text[at] == '(' ==> next_lexeme(text, at) == Some((Lexeme::OpenParen, at + 1)),
        text[at] == ')' ==> next_lexeme(text, at) == Some((Lexeme::CloseParen, at + 1)),
        text[at] == '\'' ==> next_lexeme(text, at) == Some((Lexeme::QuoteMark, at + 1)),
        is_symbol_char(text[at]) ==> next_lexeme(text, at) == Some(
            (Lexeme::Symbol(text.subrange(at, symbol_end(text, at))), symbol_end(text, at)),
        ),
{
}

/// A run of symbol characters that is delimited at its end is one symbol.
pub proof fn lemma_symbol_run(text: Seq<char>, at: int, name: Seq<char>)
    requires
        occurs(text, at, name),
        forall|i: int| 0 <= i < name.len() ==> is_symbol_char(#[trigger] name[i]),
        delimited(text, at + name.len()),
    ensures
        symbol_end(text, at) == at + name.len(),
    decreases name.len(),
{
    if name.len() > 0 {
        lemma_occurs_at(text, at, name, 0);
        assert(name == seq![name[0]] + name.drop_first());
        lemma_occurs_split(text, at, seq![name[0]], name.drop_first());
        assert forall|i: int| 0 <= i < name.drop_first().len() implies is_symbol_char(
            #[trigger] name.drop_first()[i],
        ) by {
            assert(name.drop_first()[i] == name[i + 1]);
        }
        lemma_symbol_run(text, at + 1, name.drop_first());
    }
}

/// A name that stands delimited in the text is read as the symbol of that
/// name.
pub proof fn lemma_symbol_read(text: Seq<char>, at: int, name: Seq<char>)
    requires
        occurs(text, at, name),
        is_symbol_name(name),
        delimited(text, at + name.len()),
    ensures
        next_lexeme(text, at) == Some((Lexeme::Symbol(name), at + name.len())),
        parse_form(text, at) == Some((Term::Symbol(name), at + name.len())),
{
    lemma_occurs_at(text, at, name, 0);
    assert(is_symbol_char(name[0]));
    lemma_symbol_run(text, at, name);
    lemma_lexeme_at(text, at);
}

/// A blank changes nothing of what is read after it.
pub proof fn lemma_blank_skipped(text: Seq<char>, at: int)
    requires
        0 <= at < text.len(),
        is_blank(text[at]),
    ensures
        next_lexeme(text, at) == next_lexeme(text, at + 1),
        parse_form(text, at) == parse_form(text, at + 1),
        parse_items(text, at) == parse_items(text, at + 1),
{
    lemma_next_lexeme(text, at + 1);
    lemma_parse_form_advances(text, at + 1);
    assert(parse_form(text, at) == parse_form(text, at + 1));
}

/// The fixed texts of the printer, character by character.
pub proof fn lemma_fixed_texts()
    ensures
        "nil"@ == seq!['n', 'i', 'l'],
        "#func"@ == seq!['#', 'f', 'u', 'n', 'c'],
        "#special_form"@ == seq![
            '#',
            's',
            'p',
            'e',
            'c',
            'i',
            'a',
            'l',
            '_',
            'f',
            'o',
            'r',
            'm',
        ],
        "("@ == seq!['('],
        ")"@ == seq![')'],
        "'"@ == seq!['\''],
        " "@ == seq![' '],
        " . "@ == seq![' ', '.', ' '],
        "."@ == seq!['.'],
        is_symbol_name("nil"@),
        is_symbol_name("#func"@),
        is_symbol_name("#special_form"@),
        is_symbol_name("."@),
{
    reveal_strlit("nil");
    reveal_strlit("#func");
    reveal_strlit("#special_form");
    reveal_strlit("(");
    reveal_strlit(")");
    reveal_strlit("'");
    reveal_strlit(" ");
    reveal_strlit(" . ");
    reveal_strlit(".");
    assert("nil"@ =~= seq!['n', 'i', 'l']);
    assert("#func"@ =~= seq!['#', 'f', 'u', 'n', 'c']);
    assert("#special_form"@ =~= seq![
        '#',
        's',
        'p',
        'e',
        'c',
        'i',
        'a',
        'l',
        '_',
        'f',
        'o',
        'r',
        'm',
    ]);
    assert("("@ =~= seq!['(']);
    assert(")"@ =~= seq![')']);
    assert("'"@ =~= seq!['\'']);
    assert(" "@ =~= seq![' ']);
    assert(" . "@ =~= seq![' ', '.', ' ']);
    assert("."@ =~= seq!['.']);
}

/// The text of a printable term is not empty and starts with a character
/// that is neither blank nor a close-paren.
pub proof fn lemma_render_starts(term: Term)
    requires
        printable(term),
    ensures
        render(term).len() > 0,
        !is_blank(render(term)[0]),
        render(term)[0] != ')',
{
    lemma_fixed_texts();
    match term {
        Term::Symbol(name) => {
            assert(is_symbol_char(name[0]));
        },
        _ => {},
    }
}

/// After its first element, the text of a chain goes on with a space or a
/// close-paren.
pub proof fn lemma_chain_continues(term: Term)
    ensures
        render_chain(term, false).len() > 0,
        render_chain(term, false)[0] == ' ' || render_chain(term, false)[0] == ')',
{
    lemma_fixed_texts();
}

/// Where the text of a printable term stands delimited, it is read as what
/// the term reads back as, up to the end of that text.
pub proof fn lemma_render_read(term: Term, text: Seq<char>, at: int)
    requires
        printable(term),
        occurs(text, at, render(term)),
        delimited(text, at + render(term).len()),
    ensures
        parse_form(text, at) == Some((reread(term), at + render(term).len())),
    decreases term, 1int,
{
    lemma_fixed_texts();
    match term {
        Term::Nil => {
            lemma_symbol_read(text, at, "nil"@);
        },
        Term::Function(_) => {
            lemma_symbol_read(text, at, "#func"@);
        },
        Term::SpecialForm(_) => {
            lemma_symbol_read(text, at, "#special_form"@);
        },
        Term::Symbol(name) => {
            lemma_symbol_read(text, at, name);
        },
        Term::Quoted(inner) => {
            lemma_occurs_split(text, at, "'"@, render(*inner));
            lemma_occurs_at(text, at, "'"@, 0);
            lemma_lexeme_at(text, at);
            lemma_render_read(*inner, text, at + 1);
        },
        Term::Cell(_, _) => {
            lemma_occurs_split(text, at, "("@, render_chain(term, true));
            lemma_occurs_at(text, at, "("@, 0);
            lemma_lexeme_at(text, at);
            lemma_chain_read(term, true, text, at + 1);
        },
    }
}

/// Where the text of a chain of printable terms stands, it is read as what
/// the elements of the chain read back as, up to and including the
/// close-paren.
pub proof fn lemma_chain_read(term: Term, first: bool, text: Seq<char>, at: int)
    requires
        printable(term),
        occurs(text, at, render_chain(term, first)),
        term is Cell || term is Nil || !first,
    ensures
        parse_items(text, at) == Some((reread_chain(term), at + render_chain(term, first).len())),
    decreases term, (if term is Cell { 0int } else { 2int }),
{
    lemma_fixed_texts();
    match term {
        Term::Cell(left, right) => {
            let gap = if first {
                Seq::<char>::empty()
            } else {
                " "@
            };
            let head = render(*left);
            let tail = render_chain(*right, false);
            assert(render_chain(term, first) == (gap + head) + tail);
            lemma_occurs_split(text, at, gap + head, tail);
            lemma_occurs_split(text, at, gap, head);
            let start = at + gap.len();
            let next = start + head.len();
            lemma_render_starts(*left);
            lemma_chain_continues(*right);
            lemma_occurs_at(text, start, head, 0);
            lemma_occurs_at(text, next, tail, 0);
            lemma_render_read(*left, text, start);
            lemma_chain_read(*right, false, text, next);
            lemma_lexeme_at(text, start);
            assert(parse_items(text, start) == Some(
                (reread_chain(term), next + tail.len()),
            ));
            if !first {
                lemma_occurs_at(text, at, gap, 0);
                lemma_blank_skipped(text, at);
            }
        },
        Term::Nil => {
            lemma_occurs_at(text, at, ")"@, 0);
            lemma_lexeme_at(text, at);
        },
        _ => {
            let body = render(term);
            assert(render_chain(term, first) == (" . "@ + body) + ")"@);
            lemma_occurs_split(text, at, " . "@ + body, ")"@);
            lemma_occurs_split(text, at, " . "@, body);
            lemma_occurs_at(text, at, " . "@, 0);
            lemma_occurs_at(text, at, " . "@, 1);
            lemma_occurs_at(text, at, " . "@, 2);
            let start = at + 3;
            let end = start + body.len();
            lemma_occurs_at(text, end, ")"@, 0);
            lemma_render_starts(term);
            lemma_occurs_at(text, start, body, 0);
            lemma_render_read(term, text, start);
            lemma_lexeme_at(text, start);
            lemma_lexeme_at(text, end);
            assert(parse_items(text, end) == Some((Seq::<Term>::empty(), end + 1)));
            assert(parse_items(text, start) == Some((seq![reread(term)], end + 1))) by {
                assert(seq![reread(term)] + Seq::<Term>::empty() =~= seq![reread(term)]);
            }
            lemma_blank_skipped(text, at + 2);
            assert(occurs(text, at + 1, "."@)) by {
                assert(text.subrange(at + 1, at + 2) =~= "."@);
            }
            lemma_symbol_read(text, at + 1, "."@);
            assert(parse_items(text, at + 1) == Some((reread_chain(term), end + 1))) by {
                assert(seq![Term::Symbol("."@)] + seq![reread(term)] =~= reread_chain(term));
            }
            lemma_blank_skipped(text, at);
        },
    }
}

/// Printing and reading back: the text of a printable term holds exactly
/// one expression, which is what the term reads back as.
pub proof fn law_print_then_parse(term: Term)
    requires
        printable(term),
    ensures
        parse_text(render(term)) == Some(reread(term)),
{
    let text = render(term);
    assert(text.subrange(0, text.len() as int) =~= text);
    lemma_render_read(term, text, 0);
    lemma_skip_blanks(text, text.len() as int);
}

/// Exactly one expression is read: the texts of two printable terms with a
/// blank between them are no expression.
pub proof fn law_two_expressions_rejected(first: Term, second: Term)
    requires
        printable(first),
        printable(second),
    ensures
        parse_text(render(first) + " "@ + render(second)) is None,
{
    lemma_fixed_texts();
    lemma_render_starts(second);
    let text = render(first) + " "@ + render(second);
    let end = render(first).len() as int;
    assert(text.subrange(0, text.len() as int) =~= text);
    assert(text == render(first) + (" "@ + render(second)));
    lemma_occurs_split(text, 0, render(first), " "@ + render(second));
    lemma_occurs_split(text, end, " "@, render(second));
    lemma_occurs_at(text, end, " "@, 0);
    lemma_occurs_at(text, end + 1, render(second), 0);
    lemma_render_read(first, text, 0);
    lemma_blank_skipped(text, end);
    lemma_skip_blanks(text, end + 1);
    assert(next_lexeme(text, end + 1) is Some);
}

/// What a term reads back as prints as the term does.
pub proof fn law_reread_prints_alike(term: Term)
    ensures
        render(reread(term)) == render(term),
    decreases term, 1int,
{
    match term {
        Term::Quoted(inner) => {
            law_reread_prints_alike(*inner);
        },
        Term::Cell(_, _) => {
            lemma_reread_chain_prints_alike(term, true);
        },
        _ => {},
    }
}

/// What a chain reads back as prints as the chain does.
pub proof fn lemma_reread_chain_prints_alike(term: Term, first: bool)
    requires
        term is Cell || term is Nil || !first,
    ensures
        render_chain(list_of(reread_chain(term)), first) == render_chain(term, first),
        term is Cell ==> list_of(reread_chain(term)) is Cell,
    decreases term, (if term is Cell { 0int } else { 2int }),
{
    match term {
        Term::Cell(left, right) => {
            law_reread_prints_alike(*left);
            lemma_reread_chain_prints_alike(*right, false);
            assert(reread_chain(term).drop_first() =~= reread_chain(*right));
        },
        Term::Nil => {},
        _ => {
            lemma_fixed_texts();
            law_reread_prints_alike(term);
            let items = reread_chain(term);
            assert(items.drop_first() =~= seq![reread(term)]);
            assert(items.drop_first().drop_first() =~= Seq::<Term>::empty());
            let last = Term::Cell(Box::new(reread(term)), Box::new(Term::Nil));
            assert(list_of(items.drop_first().drop_first()) == Term::Nil);
            assert(list_of(items.drop_first()) == last);
            assert(list_of(items) == Term::Cell(Box::new(Term::Symbol("."@)), Box::new(last)));
            assert(render_chain(Term::Nil, false) == ")"@);
            assert(render_chain(last, false) == " "@ + render(reread(term)) + render_chain(
                Term::Nil,
                false,
            ));
            assert(render(Term::Symbol("."@)) == "."@);
            assert(render_chain(list_of(items), false) == " "@ + "."@ + render_chain(last, false));
            assert(" "@ + "."@ + (" "@ + render(term) + ")"@) =~= " . "@ + render(term) + ")"@);
        },
    }
}

/// Whether `term` is built from symbols with proper names, quoting and
/// proper lists that are not empty: the terms that have a text of their
/// own.
pub open spec fn faithful(term: Term) -> bool
    decreases term, 1int,
{
    match term {
        Term::Symbol(name) => is_symbol_name(name),
        Term::Quoted(inner) => faithful(*inner),
        Term::Cell(left, right) => faithful(*left) && faithful_rest(*right),
        _ => false,
    }
}

/// Whether `term` is the rest of a proper list of faithful terms.
pub open spec fn faithful_rest(term: Term) -> bool
    decreases term, 0int,
{
    match term {
        Term::Nil => true,
        Term::Cell(left, right) => faithful(*left) && faithful_rest(*right),
        _ => false,
    }
}

/// A faithful term is printable and reads back as itself.
pub proof fn lemma_faithful_rereads(term: Term)
    requires
        faithful(term),
    ensures
        printable(term),
        reread(term) == term,
    decreases term, 1int,
{
    match term {
        Term::Quoted(inner) => {
            lemma_faithful_rereads(*inner);
        },
        Term::Cell(left, right) => {
            lemma_faithful_rest_rereads(term);
        },
        _ => {},
    }
}

/// The rest of a proper list of faithful terms is printable and reads back
/// as itself.
pub proof fn lemma_faithful_rest_rereads(term: Term)
    requires
        faithful_rest(term),
    ensures
        printable(term),
        list_of(reread_chain(term)) == term,
    decreases term, 0int,
{
    match term {
        Term::Cell(left, right) => {
            lemma_faithful_rereads(*left);
            lemma_faithful_rest_rereads(*right);
            assert(reread_chain(term).drop_first() =~= reread_chain(*right));
        },
        _ => {},
    }
}

/// Printing and reading are inverse on faithful terms: the text of such a
/// term reads as that very term, with every list in its written order.
pub proof fn law_exact_round_trip(term: Term)
    requires
        faithful(term),
    ensures
        parse_text(render(term)) == Some(term),
{
    lemma_faithful_rereads(term);
    law_print_then_parse(term);
}

/// Two faithful terms with the same text are the same term.
pub proof fn law_text_decides_term(first: Term, second: Term)
    requires
        faithful(first),
        faithful(second),
        render(first) == render(second),
    ensures
        first == second,
{
    law_exact_round_trip(first);
    law_exact_round_trip(second);
}

/// Whatever the reader yields is printable.
pub proof fn law_parsed_is_printable(text: Seq<char>, from: int)
    ensures
        parse_form(text, from) matches Some((term, _)) ==> printable(term),
        parse_items(text, from) matches Some((items, _)) ==> forall|i: int|
            0 <= i < items.len() ==> printable(#[trigger] items[i]),
    decreases text.len() - from, 1int,
{
    lemma_next_lexeme(text, from);
    lemma_skip_blanks(text, from);
    lemma_symbol_end(text, skip_blanks(text, from));
    match next_lexeme(text, from) {
        Some((lexeme, after)) => {
            match lexeme {
                Lexeme::QuoteMark => {
                    law_parsed_is_printable(text, after);
                },
                Lexeme::OpenParen => {
                    law_parsed_is_printable(text, after);
                    match parse_items(text, after) {
                        Some((items, _)) => {
                            lemma_list_printable(items);
                        },
                        None => {},
                    }
                },
                _ => {},
            }
            lemma_parse_form_advances(text, from);
            match parse_form(text, from) {
                Some((head, next)) => {
                    law_parsed_is_printable(text, next);
                    match parse_items(text, next) {
                        Some((rest, _)) => {
                            assert forall|i: int| 0 <= i < (seq![head] + rest).len() implies printable(
                                #[trigger] (seq![head] + rest)[i],
                            ) by {
                                if i > 0 {
                                    assert((seq![head] + rest)[i] == rest[i - 1]);
                                }
                            }
                        },
                        None => {},
                    }
                },
                None => {},
            }
        },
        None => {},
    }
}

/// A proper list of printable terms is printable.
pub proof fn lemma_list_printable(items: Seq<Term>)
    requires
        forall|i: int| 0 <= i < items.len() ==> printable(#[trigger] items[i]),
    ensures
        printable(list_of(items)),
    decreases items.len(),
{
    if items.len() > 0 {
        assert(printable(items[0]));
        assert forall|i: int| 0 <= i < items.drop_first().len() implies printable(
            #[trigger] items.drop_first()[i],
        ) by {
            assert(items.drop_first()[i] == items[i + 1]);
        }
        lemma_list_printable(items.drop_first());
    }
}

/// Printing is stable under reading back: the text of a printable term
/// reads as a term with the same text. This holds of every term that the
/// reader yields.
pub proof fn law_print_parse_print(term: Term)
    requires
        printable(term),
    ensures
        parse_text(render(term)) matches Some(again) && render(again) == render(term),
{
    law_print_then_parse(term);
    law_reread_prints_alike(term);
}

/// Reading, printing and reading again: the text of what was read from
/// `text` reads back as a term that prints the same.
pub proof fn law_parse_print_parse(text: Seq<char>)
    requires
        parse_text(text) is Some,
    ensures
        parse_text(render(parse_text(text)->0)) matches Some(again) && render(again) == render(
            parse_text(text)->0,
        ),
{
    law_parsed_is_printable(text, 0);
    law_print_parse_print(parse_text(text)->0);
}

/// Whether reading gave the same term on both sides and left the same
/// tokens unread.
pub open spec fn same_reading<T>(
    left_text: Seq<char>,
    left: Option<(T, int)>,
    right_text: Seq<char>,
    right: Option<(T, int)>,
) -> bool {
    match (left, right) {
        (Some((left_value, left_end)), Some((right_value, right_end))) => left_value == right_value
            && lexemes(left_text, left_end) == lexemes(right_text, right_end),
        (None, None) => true,
        _ => false,
    }
}

/// The reader sees a text through its tokens only: from two places with
/// the same tokens ahead, in one text or in two, it reads the same
/// expression and leaves the same tokens.
pub proof fn lemma_tokens_decide(
    left: Seq<char>,
    left_from: int,
    right: Seq<char>,
    right_from: int,
)
    requires
        lexemes(left, left_from) == lexemes(right, right_from),
    ensures
        same_reading(
            left,
            parse_form(left, left_from),
            right,
            parse_form(right, right_from),
        ),
        same_reading(
            left,
            parse_items(left, left_from),
            right,
            parse_items(right, right_from),
        ),
    decreases left.len() - left_from, 1int,
{
    lemma_next_lexeme(left, left_from);
    lemma_next_lexeme(right, right_from);
    match (next_lexeme(left, left_from), next_lexeme(right, right_from)) {
        (Some((lexeme, left_after)), Some((other, right_after))) => {
            let left_rest = lexemes(left, left_after);
            let right_rest = lexemes(right, right_after);
            assert(lexeme == other && left_rest == right_rest) by {
                let whole = lexemes(left, left_from);
                assert(whole[0] == lexeme);
                assert(whole[0] == other);
                assert(whole.drop_first() =~= left_rest);
                assert(whole.drop_first() =~= right_rest);
            }
            match lexeme {
                Lexeme::QuoteMark => {
                    lemma_tokens_decide(left, left_after, right, right_after);
                },
                Lexeme::OpenParen => {
                    lemma_tokens_decide(left, left_after, right, right_after);
                },
                _ => {},
            }
            if lexeme != Lexeme::CloseParen {
                lemma_parse_form_advances(left, left_from);
                lemma_parse_form_advances(right, right_from);
                match (parse_form(left, left_from), parse_form(right, right_from)) {
                    (Some((_, left_next)), Some((_, right_next))) => {
                        lemma_tokens_decide(left, left_next, right, right_next);
                    },
                    _ => {},
                }
            }
        },
        (None, None) => {},
        (Some(_), None) => {
            assert(lexemes(left, left_from).len() > 0);
        },
        (None, Some(_)) => {
            assert(lexemes(right, right_from).len() > 0);
        },
    }
}

/// Reading is insensitive to how the tokens are laid out: two texts with
/// the same tokens hold the same expression, or both hold none.
pub proof fn law_layout_is_irrelevant(left: Seq<char>, right: Seq<char>)
    requires
        lexemes(left, 0) == lexemes(right, 0),
    ensures
        parse_text(left) == parse_text(right),
{
    lemma_tokens_decide(left, 0, right, 0);
    match (parse_form(left, 0), parse_form(right, 0)) {
        (Some((_, left_end)), Some((_, right_end))) => {
            lemma_next_lexeme(left, left_end);
            lemma_next_lexeme(right, right_end);
            if next_lexeme(left, left_end) is Some {
                assert(lexemes(left, left_end).len() > 0);
            }
            if next_lexeme(right, right_end) is Some {
                assert(lexemes(right, right_end).len() > 0);
            }
        },
        _ => {},
    }
}

/// Blanks before a token, however many, are not part of the tokens.
pub proof fn law_blanks_are_no_tokens(text: Seq<char>, from: int)
    ensures
        lexemes(text, skip_blanks(text, from)) == lexemes(text, from),
{
    lemma_next_lexeme(text, from);
    lemma_skip_blanks(text, from);
    lemma_next_lexeme(text, skip_blanks(text, from));
}

/// Whether two texts hold the same characters from two places on.
pub open spec fn same_rest(left: Seq<char>, left_from: int, right: Seq<char>, right_from: int) -> bool {
    &&& 0 <= left_from <= left.len()
    &&& 0 <= right_from <= right.len()
    &&& left.skip(left_from) == right.skip(right_from)
}

/// Two texts that go on alike hold the same character at the same distance
/// and go on alike from any distance on.
pub proof fn lemma_same_rest_at(
    left: Seq<char>,
    left_from: int,
    right: Seq<char>,
    right_from: int,
    distance: int,
)
    requires
        same_rest(left, left_from, right, right_from),
        0 <= distance <= left.len() - left_from,
    ensures
        left.len() - left_from == right.len() - right_from,
        distance < left.len() - left_from ==> left[left_from + distance] == right[right_from
            + distance],
        same_rest(left, left_from + distance, right, right_from + distance),
{
    assert(left.skip(left_from).len() == right.skip(right_from).len());
    if distance < left.len() - left_from {
        assert(left.skip(left_from)[distance] == left[left_from + distance]);
        assert(right.skip(right_from)[distance] == right[right_from + distance]);
    }
    assert(left.skip(left_from + distance) =~= left.skip(left_from).skip(distance));
    assert(right.skip(right_from + distance) =~= right.skip(right_from).skip(distance));
}

/// Blanks end at the same distance in two texts that go on alike.
pub proof fn lemma_skip_blanks_alike(
    left: Seq<char>,
    left_from: int,
    right: Seq<char>,
    right_from: int,
)
    requires
        same_rest(left, left_from, right, right_from),
    ensures
        skip_blanks(left, left_from) - left_from == skip_blanks(right, right_from) - right_from,
    decreases left.len() - left_from,
{
    lemma_same_rest_at(left, left_from, right, right_from, 0);
    if left_from < left.len() && is_blank(left[left_from]) {
        lemma_same_rest_at(left, left_from, right, right_from, 1);
        lemma_skip_blanks_alike(left, left_from + 1, right, right_from + 1);
    }
}

/// A symbol ends at the same distance in two texts that go on alike.
pub proof fn lemma_symbol_end_alike(
    left: Seq<char>,
    left_from: int,
    right: Seq<char>,
    right_from: int,
)
    requires
        same_rest(left, left_from, right, right_from),
    ensures
        symbol_end(left, left_from) - left_from == symbol_end(right, right_from) - right_from,
    decreases left.len() - left_from,
{
    lemma_same_rest_at(left, left_from, right, right_from, 0);
    if left_from < left.len() && is_symbol_char(left[left_from]) {
        lemma_same_rest_at(left, left_from, right, right_from, 1);
        lemma_symbol_end_alike(left, left_from + 1, right, right_from + 1);
    }
}

/// Two texts that go on alike from a place on hold the same tokens from
/// there.
pub proof fn lemma_lexemes_alike(
    left: Seq<char>,
    left_from: int,
    right: Seq<char>,
    right_from: int,
)
    requires
        same_rest(left, left_from, right, right_from),
    ensures
        lexemes(left, left_from) == lexemes(right, right_from),
    decreases left.len() - left_from,
{
    let shift = right_from - left_from;
    lemma_skip_blanks_alike(left, left_from, right, right_from);
    lemma_skip_blanks(left, left_from);
    lemma_next_lexeme(left, left_from);
    lemma_next_lexeme(right, right_from);
    let start = skip_blanks(left, left_from);
    lemma_same_rest_at(left, left_from, right, right_from, start - left_from);
    if start < left.len() {
        lemma_symbol_end_alike(left, start, right, start + shift);
        lemma_symbol_end(left, start);
        let (lexeme, after) = next_lexeme(left, left_from).unwrap();
        let (other, other_after) = next_lexeme(right, right_from).unwrap();
        assert(other_after == after + shift);
        lemma_same_rest_at(left, left_from, right, right_from, after - left_from);
        assert(other == lexeme) by {
            let end = symbol_end(left, start);
            assert(left.subrange(start, end) =~= left.skip(start).take(end - start));
            assert(right.subrange(start + shift, end + shift) =~= right.skip(start + shift).take(
                end - start,
            ));
        }
        lemma_lexemes_alike(left, after, right, after + shift);
    }
}

/// Whether a blank may be put between `before` and `after` without
/// splitting a symbol: one of the two characters at the seam is no symbol
/// character, or one of the texts is empty.
pub open spec fn at_token_boundary(before: Seq<char>, after: Seq<char>) -> bool {
    ||| before.len() == 0
    ||| after.len() == 0
    ||| !is_symbol_char(before.last())
    ||| !is_symbol_char(after[0])
}

/// A symbol that starts before a seam at a token boundary ends at the same
/// place with and without a blank in the seam, and not after the seam.
pub proof fn lemma_symbol_end_at_seam(before: Seq<char>, blank: char, after: Seq<char>, from: int)
    requires
        is_blank(blank),
        at_token_boundary(before, after),
        0 <= from < before.len(),
        is_symbol_char(before[from]),
    ensures
        symbol_end(before + after, from) == symbol_end(before + seq![blank] + after, from),
        from < symbol_end(before + after, from) <= before.len(),
    decreases before.len() - from,
{
    let plain = before + after;
    let spaced = before + seq![blank] + after;
    assert(plain[from] == before[from]);
    assert(spaced[from] == before[from]);
    if from + 1 < before.len() {
        assert(plain[from + 1] == before[from + 1]);
        assert(spaced[from + 1] == before[from + 1]);
        if is_symbol_char(before[from + 1]) {
            lemma_symbol_end_at_seam(before, blank, after, from + 1);
        } else {
            assert(symbol_end(plain, from + 1) == from + 1);
            assert(symbol_end(spaced, from + 1) == from + 1);
        }
    } else {
        assert(before.last() == before[from]);
        assert(spaced[from + 1] == blank);
        assert(symbol_end(spaced, from + 1) == from + 1);
        if after.len() > 0 {
            assert(plain[from + 1] == after[0]);
        }
        assert(symbol_end(plain, from + 1) == from + 1);
    }
}

/// A blank in a seam at a token boundary changes none of the tokens from
/// any place before the seam on.
pub proof fn lemma_lexemes_at_seam(before: Seq<char>, blank: char, after: Seq<char>, from: int)
    requires
        is_blank(blank),
        at_token_boundary(before, after),
        0 <= from <= before.len(),
    ensures
        lexemes(before + after, from) == lexemes(before + seq![blank] + after, from),
    decreases before.len() - from,
{
    let plain = before + after;
    let spaced = before + seq![blank] + after;
    let seam = before.len() as int;
    if from == seam {
        assert(spaced[seam] == blank);
        lemma_blank_skipped(spaced, seam);
        law_blanks_are_no_tokens(spaced, seam);
        law_blanks_are_no_tokens(spaced, seam + 1);
        assert(skip_blanks(spaced, seam) == skip_blanks(spaced, seam + 1));
        assert(same_rest(plain, seam, spaced, seam + 1)) by {
            assert(plain.skip(seam) =~= after);
            assert(spaced.skip(seam + 1) =~= after);
        }
        lemma_lexemes_alike(plain, seam, spaced, seam + 1);
    } else {
        assert(plain[from] == before[from]);
        assert(spaced[from] == before[from]);
        if is_blank(before[from]) {
            lemma_blank_skipped(plain, from);
            lemma_blank_skipped(spaced, from);
            lemma_lexemes_at_seam(before, blank, after, from + 1);
            lemma_next_lexeme(plain, from);
            lemma_next_lexeme(spaced, from);
            lemma_next_lexeme(plain, from + 1);
            lemma_next_lexeme(spaced, from + 1);
        } else {
            lemma_lexeme_at(plain, from);
            lemma_lexeme_at(spaced, from);
            if is_symbol_char(before[from]) {
                lemma_symbol_end_at_seam(before, blank, after, from);
                let end = symbol_end(plain, from);
                assert(plain.subrange(from, end) =~= spaced.subrange(from, end)) by {
                    assert forall|k: int| from <= k < end implies plain[k] == spaced[k] by {
                        assert(plain[k] == before[k]);
                        assert(spaced[k] == before[k]);
                    }
                }
                lemma_lexemes_at_seam(before, blank, after, end);
            } else {
                lemma_lexemes_at_seam(before, blank, after, from + 1);
            }
        }
    }
}

/// Reading is insensitive to blanks: a blank put between two tokens, or
/// next to another blank, changes nothing of what a text reads as.
pub proof fn law_blank_between_tokens(before: Seq<char>, blank: char, after: Seq<char>)
    requires
        is_blank(blank),
        at_token_boundary(before, after),
    ensures
        parse_text(before + seq![blank] + after) == parse_text(before + after),
{
    lemma_lexemes_at_seam(before, blank, after, 0);
    law_layout_is_irrelevant(before + seq![blank] + after, before + after);
}

} // verus!
