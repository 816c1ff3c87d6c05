//! The tokenizer: text to open-paren, close-paren, quote-mark and symbol
//! tokens.

use vstd::prelude::*;

verus! {

/// The four characters that separate tokens and are otherwise ignored.
pub open spec fn is_blank(c: char) -> bool {
    c == ' ' || c == '\t' || c == '\n' || c == '\r'
}

/// The three characters that are tokens by themselves.
pub open spec fn is_structural(c: char) -> bool {
    c == '(' || c == ')' || c == '\''
}

/// A character that may be part of a symbol.
pub open spec fn is_symbol_char(c: char) -> bool {
    !is_blank(c) && !is_structural(c)
}

/// The first position at or after `from` that holds no blank, or the end of
/// the text.
pub open spec fn skip_blanks(text: Seq<char>, from: int) -> int
    decreases text.len() - from,
{
    if 0 <= from < text.len() && is_blank(text[from]) {
        skip_blanks(text, from + 1)
    } else {
        from
    }
}

/// The first position at or after `from` that holds no symbol character, or
/// the end of the text.
pub open spec fn symbol_end(text: Seq<char>, from: int) -> int
    decreases text.len() - from,
{
    if 0 <= from < text.len() && is_symbol_char(text[from]) {
        symbol_end(text, from + 1)
    } else {
        from
    }
}

/// The model of a token.
pub enum Lexeme {
    Symbol(Seq<char>),
    OpenParen,
    CloseParen,
    QuoteMark,
}

/// The first token of `text` at or after `from` together with the position
/// that follows it, or `None` where only blanks remain. A symbol is a
/// maximal run of symbol characters.
pub open spec fn next_lexeme(text: Seq<char>, from: int) -> Option<(Lexeme, int)> {
    let start = skip_blanks(text, from);
    if !(0 <= start < text.len()) {
        None
    } else if text[start] == '(' {
        Some((Lexeme::OpenParen, start + 1))
    } else if text[start] == ')' {
        Some((Lexeme::CloseParen, start + 1))
    } else if text[start] == '\'' {
        Some((Lexeme::QuoteMark, start + 1))
    } else {
        let end = symbol_end(text, start);
        Some((Lexeme::Symbol(text.subrange(start, end)), end))
    }
}

/// All the tokens of `text` from `from` on, in order. The test on the
/// position only witnesses that every token is at least one character long:
/// by [`lemma_next_lexeme`] it never fails.
pub open spec fn lexemes(text: Seq<char>, from: int) -> Seq<Lexeme>
    decreases text.len() - from,
{
    match next_lexeme(text, from) {
        Some((lexeme, after)) if from < after <= text.len() => seq![lexeme] + lexemes(text, after),
        _ => Seq::empty(),
    }
}

/// Skipping blanks never moves backwards nor past the end of the text, stops
/// on a character that is not blank, passes over blanks only, and changes
/// nothing when done twice.
pub proof fn lemma_skip_blanks(text: Seq<char>, from: int)
    ensures
        from <= skip_blanks(text, from),
        from <= text.len() ==> skip_blanks(text, from) <= text.len(),
        0 <= skip_blanks(text, from) < text.len() ==> !is_blank(text[skip_blanks(text, from)]),
        forall|i: int| from <= i < skip_blanks(text, from) ==> is_blank(text[i]),
        skip_blanks(text, skip_blanks(text, from)) == skip_blanks(text, from),
    decreases text.len() - from,
{
    if 0 <= from < text.len() && is_blank(text[from]) {
        lemma_skip_blanks(text, from + 1);
    }
}

/// A symbol ends at or before the end of the text, on a character that
/// cannot be part of it, and holds symbol characters only.
pub proof fn lemma_symbol_end(text: Seq<char>, from: int)
    ensures
        from <= symbol_end(text, from),
        from <= text.len() ==> symbol_end(text, from) <= text.len(),
        0 <= symbol_end(text, from) < text.len() ==> !is_symbol_char(
            text[symbol_end(text, from)],
        ),
        forall|i: int| from <= i < symbol_end(text, from) ==> is_symbol_char(text[i]),
        0 <= from < text.len() && is_symbol_char(text[from]) ==> from < symbol_end(text, from),
    decreases text.len() - from,
{
    if 0 <= from < text.len() && is_symbol_char(text[from]) {
        lemma_symbol_end(text, from + 1);
    }
}

/// Every token is non-empty and lies within the text, and leading blanks do
/// not change which token comes next.
pub proof fn lemma_next_lexeme(text: Seq<char>, from: int)
    ensures
        next_lexeme(text, from) matches Some((_, after)) ==> from < after <= text.len(),
        next_lexeme(text, skip_blanks(text, from)) == next_lexeme(text, from),
{
    lemma_skip_blanks(text, from);
    lemma_symbol_end(text, skip_blanks(text, from));
}

/// A token.
#[derive(Debug, PartialEq, Eq)]
pub enum Token {
    Symbol(String),
    OpenParen,
    CloseParen,
    QuoteMark,
}

impl View for Token {
    type V = Lexeme;

    open spec fn view(&self) -> Lexeme {
        match self {
            Token::Symbol(name) => Lexeme::Symbol(name@),
            Token::OpenParen => Lexeme::OpenParen,
            Token::CloseParen => Lexeme::CloseParen,
            Token::QuoteMark => Lexeme::QuoteMark,
        }
    }
}

/// Whether `c` separates tokens without being one.
pub fn blank(c: char) -> (r: bool)
    ensures
        r == is_blank(c),
{
    c == ' ' || c == '\t' || c == '\n' || c == '\r'
}

/// Whether `c` may be part of a symbol.
pub fn symbol_char(c: char) -> (r: bool)
    ensures
        r == is_symbol_char(c),
{
    !(blank(c) || c == '(' || c == ')' || c == '\'')
}

/// A cursor over a text that hands out its tokens one by one.
pub struct Tokenizer<'a> {
    input: &'a str,
    length: usize,
    position: usize,
}

impl<'a> Tokenizer<'a> {
    #[verifier::type_invariant]
    spec fn well_formed(&self) -> bool {
        &&& self.length == self.input@.len()
        &&& self.position <= self.length
    }

    /// The text being read.
    pub closed spec fn text(&self) -> Seq<char> {
        self.input@
    }

    /// How many characters have been consumed.
    pub closed spec fn position(&self) -> int {
        self.position as int
    }

    /// A tokenizer at the start of `input`.
    pub fn new(input: &'a str) -> (tokenizer: Tokenizer<'a>)
        ensures
            tokenizer.text() == input@,
            tokenizer.position() == 0,
    {
        Tokenizer { input, length: input.unicode_len(), position: 0 }
    }

    /// Consumes the blanks at the current position.
    pub fn skip_whitespace(&mut self)
        ensures
            final(self).text() == old(self).text(),
            final(self).position() == skip_blanks(old(self).text(), old(self).position()),
            old(self).position() <= final(self).position() <= final(self).text().len(),
    {
        proof {
            use_type_invariant(&*self);
            lemma_skip_blanks(self.input@, self.position as int);
        }
        while self.position < self.length && blank(self.input.get_char(self.position))
            invariant
                self.input@ == old(self).input@,
                self.length == self.input@.len(),
                self.position <= self.length,
                skip_blanks(self.input@, self.position as int) == skip_blanks(
                    old(self).input@,
                    old(self).position as int,
                ),
            decreases self.length - self.position,
        {
            self.position += 1;
        }
    }

    /// Whether the next token is a close-paren. Consumes leading blanks and
    /// nothing else.
    pub fn next_is_close_paren(&mut self) -> (closing: bool)
        ensures
            final(self).text() == old(self).text(),
            final(self).position() == skip_blanks(old(self).text(), old(self).position()),
            old(self).position() <= final(self).position() <= final(self).text().len(),
            closing == (next_lexeme(old(self).text(), old(self).position()) matches Some(
                (Lexeme::CloseParen, _),
            )),
    {
        self.skip_whitespace();
        proof {
            use_type_invariant(&*self);
        }
        if self.position >= self.length {
            return false;
        }
        self.input.get_char(self.position) == ')'
    }

    /// Consumes and returns the next token, or returns `None` once only
    /// blanks remain.
    pub fn next(&mut self) -> (token: Option<Token>)
        ensures
            final(self).text() == old(self).text(),
            match next_lexeme(old(self).text(), old(self).position()) {
                Some((lexeme, after)) => token matches Some(t) && t@ == lexeme
                    && final(self).position() == after,
                None => token is None && final(self).position() == old(self).text().len(),
            },
            token is Some ==> old(self).position() < final(self).position(),
            final(self).position() <= final(self).text().len(),
    {
        proof {
            use_type_invariant(&*self);
            lemma_next_lexeme(self.input@, self.position as int);
        }
        self.skip_whitespace();
        proof {
            use_type_invariant(&*self);
        }
        if self.position >= self.length {
            return None;
        }
        let first = self.input.get_char(self.position);
        if first == '(' {
            self.position += 1;
            return Some(Token::OpenParen);
        }
        if first == ')' {
            self.position += 1;
            return Some(Token::CloseParen);
        }
        if first == '\'' {
            self.position += 1;
            return Some(Token::QuoteMark);
        }
        let start = self.position;
        while self.position < self.length && symbol_char(self.input.get_char(self.position))
            invariant
                self.input@ == old(self).input@,
                self.length == self.input@.len(),
                start <= self.position <= self.length,
                symbol_end(self.input@, self.position as int) == symbol_end(
                    self.input@,
                    start as int,
                ),
            decreases self.length - self.position,
        {
            self.position += 1;
        }
        let name = String::from_str(self.input.substring_char(start, self.position));
        Some(Token::Symbol(name))
    }
}

} // verus!
