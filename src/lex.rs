use vstd::prelude::*;
use crate::text::{message, spells, string_of};
use crate::token::{Lit, LiteralType, Tok, Token, toks};

verus! {

/// Whether `c` has Unicode's White_Space property.
pub uninterp spec fn white_space(c: char) -> bool;

/// Whether `c` is Unicode Alphabetic or Numeric.
pub uninterp spec fn alphanumeric(c: char) -> bool;

/// Relies on `char::is_whitespace`: true exactly for Unicode White_Space characters.
#[verifier::external_body]
fn is_white_space(c: char) -> (r: bool)
    ensures
        r == white_space(c),
{
    c.is_whitespace()
}

/// Relies on `char::is_alphanumeric`: true exactly for Unicode Alphabetic or Numeric characters.
#[verifier::external_body]
fn is_alphanumeric(c: char) -> (r: bool)
    ensures
        r == alphanumeric(c),
{
    c.is_alphanumeric()
}

pub open spec fn is_digit(c: char) -> bool {
    '0' <= c <= '9'
}

pub open spec fn is_ascii_letter(c: char) -> bool {
    ('a' <= c <= 'z') || ('A' <= c <= 'Z')
}

/// The classes of characters that the lexer consumes in runs.
#[derive(Clone, Copy)]
pub enum CharClass {
    Whitespace,
    IdentifierChar,
    NumeralChar,
    NotQuote,
    NotNewline,
}

pub open spec fn in_class(k: CharClass, c: char) -> bool {
    match k {
        CharClass::Whitespace => white_space(c),
        CharClass::IdentifierChar => alphanumeric(c) || c == '_',
        CharClass::NumeralChar => is_digit(c) || c == '.',
        CharClass::NotQuote => c != '"',
        CharClass::NotNewline => c != '\n',
    }
}

/// The end of the longest run of characters of class `k` that starts at `i`.
pub open spec fn run_end(s: Seq<char>, i: int, k: CharClass) -> int
    decreases s.len() - i,
{
    if 0 <= i < s.len() && in_class(k, s[i]) {
        run_end(s, i + 1, k)
    } else {
        i
    }
}

/// The number of dots in `t`.
pub open spec fn dots(t: Seq<char>) -> nat
    decreases t.len(),
{
    if t.len() == 0 {
        0
    } else {
        dots(t.drop_last()) + if t.last() == '.' { 1nat } else { 0nat }
    }
}

/// The token that a word (a run of identifier characters) stands for.
pub open spec fn word_token(w: Seq<char>) -> Tok {
    if w == seq!['l', 'o', 'c', 'a', 'l'] { Tok::Local }
    else if w == seq!['f', 'u', 'n', 'c', 't', 'i', 'o', 'n'] { Tok::Function }
    else if w == seq!['r', 'e', 't', 'u', 'r', 'n'] { Tok::Return }
    else if w == seq!['n', 'i', 'l'] { Tok::Literal(Lit::Nil) }
    else if w == seq!['t', 'r', 'u', 'e'] { Tok::Literal(Lit::Boolean(true)) }
    else if w == seq!['f', 'a', 'l', 's', 'e'] { Tok::Literal(Lit::Boolean(false)) }
    else if w == seq!['i', 'f'] { Tok::If }
    else if w == seq!['t', 'h', 'e', 'n'] { Tok::Then }
    else if w == seq!['e', 'l', 's', 'e'] { Tok::Else }
    else if w == seq!['e', 'l', 's', 'e', 'i', 'f'] { Tok::ElseIf }
    else if w == seq!['e', 'n', 'd'] { Tok::End }
    else if w == seq!['w', 'h', 'i', 'l', 'e'] { Tok::While }
    else if w == seq!['f', 'o', 'r'] { Tok::For }
    else if w == seq!['d', 'o'] { Tok::Do }
    else if w == seq!['r', 'e', 'p', 'e', 'a', 't'] { Tok::Repeat }
    else if w == seq!['u', 'n', 't', 'i', 'l'] { Tok::Until }
    else { Tok::Identifier(w) }
}

/// What the lexer does at position `i`: skip to a later position, emit a token and go on
/// from a later position, or fail.
pub ghost enum LexStep {
    Skip(int),
    Emit(Tok, int),
    Fail,
}

pub open spec fn followed_by(s: Seq<char>, i: int, c: char) -> bool {
    i + 1 < s.len() && s[i + 1] == c
}

/// One step of the lexer at `i`, for `0 <= i < s.len()`.
pub open spec fn lex_step(s: Seq<char>, i: int) -> LexStep {
    let c = s[i];
    if c == '+' { LexStep::Emit(Tok::Plus, i + 1) }
    else if c == '*' { LexStep::Emit(Tok::Asterisk, i + 1) }
    else if c == '/' { LexStep::Emit(Tok::Slash, i + 1) }
    else if c == '(' { LexStep::Emit(Tok::LeftParen, i + 1) }
    else if c == ')' { LexStep::Emit(Tok::RightParen, i + 1) }
    else if c == '{' { LexStep::Emit(Tok::LeftBracket, i + 1) }
    else if c == '}' { LexStep::Emit(Tok::RightBracket, i + 1) }
    else if c == '[' { LexStep::Emit(Tok::LeftSquareBracket, i + 1) }
    else if c == ']' { LexStep::Emit(Tok::RightSquareBracket, i + 1) }
    else if c == ',' { LexStep::Emit(Tok::Comma, i + 1) }
    else if c == '-' {
        if followed_by(s, i, '-') {
            let j = run_end(s, i, CharClass::NotNewline);
            LexStep::Skip(if j < s.len() { j + 1 } else { j })
        } else {
            LexStep::Emit(Tok::Minus, i + 1)
        }
    }
    else if c == '<' {
        if followed_by(s, i, '=') { LexStep::Emit(Tok::LessThanOrEqual, i + 2) }
        else { LexStep::Emit(Tok::LessThan, i + 1) }
    }
    else if c == '>' {
        if followed_by(s, i, '=') { LexStep::Emit(Tok::GreaterThanOrEqual, i + 2) }
        else { LexStep::Emit(Tok::GreaterThan, i + 1) }
    }
    else if c == '=' {
        if followed_by(s, i, '=') { LexStep::Emit(Tok::Equal, i + 2) }
        else { LexStep::Emit(Tok::Assigment, i + 1) }
    }
    else if c == '~' {
        if followed_by(s, i, '=') { LexStep::Emit(Tok::NotEqual, i + 2) }
        else { LexStep::Fail }
    }
    else if c == '.' {
        if followed_by(s, i, '.') { LexStep::Emit(Tok::Concatanation, i + 2) }
        else { LexStep::Emit(Tok::Dot, i + 1) }
    }
    else if white_space(c) { LexStep::Skip(run_end(s, i, CharClass::Whitespace)) }
    else if is_digit(c) {
        let j = run_end(s, i, CharClass::NumeralChar);
        let t = s.subrange(i, j);
        if dots(t) <= 1 { LexStep::Emit(Tok::Literal(Lit::Number(t)), j) } else { LexStep::Fail }
    }
    else if is_ascii_letter(c) || c == '_' {
        let j = run_end(s, i, CharClass::IdentifierChar);
        LexStep::Emit(word_token(s.subrange(i, j)), j)
    }
    else if c == '"' {
        let j = run_end(s, i + 1, CharClass::NotQuote);
        if j < s.len() { LexStep::Emit(Tok::Literal(Lit::Str(s.subrange(i + 1, j))), j + 1) }
        else { LexStep::Fail }
    }
    else { LexStep::Fail }
}

/// The tokens of `s` from position `i` on, or `Err` when a character there is malformed.
pub open spec fn lex_from(s: Seq<char>, i: int) -> Result<Seq<Tok>, ()>
    decreases s.len() - i,
{
    if i < 0 || i >= s.len() {
        Ok(seq![])
    } else {
        match lex_step(s, i) {
            LexStep::Skip(j) => if i < j <= s.len() { lex_from(s, j) } else { Err(()) },
            LexStep::Emit(t, j) => if i < j <= s.len() {
                match lex_from(s, j) {
                    Ok(rest) => Ok(seq![t] + rest),
                    Err(e) => Err(e),
                }
            } else {
                Err(())
            },
            LexStep::Fail => Err(()),
        }
    }
}

/// The tokens of the whole text `s`.
pub open spec fn tokens_of(s: Seq<char>) -> Result<Seq<Tok>, ()> {
    lex_from(s, 0)
}

pub open spec fn prepend(pre: Seq<Tok>, r: Result<Seq<Tok>, ()>) -> Result<Seq<Tok>, ()> {
    match r {
        Ok(rest) => Ok(pre + rest),
        Err(e) => Err(e),
    }
}

pub proof fn lemma_run_end(s: Seq<char>, i: int, k: CharClass)
    requires
        0 <= i <= s.len(),
    ensures
        i <= run_end(s, i, k) <= s.len(),
        forall|t: int| i <= t < run_end(s, i, k) ==> in_class(k, #[trigger] s[t]),
        run_end(s, i, k) < s.len() ==> !in_class(k, s[run_end(s, i, k)]),
    decreases s.len() - i,
{
    if i < s.len() && in_class(k, s[i]) {
        lemma_run_end(s, i + 1, k);
    }
}

} // verus!

verus! {

pub proof fn lemma_push_token(pre: Seq<Token>, t: Token, rest: Result<Seq<Tok>, ()>)
    ensures
        prepend(toks(pre), prepend(seq![t@], rest)) == prepend(toks(pre.push(t)), rest),
{
    assert(toks(pre.push(t)) =~= toks(pre).push(t@));
    match rest {
        Ok(r) => {
            assert(toks(pre) + (seq![t@] + r) =~= toks(pre).push(t@) + r);
        },
        Err(_) => {},
    }
}

fn class_has(k: CharClass, c: char) -> (r: bool)
    ensures
        r == in_class(k, c),
{
    match k {
        CharClass::Whitespace => is_white_space(c),
        CharClass::IdentifierChar => is_alphanumeric(c) || c == '_',
        CharClass::NumeralChar => ('0' <= c && c <= '9') || c == '.',
        CharClass::NotQuote => c != '"',
        CharClass::NotNewline => c != '\n',
    }
}

/// Turns source text into tokens, one character of lookahead at a time.
pub struct Lexer {
    input: Vec<char>,
    current: usize,
}

impl Lexer {
    /// The whole source text.
    pub closed spec fn text(&self) -> Seq<char> {
        self.input@
    }

    /// The position of the next character to read.
    pub closed spec fn position(&self) -> int {
        self.current as int
    }

    pub closed spec fn wf(&self) -> bool {
        self.current <= self.input.len()
    }

    pub fn new(input: &str) -> (r: Lexer)
        ensures
            r.wf(),
            r.text() == input@,
            r.position() == 0,
    {
        let mut chars: Vec<char> = Vec::new();
        for c in it: input.chars()
            invariant
                chars@ == it.seq().take(it.index() as int),
        {
            chars.push(c);
        }
        Lexer { input: chars, current: 0 }
    }

    fn advance(&mut self)
        requires
            old(self).wf(),
        ensures
            final(self).wf(),
            final(self).input == old(self).input,
            final(self).current == if old(self).current < old(self).input.len() {
                old(self).current + 1
            } else {
                old(self).current as int
            },
    {
        if self.current < self.input.len() {
            self.current = self.current + 1;
        }
    }

    fn next_is(&self, c: char) -> (r: bool)
        requires
            self.wf(),
        ensures
            r == followed_by(self.input@, self.current as int, c),
    {
        self.input.len() - self.current > 1 && self.input[self.current + 1] == c
    }

    fn consume_while(&mut self, k: CharClass) -> (r: String)
        requires
            old(self).wf(),
        ensures
            final(self).wf(),
            final(self).input == old(self).input,
            final(self).current == run_end(old(self).input@, old(self).current as int, k),
            old(self).current <= final(self).current,
            r@ == old(self).input@.subrange(old(self).current as int, final(self).current as int),
    {
        let start = self.current;
        proof {
            lemma_run_end(self.input@, start as int, k);
        }
        while self.current < self.input.len() && class_has(k, self.input[self.current])
            invariant
                self.wf(),
                self.input == old(self).input,
                start <= self.current,
                run_end(self.input@, start as int, k) == run_end(self.input@, self.current as int, k),
            decreases self.input.len() - self.current,
        {
            self.current = self.current + 1;
        }
        string_of(&self.input, start, self.current)
    }

    fn consume_whitespace(&mut self)
        requires
            old(self).wf(),
        ensures
            final(self).wf(),
            final(self).input == old(self).input,
            final(self).current == run_end(old(self).input@, old(self).current as int, CharClass::Whitespace),
    {
        self.consume_while(CharClass::Whitespace);
    }

    fn consume_identifier_or_keyword(&mut self) -> (t: Token)
        requires
            old(self).wf(),
        ensures
            final(self).wf(),
            final(self).input == old(self).input,
            final(self).current == run_end(old(self).input@, old(self).current as int, CharClass::IdentifierChar),
            t@ == word_token(old(self).input@.subrange(old(self).current as int, final(self).current as int)),
    {
        let i = self.current;
        let id = self.consume_while(CharClass::IdentifierChar);
        let j = self.current;
        let v = &self.input;
        if spells(v, i, j, &['l', 'o', 'c', 'a', 'l']) { Token::Local }
        else if spells(v, i, j, &['f', 'u', 'n', 'c', 't', 'i', 'o', 'n']) { Token::Function }
        else if spells(v, i, j, &['r', 'e', 't', 'u', 'r', 'n']) { Token::Return }
        else if spells(v, i, j, &['n', 'i', 'l']) { Token::Literal(LiteralType::Nil) }
        else if spells(v, i, j, &['t', 'r', 'u', 'e']) { Token::Literal(LiteralType::Boolean(true)) }
        else if spells(v, i, j, &['f', 'a', 'l', 's', 'e']) { Token::Literal(LiteralType::Boolean(false)) }
        else if spells(v, i, j, &['i', 'f']) { Token::If }
        else if spells(v, i, j, &['t', 'h', 'e', 'n']) { Token::Then }
        else if spells(v, i, j, &['e', 'l', 's', 'e']) { Token::Else }
        else if spells(v, i, j, &['e', 'l', 's', 'e', 'i', 'f']) { Token::ElseIf }
        else if spells(v, i, j, &['e', 'n', 'd']) { Token::End }
        else if spells(v, i, j, &['w', 'h', 'i', 'l', 'e']) { Token::While }
        else if spells(v, i, j, &['f', 'o', 'r']) { Token::For }
        else if spells(v, i, j, &['d', 'o']) { Token::Do }
        else if spells(v, i, j, &['r', 'e', 'p', 'e', 'a', 't']) { Token::Repeat }
        else if spells(v, i, j, &['u', 'n', 't', 'i', 'l']) { Token::Until }
        else { Token::Identifier(id) }
    }

    fn consume_number(&mut self) -> (r: Result<Token, String>)
        requires
            old(self).wf(),
        ensures
            final(self).wf(),
            final(self).input == old(self).input,
            final(self).current == run_end(old(self).input@, old(self).current as int, CharClass::NumeralChar),
            ({
                let t = old(self).input@.subrange(old(self).current as int, final(self).current as int);
                match r {
                    Ok(tok) => dots(t) <= 1 && tok@ == Tok::Literal(Lit::Number(t)),
                    Err(_) => dots(t) > 1,
                }
            }),
    {
        let i = self.current;
        let numeral = self.consume_while(CharClass::NumeralChar);
        let j = self.current;
        let mut count: usize = 0;
        let mut k = i;
        while k < j
            invariant
                i <= k <= j <= self.input.len(),
                count <= k - i,
                count == dots(self.input@.subrange(i as int, k as int)),
            decreases j - k,
        {
            assert(self.input@.subrange(i as int, k + 1).drop_last() == self.input@.subrange(i as int, k as int));
            if self.input[k] == '.' {
                count = count + 1;
            }
            k = k + 1;
        }
        if count <= 1 {
            Ok(Token::Literal(LiteralType::Number(numeral)))
        } else {
            Err(message("Number conversion error"))
        }
    }

    /// Reads one token, or skips whitespace or a comment, at the current position.
    fn lex_one(&mut self) -> (r: Result<Option<Token>, String>)
        requires
            old(self).wf(),
            old(self).current < old(self).input.len(),
        ensures
            final(self).wf(),
            final(self).input == old(self).input,
            old(self).current <= final(self).current,
            ({
                let s = old(self).input@;
                let pos = old(self).current as int;
                let next = final(self).current as int;
                match r {
                    Ok(Some(t)) => lex_step(s, pos) == LexStep::Emit(t@, next) && pos < next,
                    Ok(None) => lex_step(s, pos) == LexStep::Skip(next) && pos < next,
                    Err(_) => lex_from(s, pos) is Err,
                }
            }),
    {
        let ghost s = self.input@;
        let ghost pos = self.current as int;
        let start = self.current;
        let c = self.input[self.current];
        let mut emitted: Option<Token> = None;
        if c == '+' {
            emitted = Some(Token::Plus);
            self.advance();
        } else if c == '*' {
            emitted = Some(Token::Asterisk);
            self.advance();
        } else if c == '/' {
            emitted = Some(Token::Slash);
            self.advance();
        } else if c == '(' {
            emitted = Some(Token::LeftParen);
            self.advance();
        } else if c == ')' {
            emitted = Some(Token::RightParen);
            self.advance();
        } else if c == '{' {
            emitted = Some(Token::LeftBracket);
            self.advance();
        } else if c == '}' {
            emitted = Some(Token::RightBracket);
            self.advance();
        } else if c == '[' {
            emitted = Some(Token::LeftSquareBracket);
            self.advance();
        } else if c == ']' {
            emitted = Some(Token::RightSquareBracket);
            self.advance();
        } else if c == ',' {
            emitted = Some(Token::Comma);
            self.advance();
        } else if c == '-' {
            if self.next_is('-') {
                self.consume_while(CharClass::NotNewline);
            } else {
                emitted = Some(Token::Minus);
            }
            self.advance();
        } else if c == '<' {
            if self.next_is('=') {
                emitted = Some(Token::LessThanOrEqual);
                self.advance();
            } else {
                emitted = Some(Token::LessThan);
            }
            self.advance();
        } else if c == '>' {
            if self.next_is('=') {
                emitted = Some(Token::GreaterThanOrEqual);
                self.advance();
            } else {
                emitted = Some(Token::GreaterThan);
            }
            self.advance();
        } else if c == '=' {
            if self.next_is('=') {
                emitted = Some(Token::Equal);
                self.advance();
            } else {
                emitted = Some(Token::Assigment);
            }
            self.advance();
        } else if c == '~' {
            if !self.next_is('=') {
                return Err(message("Unexpected char after ~ expected ="));
            }
            emitted = Some(Token::NotEqual);
            self.advance();
            self.advance();
        } else if c == '.' {
            if self.next_is('.') {
                emitted = Some(Token::Concatanation);
                self.advance();
            } else {
                emitted = Some(Token::Dot);
            }
            self.advance();
        } else if is_white_space(c) {
            proof {
                lemma_run_end(s, pos + 1, CharClass::Whitespace);
            }
            self.consume_whitespace();
        } else if '0' <= c && c <= '9' {
            proof {
                lemma_run_end(s, pos + 1, CharClass::NumeralChar);
            }
            match self.consume_number() {
                Ok(t) => {
                    emitted = Some(t);
                },
                Err(e) => {
                    return Err(e);
                },
            }
        } else if ('a' <= c && c <= 'z') || ('A' <= c && c <= 'Z') || c == '_' {
            proof {
                lemma_run_end(s, pos, CharClass::IdentifierChar);
            }
            let t = self.consume_identifier_or_keyword();
            // A letter or `_` always continues an identifier; an empty word is refused all the same.
            if self.current == start {
                let mut m = message("Unexpected character: ");
                m.push(c);
                return Err(m);
            }
            emitted = Some(t);
        } else if c == '"' {
            self.advance();
            proof {
                lemma_run_end(s, pos + 1, CharClass::NotQuote);
            }
            let text = self.consume_while(CharClass::NotQuote);
            if self.current >= self.input.len() {
                return Err(message("Unterminated string"));
            }
            self.advance();
            emitted = Some(Token::Literal(LiteralType::String(text)));
        } else {
            let mut m = message("Unexpected character: ");
            m.push(c);
            return Err(m);
        }
        proof {
            lemma_run_end(s, pos, CharClass::NotNewline);
        }
        Ok(emitted)
    }

    /// Reads the rest of the text into tokens, or fails on the first malformed character.
    pub fn tokenize(&mut self) -> (r: Result<Vec<Token>, String>)
        requires
            old(self).wf(),
        ensures
            final(self).wf(),
            final(self).text() == old(self).text(),
            match r {
                Ok(v) => lex_from(old(self).text(), old(self).position()) == Ok::<Seq<Tok>, ()>(toks(v@)),
                Err(_) => lex_from(old(self).text(), old(self).position()) is Err,
            },
    {
        let ghost s = self.input@;
        let ghost first = self.current as int;
        let mut tokens: Vec<Token> = Vec::new();
        let mut failure: Option<String> = None;
        assert(toks(tokens@) =~= Seq::<Tok>::empty());
        assert(prepend(toks(tokens@), lex_from(s, first)) =~= lex_from(s, first));
        while failure.is_none() && self.current < self.input.len()
            invariant
                self.wf(),
                self.input@ == s,
                failure is None ==> lex_from(s, first) == prepend(toks(tokens@), lex_from(s, self.current as int)),
                failure is Some ==> lex_from(s, first) is Err,
            decreases self.input.len() - self.current + if failure is None { 1int } else { 0int },
        {
            let step = self.lex_one();
            match step {
                Ok(Some(t)) => {
                    proof {
                        lemma_push_token(tokens@, t, lex_from(s, self.current as int));
                    }
                    tokens.push(t);
                },
                Ok(None) => {},
                Err(e) => {
                    failure = Some(e);
                },
            }
        }
        match failure {
            Some(e) => Err(e),
            None => {
                assert(toks(tokens@) + seq![] =~= toks(tokens@));
                Ok(tokens)
            },
        }
    }
}

} // verus!
