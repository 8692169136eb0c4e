//! The scanner: from the characters of a program to its tokens.

use crate::callable::Host;
use crate::context::{report_text, Context};
use crate::errors::ScanError;
use crate::token::{
    lemma_lexemes_push, lexemes, word_type, Lexeme, Literal, LiteralText, Token, TokenType,
};
use vstd::prelude::*;
use vstd::std_specs::iter::IteratorSpec;

verus! {

pub open spec fn is_digit(c: char) -> bool {
    '0' <= c <= '9'
}

pub open spec fn is_alpha(c: char) -> bool {
    ('a' <= c <= 'z') || ('A' <= c <= 'Z') || c == '_'
}

pub open spec fn is_alphanumeric(c: char) -> bool {
    is_alpha(c) || is_digit(c)
}

/// The first place at or after `from` that holds a newline, or the end.
pub open spec fn line_end(chars: Seq<char>, from: int) -> int
    decreases chars.len() - from,
{
    if from >= chars.len() || from < 0 {
        from
    } else if chars[from] == '\n' {
        from
    } else {
        line_end(chars, from + 1)
    }
}

/// The first place at or after `from` that holds a double quote, or the
/// end.
pub open spec fn quote_at(chars: Seq<char>, from: int) -> int
    decreases chars.len() - from,
{
    if from >= chars.len() || from < 0 {
        from
    } else if chars[from] == '"' {
        from
    } else {
        quote_at(chars, from + 1)
    }
}

/// The first place at or after `from` that does not hold a digit.
pub open spec fn digits_end(chars: Seq<char>, from: int) -> int
    decreases chars.len() - from,
{
    if from >= chars.len() || from < 0 {
        from
    } else if !is_digit(chars[from]) {
        from
    } else {
        digits_end(chars, from + 1)
    }
}

/// The first place at or after `from` that holds neither a letter, a
/// digit nor an underscore.
pub open spec fn word_end(chars: Seq<char>, from: int) -> int
    decreases chars.len() - from,
{
    if from >= chars.len() || from < 0 {
        from
    } else if !is_alphanumeric(chars[from]) {
        from
    } else {
        word_end(chars, from + 1)
    }
}

/// A run of digits or of word characters ends at or after its start.
pub proof fn lemma_run_ends(chars: Seq<char>, from: int)
    requires
        0 <= from <= chars.len(),
    ensures
        from <= digits_end(chars, from) <= chars.len(),
        from <= word_end(chars, from) <= chars.len(),
    decreases chars.len() - from,
{
    if from < chars.len() {
        lemma_run_ends(chars, from + 1);
    }
}

/// The end of the number that begins at `from`: its digits and, if a dot
/// and a digit follow them, the dot and the digits after it.
pub open spec fn number_end(chars: Seq<char>, from: int) -> int {
    let whole = digits_end(chars, from);
    if whole + 1 < chars.len() && chars[whole] == '.' && is_digit(chars[whole + 1]) {
        digits_end(chars, whole + 1)
    } else {
        whole
    }
}

/// The line after `line`. Lines are counted up to the largest number.
pub open spec fn next_line(line: i64) -> i64 {
    if line < i64::MAX {
        (line + 1) as i64
    } else {
        line
    }
}

/// The line that `to` stands in if `from` stands in `line`.
pub open spec fn line_at(chars: Seq<char>, from: int, to: int, line: i64) -> i64
    decreases to - from,
{
    if from >= to || from < 0 || to > chars.len() {
        line
    } else if chars[to - 1] == '\n' {
        next_line(line_at(chars, from, to - 1, line))
    } else {
        line_at(chars, from, to - 1, line)
    }
}

/// The number of the token after the one numbered `index`.
pub open spec fn next_index(index: usize) -> usize {
    if index < usize::MAX {
        (index + 1) as usize
    } else {
        index
    }
}

/// How far a scan has come.
pub struct Scan {
    /// The place of the next character.
    pub position: int,
    /// The line of the next character.
    pub line: i64,
    /// The number of the latest token.
    pub index: usize,
    /// The tokens so far.
    pub tokens: Seq<Lexeme>,
}

/// Why a scan failed: the line and what is wrong there.
pub struct Fault {
    pub line: i64,
    pub message: Seq<char>,
}

impl Scan {
    /// The scan after a token that ends before `end`. The token is
    /// spelled by the characters from the scan's place on.
    pub open spec fn token(self, chars: Seq<char>, end: int, token_type: TokenType, literal: LiteralText, line: i64) -> Scan {
        Scan {
            position: end,
            line,
            index: next_index(self.index),
            tokens: self.tokens.push(
                Lexeme {
                    index: next_index(self.index),
                    token_type,
                    lexeme: chars.subrange(self.position, end),
                    literal,
                    line,
                },
            ),
        }
    }

    /// The scan after `count` characters that make no token.
    pub open spec fn skip(self, end: int, line: i64) -> Scan {
        Scan { position: end, line, ..self }
    }

    /// A token of one character, or of two if the second is `=`.
    pub open spec fn operator(self, chars: Seq<char>, one: TokenType, two: TokenType) -> Scan {
        if self.position + 1 < chars.len() && chars[self.position + 1] == '=' {
            self.token(chars, self.position + 2, two, LiteralText::Nil, self.line)
        } else {
            self.token(chars, self.position + 1, one, LiteralText::Nil, self.line)
        }
    }
}

/// One step of a scan that has not reached the end: the next token, or
/// what is skipped, or what is wrong.
pub open spec fn scan_token(chars: Seq<char>, s: Scan) -> Result<Scan, Fault> {
    let c = chars[s.position];
    let next = s.position + 1;
    if c == '(' {
        Ok(s.token(chars, next, TokenType::LEFT_PAREN, LiteralText::Nil, s.line))
    } else if c == ')' {
        Ok(s.token(chars, next, TokenType::RIGHT_PAREN, LiteralText::Nil, s.line))
    } else if c == '{' {
        Ok(s.token(chars, next, TokenType::LEFT_BRACE, LiteralText::Nil, s.line))
    } else if c == '}' {
        Ok(s.token(chars, next, TokenType::RIGHT_BRACE, LiteralText::Nil, s.line))
    } else if c == ',' {
        Ok(s.token(chars, next, TokenType::COMMA, LiteralText::Nil, s.line))
    } else if c == '.' {
        Ok(s.token(chars, next, TokenType::DOT, LiteralText::Nil, s.line))
    } else if c == '-' {
        Ok(s.token(chars, next, TokenType::MINUS, LiteralText::Nil, s.line))
    } else if c == '+' {
        Ok(s.token(chars, next, TokenType::PLUS, LiteralText::Nil, s.line))
    } else if c == ';' {
        Ok(s.token(chars, next, TokenType::SEMICOLON, LiteralText::Nil, s.line))
    } else if c == '*' {
        Ok(s.token(chars, next, TokenType::STAR, LiteralText::Nil, s.line))
    } else if c == '!' {
        Ok(s.operator(chars, TokenType::BANG, TokenType::BANG_EQUAL))
    } else if c == '=' {
        Ok(s.operator(chars, TokenType::EQUAL, TokenType::EQUAL_EQUAL))
    } else if c == '<' {
        Ok(s.operator(chars, TokenType::LESS, TokenType::LESS_EQUAL))
    } else if c == '>' {
        Ok(s.operator(chars, TokenType::GREATER, TokenType::GREATER_EQUAL))
    } else if c == '/' {
        if next < chars.len() && chars[next] == '/' {
            Ok(s.skip(line_end(chars, next + 1), s.line))
        } else {
            Ok(s.token(chars, next, TokenType::SLASH, LiteralText::Nil, s.line))
        }
    } else if c == ' ' || c == '\r' || c == '\t' {
        Ok(s.skip(next, s.line))
    } else if c == '\n' {
        Ok(s.skip(next, next_line(s.line)))
    } else if c == '"' {
        let close = quote_at(chars, next);
        let line = line_at(chars, next, close, s.line);
        if close >= chars.len() {
            Err(Fault { line, message: "Unterminated string."@ })
        } else {
            Ok(
                s.token(
                    chars,
                    close + 1,
                    TokenType::STRING,
                    LiteralText::Str(chars.subrange(next, close)),
                    line,
                ),
            )
        }
    } else if is_digit(c) {
        Ok(s.token(chars, number_end(chars, s.position), TokenType::NUMBER, LiteralText::Nil, s.line))
    } else if is_alpha(c) {
        let end = word_end(chars, s.position);
        Ok(
            s.token(
                chars,
                end,
                word_type(chars.subrange(s.position, end)),
                LiteralText::Nil,
                s.line,
            ),
        )
    } else {
        Err(Fault { line: s.line, message: "Unexpected character."@ })
    }
}

/// The tokens of a program from a scan on: token after token up to the
/// end, where the end-of-file token stands; or the first fault.
pub open spec fn scan_from(chars: Seq<char>, s: Scan) -> Result<Seq<Lexeme>, Fault>
    decreases chars.len() - s.position,
{
    if s.position >= chars.len() || s.position < 0 {
        Ok(
            s.tokens.push(
                Lexeme {
                    index: next_index(s.index),
                    token_type: TokenType::EOF,
                    lexeme: Seq::empty(),
                    literal: LiteralText::Nil,
                    line: s.line,
                },
            ),
        )
    } else {
        match scan_token(chars, s) {
            Ok(after) => if s.position < after.position <= chars.len() {
                scan_from(chars, after)
            } else {
                Err(Fault { line: s.line, message: "Unexpected character."@ })
            },
            Err(fault) => Err(fault),
        }
    }
}

/// A scan that succeeds ends with the end-of-file token.
pub proof fn lemma_scan_ends(chars: Seq<char>, s: Scan)
    ensures
        scan_from(chars, s) matches Ok(tokens) ==> tokens.len() > 0 && tokens.last().token_type
            == TokenType::EOF,
    decreases chars.len() - s.position,
{
    if !(s.position >= chars.len() || s.position < 0) {
        match scan_token(chars, s) {
            Ok(after) => {
                if s.position < after.position <= chars.len() {
                    lemma_scan_ends(chars, after);
                }
            },
            Err(_) => {},
        }
    }
}

/// The tokens of a program. The number that a `NUMBER` token spells is
/// not computed here: its literal is nil until the host has read it.
pub open spec fn scan(chars: Seq<char>) -> Result<Seq<Lexeme>, Fault> {
    scan_from(chars, Scan { position: 0, line: 1, index: 0, tokens: Seq::empty() })
}

} // verus!

verus! {

/// The characters of a string.
pub fn characters(source: &str) -> (r: Vec<char>)
    ensures
        r@ == source@,
{
    broadcast use vstd::string::group_string_axioms;

    let count = source.unicode_len();
    let mut rest = source.chars();
    let mut r: Vec<char> = Vec::new();
    let mut i: usize = 0;
    while i < count
        invariant
            i <= count,
            count == source@.len(),
            r@.len() == i,
            r@ + rest.remaining() == source@,
            rest.obeys_prophetic_iter_laws(),
        decreases count - i,
    {
        let ghost before = rest.remaining();
        assert(before.len() > 0) by {
            assert((r@ + before).len() == source@.len());
        }
        match rest.next() {
            Some(c) => {
                r.push(c);
                assert(r@ + rest.remaining() =~= source@) by {
                    assert(before =~= seq![c] + before.drop_first());
                }
            },
            None => {},
        }
        i = i + 1;
    }
    assert(r@ =~= source@) by {
        assert((r@ + rest.remaining()).len() == source@.len());
    }
    r
}

pub struct Scanner {
    /// The program.
    pub source: String,
    /// The characters of the program.
    pub chars: Vec<char>,
    /// The tokens found so far.
    pub tokens: Vec<Token>,
    /// The place of the next character.
    pub current: usize,
    /// The line of the next character.
    pub line: i64,
    /// The number of the latest token.
    pub current_index: usize,
    /// Where a fault is reported.
    pub context: Context,
}

impl View for Scanner {
    type V = Scan;

    open spec fn view(&self) -> Scan {
        Scan {
            position: self.current as int,
            line: self.line,
            index: self.current_index,
            tokens: lexemes(self.tokens@),
        }
    }
}

impl Scanner {
    /// The characters are those of the program, and the place lies among
    /// them.
    pub open spec fn well_formed(&self) -> bool {
        self.chars@ == self.source@ && self.current <= self.chars@.len()
    }

    pub fn new(source: &str, context: Context) -> (r: Self)
        ensures
            r.well_formed(),
            r.chars@ == source@,
            r.context == context,
            r@ == (Scan { position: 0, line: 1, index: 0, tokens: Seq::empty() }),
    {
        let r = Scanner {
            source: String::from_str(source),
            chars: characters(source),
            tokens: Vec::new(),
            current: 0,
            line: 1,
            current_index: 0,
            context,
        };
        assert(lexemes(r.tokens@) =~= Seq::empty());
        r
    }

    pub fn is_digit(c: char) -> (r: bool)
        ensures
            r == is_digit(c),
    {
        c >= '0' && c <= '9'
    }

    pub fn is_alpha(c: char) -> (r: bool)
        ensures
            r == is_alpha(c),
    {
        (c >= 'a' && c <= 'z') || (c >= 'A' && c <= 'Z') || c == '_'
    }

    pub fn is_alphanumeric(c: char) -> (r: bool)
        ensures
            r == is_alphanumeric(c),
    {
        Self::is_alpha(c) || Self::is_digit(c)
    }

    fn line_end(&self, from: usize) -> (r: usize)
        requires
            from <= self.chars@.len(),
        ensures
            r == line_end(self.chars@, from as int),
            from <= r <= self.chars@.len(),
    {
        let mut i: usize = from;
        while i < self.chars.len() && self.chars[i] != '\n'
            invariant
                from <= i <= self.chars@.len(),
                line_end(self.chars@, from as int) == line_end(self.chars@, i as int),
            decreases self.chars@.len() - i,
        {
            i = i + 1;
        }
        i
    }

    fn quote_at(&self, from: usize) -> (r: usize)
        requires
            from <= self.chars@.len(),
        ensures
            r == quote_at(self.chars@, from as int),
            from <= r <= self.chars@.len(),
    {
        let mut i: usize = from;
        while i < self.chars.len() && self.chars[i] != '"'
            invariant
                from <= i <= self.chars@.len(),
                quote_at(self.chars@, from as int) == quote_at(self.chars@, i as int),
            decreases self.chars@.len() - i,
        {
            i = i + 1;
        }
        i
    }

    fn digits_end(&self, from: usize) -> (r: usize)
        requires
            from <= self.chars@.len(),
        ensures
            r == digits_end(self.chars@, from as int),
            from <= r <= self.chars@.len(),
    {
        let mut i: usize = from;
        while i < self.chars.len() && Self::is_digit(self.chars[i])
            invariant
                from <= i <= self.chars@.len(),
                digits_end(self.chars@, from as int) == digits_end(self.chars@, i as int),
            decreases self.chars@.len() - i,
        {
            i = i + 1;
        }
        i
    }

    fn word_end(&self, from: usize) -> (r: usize)
        requires
            from <= self.chars@.len(),
        ensures
            r == word_end(self.chars@, from as int),
            from <= r <= self.chars@.len(),
    {
        let mut i: usize = from;
        while i < self.chars.len() && Self::is_alphanumeric(self.chars[i])
            invariant
                from <= i <= self.chars@.len(),
                word_end(self.chars@, from as int) == word_end(self.chars@, i as int),
            decreases self.chars@.len() - i,
        {
            i = i + 1;
        }
        i
    }

    fn number_end(&self, from: usize) -> (r: usize)
        requires
            from <= self.chars@.len(),
        ensures
            r == number_end(self.chars@, from as int),
            from <= r <= self.chars@.len(),
    {
        let whole = self.digits_end(from);
        if whole < self.chars.len() && whole + 1 < self.chars.len() && self.chars[whole] == '.'
            && Self::is_digit(self.chars[whole + 1]) {
            self.digits_end(whole + 1)
        } else {
            whole
        }
    }

    fn line_at(&self, from: usize, to: usize, line: i64) -> (r: i64)
        requires
            from <= to <= self.chars@.len(),
        ensures
            r == line_at(self.chars@, from as int, to as int, line),
    {
        let mut i: usize = from;
        let mut r: i64 = line;
        while i < to
            invariant
                from <= i <= to <= self.chars@.len(),
                r == line_at(self.chars@, from as int, i as int, line),
            decreases to - i,
        {
            if self.chars[i] == '\n' && r < i64::MAX {
                r = r + 1;
            }
            i = i + 1;
        }
        r
    }

    /// Adds the token that ends before `end`.
    fn add_token(&mut self, end: usize, token_type: TokenType, literal: Literal, line: i64)
        requires
            old(self).well_formed(),
            old(self).current <= end <= old(self).chars@.len(),
        ensures
            final(self).well_formed(),
            final(self).chars == old(self).chars,
            final(self).source == old(self).source,
            final(self).context == old(self).context,
            final(self)@ == old(self)@.token(
                old(self).chars@,
                end as int,
                token_type,
                literal@,
                line,
            ),
    {
        let text = self.source.as_str().substring_char(self.current, end);
        if self.current_index < usize::MAX {
            self.current_index = self.current_index + 1;
        }
        let token = Token::new(self.current_index, token_type, text, literal, line);
        proof {
            lemma_lexemes_push(self.tokens@, token);
        }
        self.tokens.push(token);
        self.current = end;
        self.line = line;
    }

    /// A token of one character, or of two if the second is `=`.
    fn operator(&mut self, one: TokenType, two: TokenType)
        requires
            old(self).well_formed(),
            old(self).current < old(self).chars@.len(),
        ensures
            final(self).well_formed(),
            final(self).chars == old(self).chars,
            final(self).source == old(self).source,
            final(self).context == old(self).context,
            final(self)@ == old(self)@.operator(old(self).chars@, one, two),
            old(self).current < final(self).current,
    {
        let n = self.chars.len();
        if self.current + 1 < n && self.chars[self.current + 1] == '=' {
            self.add_token(self.current + 2, two, Literal::Nil, self.line);
        } else {
            self.add_token(self.current + 1, one, Literal::Nil, self.line);
        }
    }

    /// Reports a fault.
    fn fault(&mut self, line: i64, message: &str) -> (r: ScanError)
        ensures
            final(self).chars == old(self).chars,
            final(self).source == old(self).source,
            final(self).tokens == old(self).tokens,
            final(self).current == old(self).current,
            old(self).context.reported(
                final(self).context,
                report_text(line as int, ""@, message@),
            ),
    {
        self.context.error(line, message);
        ScanError::raise()
    }

    /// What a fault does: it is reported, and the scan stays where it is.
    pub open spec fn faulted(self, before: Scanner, fault: Fault) -> bool {
        &&& self.chars == before.chars
        &&& self.source == before.source
        &&& self.tokens == before.tokens
        &&& self.current == before.current
        &&& before.context.reported(
            self.context,
            report_text(fault.line as int, ""@, fault.message),
        )
    }

    /// Scans the next token, or what is skipped before it.
    pub fn scan_token(&mut self) -> (r: Result<(), ScanError>)
        requires
            old(self).well_formed(),
            old(self).current < old(self).chars@.len(),
        ensures
            final(self).well_formed(),
            final(self).chars == old(self).chars,
            final(self).source == old(self).source,
            match scan_token(old(self).chars@, old(self)@) {
                Ok(after) => r is Ok && final(self)@ == after && final(self).context == old(
                    self,
                ).context && old(self).current < final(self).current,
                Err(fault) => r is Err && final(self).faulted(*old(self), fault),
            },
    {
        let n = self.chars.len();
        let c = self.chars[self.current];
        let next = self.current + 1;
        let line = self.line;
        if c == '(' {
            self.add_token(next, TokenType::LEFT_PAREN, Literal::Nil, line);
        } else if c == ')' {
            self.add_token(next, TokenType::RIGHT_PAREN, Literal::Nil, line);
        } else if c == '{' {
            self.add_token(next, TokenType::LEFT_BRACE, Literal::Nil, line);
        } else if c == '}' {
            self.add_token(next, TokenType::RIGHT_BRACE, Literal::Nil, line);
        } else if c == ',' {
            self.add_token(next, TokenType::COMMA, Literal::Nil, line);
        } else if c == '.' {
            self.add_token(next, TokenType::DOT, Literal::Nil, line);
        } else if c == '-' {
            self.add_token(next, TokenType::MINUS, Literal::Nil, line);
        } else if c == '+' {
            self.add_token(next, TokenType::PLUS, Literal::Nil, line);
        } else if c == ';' {
            self.add_token(next, TokenType::SEMICOLON, Literal::Nil, line);
        } else if c == '*' {
            self.add_token(next, TokenType::STAR, Literal::Nil, line);
        } else if c == '!' {
            self.operator(TokenType::BANG, TokenType::BANG_EQUAL);
        } else if c == '=' {
            self.operator(TokenType::EQUAL, TokenType::EQUAL_EQUAL);
        } else if c == '<' {
            self.operator(TokenType::LESS, TokenType::LESS_EQUAL);
        } else if c == '>' {
            self.operator(TokenType::GREATER, TokenType::GREATER_EQUAL);
        } else if c == '/' {
            if next < self.chars.len() && self.chars[next] == '/' {
                self.current = self.line_end(next + 1);
            } else {
                self.add_token(next, TokenType::SLASH, Literal::Nil, line);
            }
        } else if c == ' ' || c == '\r' || c == '\t' {
            self.current = next;
        } else if c == '\n' {
            self.current = next;
            if self.line < i64::MAX {
                self.line = self.line + 1;
            }
        } else if c == '"' {
            let close = self.quote_at(next);
            let line = self.line_at(next, close, line);
            if close >= self.chars.len() {
                return Err(self.fault(line, "Unterminated string."));
            }
            let value = self.source.as_str().substring_char(next, close);
            self.add_token(
                close + 1,
                TokenType::STRING,
                Literal::Str(String::from_str(value)),
                line,
            );
        } else if Self::is_digit(c) {
            let end = self.number_end(self.current);
            proof {
                lemma_run_ends(self.chars@, self.current + 1);
                let whole = digits_end(self.chars@, self.current as int);
                if whole + 1 < self.chars@.len() {
                    lemma_run_ends(self.chars@, whole + 1);
                }
            }
            self.add_token(end, TokenType::NUMBER, Literal::Nil, line);
        } else if Self::is_alpha(c) {
            let end = self.word_end(self.current);
            proof {
                lemma_run_ends(self.chars@, self.current + 1);
            }
            let word = self.source.as_str().substring_char(self.current, end);
            let token_type = TokenType::reserved_or_ident(word);
            self.add_token(end, token_type, Literal::Nil, line);
        } else {
            return Err(self.fault(line, "Unexpected character."));
        }
        Ok(())
    }

    /// Scans the program to its end. The tokens end with the end-of-file
    /// token. The first fault ends the scan and is reported.
    pub fn scan_tokens(&mut self) -> (r: Result<usize, ScanError>)
        requires
            old(self).well_formed(),
        ensures
            final(self).chars == old(self).chars,
            final(self).source == old(self).source,
            match scan_from(old(self).chars@, old(self)@) {
                Ok(tokens) => r == Ok::<usize, ScanError>(tokens.len() as usize) && lexemes(
                    final(self).tokens@,
                ) == tokens && final(self).context == old(self).context,
                Err(fault) => r is Err && old(self).context.reported(
                    final(self).context,
                    report_text(fault.line as int, ""@, fault.message),
                ),
            },
    {
        while self.current < self.chars.len()
            invariant
                self.well_formed(),
                self.chars == old(self).chars,
                self.source == old(self).source,
                self.context == old(self).context,
                scan_from(old(self).chars@, old(self)@) == scan_from(self.chars@, self@),
            decreases self.chars@.len() - self.current,
        {
            match self.scan_token() {
                Ok(_) => {},
                Err(e) => {
                    return Err(e);
                },
            }
        }
        if self.current_index < usize::MAX {
            self.current_index = self.current_index + 1;
        }
        let end = Token::new(self.current_index, TokenType::EOF, "", Literal::Nil, self.line);
        proof {
            lemma_lexemes_push(self.tokens@, end);
            reveal_strlit("");
            assert(end@.lexeme =~= Seq::<char>::empty());
        }
        self.tokens.push(end);
        Ok(self.tokens.len())
    }

    /// Has the host read the numbers: every `NUMBER` token gets as its
    /// literal the double that the host reads from its spelling. Nothing
    /// else changes.
    pub fn read_numbers<H: Host>(tokens: &mut Vec<Token>, host: &mut H)
        ensures
            final(tokens)@.len() == old(tokens)@.len(),
            forall|i: int|
                0 <= i < old(tokens)@.len() ==> {
                    &&& (#[trigger] final(tokens)@[i]).index == old(tokens)@[i].index
                    &&& final(tokens)@[i].token_type == old(tokens)@[i].token_type
                    &&& final(tokens)@[i].lexeme == old(tokens)@[i].lexeme
                    &&& final(tokens)@[i].line == old(tokens)@[i].line
                    &&& if old(tokens)@[i].token_type == TokenType::NUMBER {
                        final(tokens)@[i].literal is Num
                    } else {
                        final(tokens)@[i].literal == old(tokens)@[i].literal
                    }
                },
    {
        let mut i: usize = 0;
        while i < tokens.len()
            invariant
                i <= tokens@.len(),
                tokens@.len() == old(tokens)@.len(),
                forall|j: int|
                    i <= j < tokens@.len() ==> (#[trigger] tokens@[j]) == old(tokens)@[j],
                forall|j: int|
                    0 <= j < i ==> {
                        &&& (#[trigger] tokens@[j]).index == old(tokens)@[j].index
                        &&& tokens@[j].token_type == old(tokens)@[j].token_type
                        &&& tokens@[j].lexeme == old(tokens)@[j].lexeme
                        &&& tokens@[j].line == old(tokens)@[j].line
                        &&& if old(tokens)@[j].token_type == TokenType::NUMBER {
                            tokens@[j].literal is Num
                        } else {
                            tokens@[j].literal == old(tokens)@[j].literal
                        }
                    },
            decreases tokens@.len() - i,
        {
            if tokens[i].token_type == TokenType::NUMBER {
                let number = host.number_of(tokens[i].lexeme.as_str());
                let token = &mut tokens[i];
                token.literal = Literal::Num(number);
            }
            i = i + 1;
        }
    }
}

} // verus!
