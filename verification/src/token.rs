//! Tokens: the lexical units that the syntax tree carries for names,
//! operators and error positions.

use vstd::prelude::*;

verus! {

#[allow(non_camel_case_types)]
#[derive(Debug, Copy, Clone, PartialEq, Eq, Hash, Structural)]
pub enum TokenType {
    // Single-character tokens.
    LEFT_PAREN,
    RIGHT_PAREN,
    LEFT_BRACE,
    RIGHT_BRACE,
    COMMA,
    DOT,
    MINUS,
    PLUS,
    SEMICOLON,
    SLASH,
    STAR,
    // One or two character tokens.
    BANG,
    BANG_EQUAL,
    EQUAL,
    EQUAL_EQUAL,
    GREATER,
    GREATER_EQUAL,
    LESS,
    LESS_EQUAL,
    // Literals.
    IDENTIFIER,
    STRING,
    NUMBER,
    // Keywords.
    AND,
    CLASS,
    ELSE,
    FALSE,
    FUN,
    FOR,
    IF,
    NIL,
    OR,
    PRINT,
    RETURN,
    SUPER,
    THIS,
    TRUE,
    VAR,
    WHILE,
    EOF,
}

/// The token type of a word: the keyword it spells, or `IDENTIFIER`.
pub open spec fn word_type(word: Seq<char>) -> TokenType {
    if word == "and"@ {
        TokenType::AND
    } else if word == "class"@ {
        TokenType::CLASS
    } else if word == "else"@ {
        TokenType::ELSE
    } else if word == "false"@ {
        TokenType::FALSE
    } else if word == "for"@ {
        TokenType::FOR
    } else if word == "fun"@ {
        TokenType::FUN
    } else if word == "if"@ {
        TokenType::IF
    } else if word == "nil"@ {
        TokenType::NIL
    } else if word == "or"@ {
        TokenType::OR
    } else if word == "print"@ {
        TokenType::PRINT
    } else if word == "return"@ {
        TokenType::RETURN
    } else if word == "super"@ {
        TokenType::SUPER
    } else if word == "this"@ {
        TokenType::THIS
    } else if word == "true"@ {
        TokenType::TRUE
    } else if word == "var"@ {
        TokenType::VAR
    } else if word == "while"@ {
        TokenType::WHILE
    } else {
        TokenType::IDENTIFIER
    }
}

/// Whether `text` spells exactly `word`.
pub fn spells(text: &String, word: &str) -> (r: bool)
    ensures
        r == (text@ == word@),
{
    let other = String::from_str(word);
    *text == other
}

impl TokenType {
    pub fn reserved_or_ident(s: &str) -> (r: TokenType)
        ensures
            r == word_type(s@),
    {
        let word = String::from_str(s);
        if spells(&word, "and") {
            TokenType::AND
        } else if spells(&word, "class") {
            TokenType::CLASS
        } else if spells(&word, "else") {
            TokenType::ELSE
        } else if spells(&word, "false") {
            TokenType::FALSE
        } else if spells(&word, "for") {
            TokenType::FOR
        } else if spells(&word, "fun") {
            TokenType::FUN
        } else if spells(&word, "if") {
            TokenType::IF
        } else if spells(&word, "nil") {
            TokenType::NIL
        } else if spells(&word, "or") {
            TokenType::OR
        } else if spells(&word, "print") {
            TokenType::PRINT
        } else if spells(&word, "return") {
            TokenType::RETURN
        } else if spells(&word, "super") {
            TokenType::SUPER
        } else if spells(&word, "this") {
            TokenType::THIS
        } else if spells(&word, "true") {
            TokenType::TRUE
        } else if spells(&word, "var") {
            TokenType::VAR
        } else if spells(&word, "while") {
            TokenType::WHILE
        } else {
            TokenType::IDENTIFIER
        }
    }
}

/// A literal as the source spells it. A number is held as the bit pattern
/// of its IEEE 754 double.
#[derive(Debug)]
pub enum Literal {
    Num(u64),
    Str(String),
    Bool(bool),
    Nil,
}

impl Clone for Literal {
    fn clone(&self) -> (r: Self)
        ensures
            r == *self,
    {
        match self {
            Literal::Num(n) => Literal::Num(*n),
            Literal::Str(s) => Literal::Str(s.clone()),
            Literal::Bool(b) => Literal::Bool(*b),
            Literal::Nil => Literal::Nil,
        }
    }
}

/// One token. `index` is its position in the token stream, which tells two
/// uses of one name apart.
#[derive(Debug)]
pub struct Token {
    pub index: usize,
    pub token_type: TokenType,
    pub lexeme: String,
    pub literal: Literal,
    pub line: i64,
}

impl Clone for Token {
    fn clone(&self) -> (r: Self)
        ensures
            r == *self,
    {
        Token {
            index: self.index,
            token_type: self.token_type,
            lexeme: self.lexeme.clone(),
            literal: self.literal.clone(),
            line: self.line,
        }
    }
}

impl Token {
    pub fn new(index: usize, token_type: TokenType, lexeme: &str, literal: Literal, line: i64) -> (r: Self)
        ensures
            r.index == index,
            r.token_type == token_type,
            r.lexeme@ == lexeme@,
            r.literal == literal,
            r.line == line,
    {
        Token { index, token_type, lexeme: String::from_str(lexeme), literal, line }
    }

    /// The keyword token under which a bound method finds its instance.
    pub fn this() -> (r: Self)
        ensures
            r.index == 0,
            r.token_type == TokenType::THIS,
            r.lexeme@ == "this"@,
            r.literal == Literal::Nil,
            r.line == 0,
    {
        Token::new(0, TokenType::THIS, "this", Literal::Nil, 0)
    }

    /// Whether two tokens stand at the same place in the source: same
    /// position, type, spelling and line. The literal is not compared.
    pub open spec fn same_site(self, other: Token) -> bool {
        &&& self.index == other.index
        &&& self.token_type == other.token_type
        &&& self.lexeme@ == other.lexeme@
        &&& self.line == other.line
    }

    pub fn is_same_site(&self, other: &Token) -> (r: bool)
        ensures
            r == self.same_site(*other),
    {
        self.index == other.index && self.token_type == other.token_type && self.line
            == other.line && self.lexeme == other.lexeme
    }
}

} // verus!

verus! {

/// What a literal is, with a string as the sequence of its characters.
pub enum LiteralText {
    Num(u64),
    Str(Seq<char>),
    Bool(bool),
    Nil,
}

impl View for Literal {
    type V = LiteralText;

    open spec fn view(&self) -> LiteralText {
        match *self {
            Literal::Num(n) => LiteralText::Num(n),
            Literal::Str(s) => LiteralText::Str(s@),
            Literal::Bool(b) => LiteralText::Bool(b),
            Literal::Nil => LiteralText::Nil,
        }
    }
}

/// What a token is, with its spelling as a sequence of characters.
pub struct Lexeme {
    pub index: usize,
    pub token_type: TokenType,
    pub lexeme: Seq<char>,
    pub literal: LiteralText,
    pub line: i64,
}

impl View for Token {
    type V = Lexeme;

    open spec fn view(&self) -> Lexeme {
        Lexeme {
            index: self.index,
            token_type: self.token_type,
            lexeme: self.lexeme@,
            literal: self.literal@,
            line: self.line,
        }
    }
}

/// What the tokens are.
pub open spec fn lexemes(tokens: Seq<Token>) -> Seq<Lexeme> {
    Seq::new(tokens.len(), |i: int| tokens[i]@)
}

pub proof fn lemma_lexemes_push(tokens: Seq<Token>, token: Token)
    ensures
        lexemes(tokens.push(token)) == lexemes(tokens).push(token@),
{
    assert(lexemes(tokens.push(token)) =~= lexemes(tokens).push(token@));
}

} // verus!

verus! {

/// Two tokens are equal if they stand at the same place in the source.
impl PartialEq for Token {
    fn eq(&self, other: &Token) -> (r: bool) {
        self.is_same_site(other)
    }
}

impl vstd::std_specs::cmp::PartialEqSpecImpl for Token {
    open spec fn obeys_eq_spec() -> bool {
        true
    }

    open spec fn eq_spec(&self, other: &Token) -> bool {
        self.same_site(*other)
    }
}

} // verus!
