use vstd::prelude::*;

verus! {

/// The kinds of lexical token.
#[allow(non_camel_case_types)]
#[derive(Clone, Copy, Debug, PartialEq, Eq, Structural)]
pub enum TokenType {
    LEFT_PAREN,
    RIGHT_PAREN,
    LEFT_BRACE,
    RIGHT_BRACE,
    COMMA,
    DOT,
    MINUS,
    PLUS,
    SEMICOLON,
    SLASH,
    STAR,
    BANG,
    BANG_EQUAL,
    EQUAL,
    EQUAL_EQUAL,
    GREATER,
    GREATER_EQUAL,
    LESS,
    LESS_EQUAL,
    IDENTIFIER,
    STRING,
    NUMBER,
    AND,
    CLASS,
    ELSE,
    FALSE,
    FUN,
    FOR,
    IF,
    NIL,
    OR,
    PRINT,
    RETURN,
    SUPER,
    THIS,
    TRUE,
    VAR,
    WHILE,
    EOF,
}

/// A literal value carried by a token or a literal expression.
///
/// A number keeps its source text (digits with an optional fractional part);
/// the evaluator's number type turns that text into a value.
#[allow(non_camel_case_types)]
#[derive(Debug)]
pub enum Literals {
    STRING(String),
    NUMBER(String),
    BOOL(bool),
    NIL,
}

/// A lexical token. `id` identifies this occurrence: scope resolution is
/// keyed by it, never by the lexeme.
#[derive(Debug)]
pub struct Token {
    pub id: usize,
    pub token_type: TokenType,
    pub lexeme: String,
    pub literal: Option<Literals>,
    pub line: u64,
}

impl Literals {
    /// A copy of this literal.
    pub fn duplicate(&self) -> (r: Literals)
        ensures
            r == *self,
    {
        match self {
            Literals::STRING(s) => Literals::STRING(s.clone()),
            Literals::NUMBER(s) => Literals::NUMBER(s.clone()),
            Literals::BOOL(b) => Literals::BOOL(*b),
            Literals::NIL => Literals::NIL,
        }
    }
}

/// A copy of a sequence of tokens, element by element.
pub fn duplicate_tokens(v: &Vec<Token>) -> (r: Vec<Token>)
    ensures
        r@ == v@,
{
    let mut r: Vec<Token> = Vec::new();
    let mut i: usize = 0;
    while i < v.len()
        invariant
            i <= v@.len(),
            r@ == v@.subrange(0, i as int),
        decreases v@.len() - i,
    {
        r.push(v[i].duplicate());
        i = i + 1;
        proof {
            assert(r@ =~= v@.subrange(0, i as int));
        }
    }
    proof {
        assert(r@ =~= v@);
    }
    r
}

impl Token {
    pub fn new(
        id: usize,
        token_type: TokenType,
        lexeme: String,
        literal: Option<Literals>,
        line: u64,
    ) -> (r: Token)
        ensures
            r.id == id,
            r.token_type == token_type,
            r.lexeme == lexeme,
            r.literal == literal,
            r.line == line,
    {
        Token { id, token_type, lexeme, literal, line }
    }

    /// A copy of this token with every field kept.
    pub fn duplicate(&self) -> (r: Token)
        ensures
            r == *self,
    {
        let literal = match &self.literal {
            None => None,
            Some(l) => Some(l.duplicate()),
        };
        Token {
            id: self.id,
            token_type: self.token_type,
            lexeme: self.lexeme.clone(),
            literal,
            line: self.line,
        }
    }
}

} // verus!
