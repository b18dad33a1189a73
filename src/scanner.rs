use vstd::prelude::*;
use crate::error::error;
use crate::token::{Literals, Token, TokenType};

verus! {

pub open spec fn is_digit_char(c: char) -> bool {
    '0' <= c && c <= '9'
}

pub open spec fn is_alpha_char(c: char) -> bool {
    ('a' <= c && c <= 'z') || ('A' <= c && c <= 'Z') || c == '_'
}

/// The reserved word that `text` spells, if any.
pub open spec fn keyword_of(text: Seq<char>) -> Option<TokenType> {
    if text == "and"@ { Some(TokenType::AND) }
    else if text == "class"@ { Some(TokenType::CLASS) }
    else if text == "if"@ { Some(TokenType::IF) }
    else if text == "else"@ { Some(TokenType::ELSE) }
    else if text == "true"@ { Some(TokenType::TRUE) }
    else if text == "false"@ { Some(TokenType::FALSE) }
    else if text == "for"@ { Some(TokenType::FOR) }
    else if text == "fun"@ { Some(TokenType::FUN) }
    else if text == "nil"@ { Some(TokenType::NIL) }
    else if text == "or"@ { Some(TokenType::OR) }
    else if text == "print"@ { Some(TokenType::PRINT) }
    else if text == "return"@ { Some(TokenType::RETURN) }
    else if text == "super"@ { Some(TokenType::SUPER) }
    else if text == "this"@ { Some(TokenType::THIS) }
    else if text == "var"@ { Some(TokenType::VAR) }
    else if text == "while"@ { Some(TokenType::WHILE) }
    else { None }
}

fn spells(text: &String, word: &str) -> (r: bool)
    ensures
        r == (text@ == word@),
{
    let w = String::from_str(word);
    *text == w
}

/// The token type of an identifier-shaped word: a reserved word's own type,
/// else `IDENTIFIER`.
pub fn keyword(text: &String) -> (r: TokenType)
    ensures
        r == (match keyword_of(text@) {
            Some(t) => t,
            None => TokenType::IDENTIFIER,
        }),
{
    if spells(text, "and") { TokenType::AND }
    else if spells(text, "class") { TokenType::CLASS }
    else if spells(text, "if") { TokenType::IF }
    else if spells(text, "else") { TokenType::ELSE }
    else if spells(text, "true") { TokenType::TRUE }
    else if spells(text, "false") { TokenType::FALSE }
    else if spells(text, "for") { TokenType::FOR }
    else if spells(text, "fun") { TokenType::FUN }
    else if spells(text, "nil") { TokenType::NIL }
    else if spells(text, "or") { TokenType::OR }
    else if spells(text, "print") { TokenType::PRINT }
    else if spells(text, "return") { TokenType::RETURN }
    else if spells(text, "super") { TokenType::SUPER }
    else if spells(text, "this") { TokenType::THIS }
    else if spells(text, "var") { TokenType::VAR }
    else if spells(text, "while") { TokenType::WHILE }
    else { TokenType::IDENTIFIER }
}

/// A token sequence as the scanner hands it over: each token's id is its
/// position, and only the last token is `EOF`.
pub open spec fn tokens_well_formed(tokens: Seq<Token>) -> bool {
    &&& tokens.len() >= 1
    &&& tokens.last().token_type == TokenType::EOF
    &&& forall|i: int| 0 <= i < tokens.len() ==> #[trigger] tokens[i].id == i
    &&& forall|i: int| 0 <= i < tokens.len() - 1 ==> #[trigger] tokens[i].token_type != TokenType::EOF
}

/// The text of a token that stands for itself.
pub open spec fn symbol_of(t: TokenType) -> Option<Seq<char>> {
    match t {
        TokenType::LEFT_PAREN => Some(seq!['(']),
        TokenType::RIGHT_PAREN => Some(seq![')']),
        TokenType::LEFT_BRACE => Some(seq!['{']),
        TokenType::RIGHT_BRACE => Some(seq!['}']),
        TokenType::COMMA => Some(seq![',']),
        TokenType::DOT => Some(seq!['.']),
        TokenType::MINUS => Some(seq!['-']),
        TokenType::PLUS => Some(seq!['+']),
        TokenType::SEMICOLON => Some(seq![';']),
        TokenType::SLASH => Some(seq!['/']),
        TokenType::STAR => Some(seq!['*']),
        TokenType::BANG => Some(seq!['!']),
        TokenType::BANG_EQUAL => Some(seq!['!', '=']),
        TokenType::EQUAL => Some(seq!['=']),
        TokenType::EQUAL_EQUAL => Some(seq!['=', '=']),
        TokenType::GREATER => Some(seq!['>']),
        TokenType::GREATER_EQUAL => Some(seq!['>', '=']),
        TokenType::LESS => Some(seq!['<']),
        TokenType::LESS_EQUAL => Some(seq!['<', '=']),
        _ => None,
    }
}

/// A letter or `_`, then letters, digits and `_`.
pub open spec fn is_word(text: Seq<char>) -> bool {
    &&& text.len() > 0
    &&& is_alpha_char(text[0])
    &&& forall|k: int| 0 <= k < text.len() ==> is_alpha_char(#[trigger] text[k]) || is_digit_char(text[k])
}

/// Digits, with dots only between digits.
pub open spec fn is_number_text(text: Seq<char>) -> bool {
    &&& text.len() > 0
    &&& is_digit_char(text[0])
    &&& is_digit_char(text.last())
    &&& forall|k: int| 0 <= k < text.len() ==> is_digit_char(#[trigger] text[k]) || text[k] == '.'
}

/// A token of type `t` with text `text` and literal `literal` agrees with
/// the lexical rules: symbols spell themselves, reserved words have their
/// own type, other words are identifiers, and number and string literals
/// carry their value's text.
pub open spec fn lexically_sound(t: TokenType, text: Seq<char>, literal: Option<Literals>) -> bool {
    match symbol_of(t) {
        Some(sym) => text == sym && literal is None,
        None => match t {
            TokenType::IDENTIFIER => literal is None && is_word(text) && keyword_of(text) is None,
            TokenType::NUMBER => (literal matches Some(Literals::NUMBER(n)) && n@ == text)
                && is_number_text(text),
            TokenType::STRING => literal matches Some(Literals::STRING(v)) && text == seq!['"'] + v@
                + seq!['"'],
            TokenType::EOF => false,
            _ => literal is None && is_word(text) && keyword_of(text) == Some(t),
        },
    }
}

/// Every token but the last agrees with the lexical rules.
pub open spec fn tokens_sound(tokens: Seq<Token>) -> bool {
    forall|i: int|
        0 <= i < tokens.len() - 1 ==> lexically_sound(
            #[trigger] tokens[i].token_type,
            tokens[i].lexeme@,
            tokens[i].literal,
        )
}

/// Turns source text into tokens.
pub struct Scanner<'a> {
    source: &'a String,
    len: usize,
    tokens: Vec<Token>,
    errors: Vec<String>,
    start: usize,
    current: usize,
    line: u64,
}

impl<'a> Scanner<'a> {
    pub closed spec fn wf(&self) -> bool {
        &&& self.len == self.source@.len()
        &&& self.start <= self.current <= self.len
        &&& 1 <= self.line <= self.current + 1
        &&& self.len < u64::MAX
        &&& self.len < usize::MAX
        &&& self.tokens@.len() <= self.current
        &&& forall|i: int| 0 <= i < self.tokens@.len() ==> #[trigger] self.tokens@[i].id == i
        &&& forall|i: int|
            0 <= i < self.tokens@.len() ==> #[trigger] self.tokens@[i].token_type
                != TokenType::EOF
        &&& forall|i: int| 0 <= i < self.tokens@.len() ==> 1 <= #[trigger] self.tokens@[i].line <= self.line
        &&& forall|i: int, j: int|
            0 <= i <= j < self.tokens@.len() ==> #[trigger] self.tokens@[i].line <= #[trigger] self.tokens@[j].line
        &&& forall|i: int|
            0 <= i < self.tokens@.len() ==> lexically_sound(
                #[trigger] self.tokens@[i].token_type,
                self.tokens@[i].lexeme@,
                self.tokens@[i].literal,
            )
    }

    /// A scanner that has not consumed anything yet.
    pub closed spec fn fresh(&self) -> bool {
        &&& self.wf()
        &&& self.current == 0
        &&& self.tokens@.len() == 0
    }

    pub fn new(source: &'a String) -> (r: Scanner<'a>)
        requires
            source@.len() < u64::MAX,
            source@.len() < usize::MAX,
        ensures
            r.fresh(),
    {
        let len = source.as_str().unicode_len();
        Scanner { source, len, tokens: Vec::new(), errors: Vec::new(), start: 0, current: 0, line: 1 }
    }

    /// Scans the whole source. The result is well formed in the sense of
    /// `tokens_well_formed`; characters that start no token are reported
    /// in `errors` and skipped.
    pub fn scan_tokens(&mut self) -> (r: &Vec<Token>)
        requires
            old(self).fresh(),
        ensures
            tokens_well_formed(r@),
            tokens_sound(r@),
            r@.last().lexeme@ == Seq::<char>::empty(),
            forall|i: int| 0 <= i < r@.len() ==> #[trigger] r@[i].line >= 1,
            forall|i: int, j: int| 0 <= i <= j < r@.len() ==> #[trigger] r@[i].line <= #[trigger] r@[j].line,
    {
        while !self.is_at_end()
            invariant
                self.wf(),
            decreases self.len - self.current,
        {
            self.start = self.current;
            self.scan_token();
        }
        let eof = Token::new(self.tokens.len(), TokenType::EOF, String::new(), None, self.line);
        self.tokens.push(eof);
        &self.tokens
    }

    /// The error reports gathered while scanning, in source order.
    pub fn errors(&self) -> &Vec<String> {
        &self.errors
    }

    fn is_at_end(&self) -> (r: bool)
        ensures
            r == (self.current >= self.len),
    {
        self.current >= self.len
    }

    fn scan_token(&mut self)
        requires
            old(self).wf(),
            old(self).current < old(self).len,
            old(self).start == old(self).current,
            old(self).tokens@.len() <= old(self).start,
        ensures
            final(self).len == old(self).len,
            final(self).source == old(self).source,
            final(self).wf(),
            final(self).current > old(self).current,
    {
        let c: char = self.advance();
        proof {
            assert(self.source@.subrange(self.start as int, self.current as int) =~= seq![c]);
        }
        match c {
            '(' => self.add_token(TokenType::LEFT_PAREN, None),
            ')' => self.add_token(TokenType::RIGHT_PAREN, None),
            '{' => self.add_token(TokenType::LEFT_BRACE, None),
            '}' => self.add_token(TokenType::RIGHT_BRACE, None),
            ',' => self.add_token(TokenType::COMMA, None),
            '.' => self.add_token(TokenType::DOT, None),
            '-' => self.add_token(TokenType::MINUS, None),
            '+' => self.add_token(TokenType::PLUS, None),
            ';' => self.add_token(TokenType::SEMICOLON, None),
            '*' => self.add_token(TokenType::STAR, None),
            '!' => {
                if self.is_match('=') {
                    proof {
                        assert(self.source@.subrange(self.start as int, self.current as int) =~= seq![
                            c,
                            '=',
                        ]);
                    }
                    self.add_token(TokenType::BANG_EQUAL, None);
                } else {
                    self.add_token(TokenType::BANG, None);
                }
            },
            '=' => {
                if self.is_match('=') {
                    proof {
                        assert(self.source@.subrange(self.start as int, self.current as int) =~= seq![
                            c,
                            '=',
                        ]);
                    }
                    self.add_token(TokenType::EQUAL_EQUAL, None);
                } else {
                    self.add_token(TokenType::EQUAL, None);
                }
            },
            '<' => {
                if self.is_match('=') {
                    proof {
                        assert(self.source@.subrange(self.start as int, self.current as int) =~= seq![
                            c,
                            '=',
                        ]);
                    }
                    self.add_token(TokenType::LESS_EQUAL, None);
                } else {
                    self.add_token(TokenType::LESS, None);
                }
            },
            '>' => {
                if self.is_match('=') {
                    proof {
                        assert(self.source@.subrange(self.start as int, self.current as int) =~= seq![
                            c,
                            '=',
                        ]);
                    }
                    self.add_token(TokenType::GREATER_EQUAL, None);
                } else {
                    self.add_token(TokenType::GREATER, None);
                }
            },
            '/' => {
                if self.is_match('/') {
                    while self.peek() != '\n' && !self.is_at_end()
                        invariant
                            self.wf(),
                            self.current > old(self).current,
                            self.len == old(self).len,
                            self.source == old(self).source,
                        decreases self.len - self.current,
                    {
                        self.advance();
                    }
                } else {
                    self.add_token(TokenType::SLASH, None);
                }
            },
            ' ' | '\r' | '\t' => {},
            '\n' => {
                self.line = self.line + 1;
            },
            '"' => self.string(),
            _ => {
                if self.is_digit(c) {
                    self.number();
                } else if self.is_alpha(c) {
                    self.identifier();
                } else {
                    let report = error(self.line, "Unexpected character.");
                    self.errors.push(report);
                }
            },
        }
    }

    fn advance(&mut self) -> (c: char)
        requires
            old(self).wf(),
            old(self).current < old(self).len,
        ensures
            final(self).wf(),
            final(self).current == old(self).current + 1,
            final(self).start == old(self).start,
            final(self).line == old(self).line,
            final(self).tokens == old(self).tokens,
            final(self).source == old(self).source,
            c == old(self).source@[old(self).current as int],
    {
        let c = self.get_char(self.current);
        self.current = self.current + 1;
        c
    }

    fn add_token(&mut self, token_type: TokenType, literal: Option<Literals>)
        requires
            old(self).wf(),
            old(self).start < old(self).current,
            token_type != TokenType::EOF,
            old(self).tokens@.len() <= old(self).start,
            lexically_sound(
                token_type,
                old(self).source@.subrange(old(self).start as int, old(self).current as int),
                literal,
            ),
        ensures
            final(self).len == old(self).len,
            final(self).source == old(self).source,
            final(self).wf(),
            final(self).current == old(self).current,
            final(self).start == old(self).start,
    {
        let text: String = self.get_substr(self.start, self.current);
        let id = self.tokens.len();
        self.tokens.push(Token::new(id, token_type, text, literal, self.line));
    }

    fn is_match(&mut self, expected: char) -> (r: bool)
        requires
            old(self).wf(),
        ensures
            final(self).len == old(self).len,
            final(self).source == old(self).source,
            final(self).wf(),
            final(self).start == old(self).start,
            final(self).tokens == old(self).tokens,
            final(self).current == old(self).current + (if r { 1int } else { 0int }),
            r ==> old(self).current < old(self).len && old(self).source@[old(self).current as int] == expected,
    {
        if self.is_at_end() {
            return false;
        }
        if self.get_char(self.current) != expected {
            return false;
        }
        self.current = self.current + 1;
        true
    }

    fn is_digit(&self, c: char) -> (r: bool)
        ensures
            r == is_digit_char(c),
    {
        '0' <= c && c <= '9'
    }

    fn is_alpha(&self, c: char) -> (r: bool)
        ensures
            r == is_alpha_char(c),
    {
        ('a' <= c && c <= 'z') || ('A' <= c && c <= 'Z') || c == '_'
    }

    fn is_alphanumeric(&self, c: char) -> (r: bool)
        ensures
            r == (is_alpha_char(c) || is_digit_char(c)),
    {
        self.is_alpha(c) || self.is_digit(c)
    }

    fn identifier(&mut self)
        requires
            old(self).wf(),
            old(self).current == old(self).start + 1,
            is_alpha_char(old(self).source@[old(self).start as int]),
            old(self).tokens@.len() <= old(self).start,
        ensures
            final(self).len == old(self).len,
            final(self).source == old(self).source,
            final(self).wf(),
            final(self).current >= old(self).current,
    {
        while self.is_alphanumeric(self.peek())
            invariant
                self.wf(),
                self.start < self.current,
                self.current >= old(self).current,
                self.start == old(self).start,
                self.tokens == old(self).tokens,
                self.len == old(self).len,
                self.source == old(self).source,
                forall|k: int|
                    self.start <= k < self.current ==> is_alpha_char(#[trigger] self.source@[k])
                        || is_digit_char(self.source@[k]),
            decreases self.len - self.current,
        {
            self.advance();
        }
        let text = self.get_substr(self.start, self.current);
        let token_type = keyword(&text);
        proof {
            let t = self.source@.subrange(self.start as int, self.current as int);
            assert(t == text@);
            assert(is_word(t));
        }
        self.add_token(token_type, None);
    }

    fn peek(&self) -> (c: char)
        requires
            self.wf(),
        ensures
            self.current < self.len ==> c == self.source@[self.current as int],
            self.current >= self.len ==> c == '\0',
    {
        if self.is_at_end() {
            return '\0';
        }
        self.get_char(self.current)
    }

    fn peek_next(&self) -> (c: char)
        requires
            self.wf(),
        ensures
            self.current + 1 < self.len ==> c == self.source@[self.current + 1],
            self.current + 1 >= self.len ==> c == '\0',
    {
        if self.current + 1 >= self.len {
            return '\0';
        }
        self.get_char(self.current + 1)
    }

    fn string(&mut self)
        requires
            old(self).wf(),
            old(self).current == old(self).start + 1,
            old(self).source@[old(self).start as int] == '"',
            old(self).tokens@.len() <= old(self).start,
        ensures
            final(self).len == old(self).len,
            final(self).source == old(self).source,
            final(self).wf(),
            final(self).current >= old(self).current,
    {
        while self.peek() != '"' && !self.is_at_end()
            invariant
                self.wf(),
                self.start < self.current,
                self.current >= old(self).current,
                self.start == old(self).start,
                self.tokens == old(self).tokens,
                self.len == old(self).len,
                self.source == old(self).source,
            decreases self.len - self.current,
        {
            let c = self.advance();
            if c == '\n' {
                self.line = self.line + 1;
            }
        }
        if self.is_at_end() {
            let report = error(self.line, "Unterminated string.");
            self.errors.push(report);
            return;
        }
        self.advance();
        let content = self.get_substr(self.start + 1, self.current - 1);
        proof {
            assert(self.source@.subrange(self.start as int, self.current as int) =~= seq!['"']
                + content@ + seq!['"']);
        }
        self.add_token(TokenType::STRING, Some(Literals::STRING(content)));
    }

    fn get_char(&self, position: usize) -> (c: char)
        requires
            self.wf(),
            position < self.len,
        ensures
            c == self.source@[position as int],
    {
        self.source.as_str().get_char(position)
    }

    fn get_substr(&self, start: usize, end: usize) -> (r: String)
        requires
            self.wf(),
            start <= end <= self.len,
        ensures
            r@ == self.source@.subrange(start as int, end as int),
    {
        String::from_str(self.source.as_str().substring_char(start, end))
    }

    fn number(&mut self)
        requires
            old(self).wf(),
            old(self).current == old(self).start + 1,
            is_digit_char(old(self).source@[old(self).start as int]),
            old(self).tokens@.len() <= old(self).start,
        ensures
            final(self).len == old(self).len,
            final(self).source == old(self).source,
            final(self).wf(),
            final(self).current >= old(self).current,
    {
        while self.is_digit(self.peek())
            invariant
                self.wf(),
                self.start < self.current,
                self.current >= old(self).current,
                self.start == old(self).start,
                self.tokens == old(self).tokens,
                self.len == old(self).len,
                self.source == old(self).source,
                is_digit_char(self.source@[self.current - 1]),
                forall|k: int|
                    self.start <= k < self.current ==> is_digit_char(#[trigger] self.source@[k])
                        || self.source@[k] == '.',
            decreases self.len - self.current,
        {
            self.advance();
        }
        if self.peek() == '.' && self.is_digit(self.peek_next()) {
            self.advance();
            self.advance();
            while self.is_digit(self.peek())
                invariant
                    self.wf(),
                    self.start < self.current,
                    self.current >= old(self).current,
                    self.start == old(self).start,
                    self.tokens == old(self).tokens,
                    self.len == old(self).len,
                    self.source == old(self).source,
                    is_digit_char(self.source@[self.current - 1]),
                    forall|k: int|
                        self.start <= k < self.current ==> is_digit_char(#[trigger] self.source@[k])
                            || self.source@[k] == '.',
                decreases self.len - self.current,
            {
                self.advance();
            }
        }
        let text = self.get_substr(self.start, self.current);
        proof {
            let t = self.source@.subrange(self.start as int, self.current as int);
            assert(t == text@);
            assert(is_number_text(t));
        }
        self.add_token(TokenType::NUMBER, Some(Literals::NUMBER(text)));
    }
}

} // verus!
