use vstd::prelude::*;
use std::rc::Rc;
use crate::error::parse_error;
use crate::expr::{Assign, Binary, Call, Expr, Get, Grouping, Literal, Logical, SetProperty, Unary, Variable};
use crate::scanner::tokens_well_formed;
use crate::stmt::{Block, Class, Expression, Function, If, Print, Return, Stmt, Var, While};
use crate::token::{Literals, Token, TokenType};

verus! {

/// Recursive-descent parser from tokens to statements.
pub struct Parser<'a> {
    tokens: &'a Vec<Token>,
    current: usize,
}

/// The most parameters a function declares, and the most arguments a call passes.
pub const MAX_ARITY: usize = 8;

impl<'a> Parser<'a> {
    pub closed spec fn wf(&self) -> bool {
        &&& tokens_well_formed(self.tokens@)
        &&& self.current < self.tokens@.len()
    }

    /// How many tokens are left, the end marker included.
    pub closed spec fn remaining(&self) -> nat {
        (self.tokens@.len() - self.current) as nat
    }

    /// `self` reads the same tokens as `old`, no earlier than `old`.
    pub closed spec fn moved_from(&self, old: &Parser<'a>) -> bool {
        &&& self.wf()
        &&& self.tokens == old.tokens
        &&& self.current >= old.current
    }

    pub fn new(tokens: &'a Vec<Token>) -> (r: Parser<'a>)
        requires
            tokens_well_formed(tokens@),
        ensures
            r.wf(),
            r.remaining() == tokens@.len(),
    {
        Parser { tokens, current: 0 }
    }

    /// Parses the whole token sequence. On errors, parsing resumes at the
    /// next statement boundary, and the reports of all errors, one per
    /// line, are returned instead.
    pub fn parse(&mut self) -> (r: Result<Vec<Stmt>, String>)
        requires
            old(self).wf(),
        ensures
            final(self).moved_from(old(self)),
    {
        let mut statements: Vec<Stmt> = Vec::new();
        let mut reports: Vec<String> = Vec::new();
        while !self.is_at_end()
            invariant
                self.moved_from(old(self)),
            decreases self.remaining(),
        {
            match self.declaration() {
                Ok(s) => statements.push(s),
                Err(report) => {
                    reports.push(report);
                    self.synchronize();
                },
            }
        }
        if reports.len() == 0 {
            Ok(statements)
        } else {
            let mut text = String::new();
            let mut i: usize = 0;
            while i < reports.len()
                invariant
                    i <= reports@.len(),
                decreases reports@.len() - i,
            {
                if i > 0 {
                    text.append("\n");
                }
                text.append(reports[i].as_str());
                i = i + 1;
            }
            Err(text)
        }
    }

    fn declaration(&mut self) -> (r: Result<Stmt, String>)
        requires
            old(self).wf(),
        ensures
            final(self).moved_from(old(self)),
            r is Ok ==> final(self).current > old(self).current,
        decreases old(self).remaining(), 30nat,
    {
        if self.match_token(vec![TokenType::CLASS]) {
            return self.class_declaration();
        }
        if self.match_token(vec![TokenType::FUN]) {
            return match self.function("function") {
                Ok(f) => Ok(Stmt::Function(Rc::new(f))),
                Err(e) => Err(e),
            };
        }
        if self.match_token(vec![TokenType::VAR]) {
            return self.var_declaration();
        }
        self.statement()
    }

    fn class_declaration(&mut self) -> (r: Result<Stmt, String>)
        requires
            old(self).wf(),
        ensures
            final(self).moved_from(old(self)),
            r is Ok ==> final(self).current > old(self).current,
        decreases old(self).remaining(), 40nat,
    {
        let name = self.consume(TokenType::IDENTIFIER, "Expect class name.")?;
        self.consume(TokenType::LEFT_BRACE, "Expect '{' before class body.")?;
        let mut methods: Vec<Rc<Function>> = Vec::new();
        while !self.check(TokenType::RIGHT_BRACE) && !self.is_at_end()
            invariant
                self.moved_from(old(self)),
                self.current > old(self).current,
            decreases self.remaining(),
        {
            let method = self.function("method")?;
            methods.push(Rc::new(method));
        }
        self.consume(TokenType::RIGHT_BRACE, "Expect '}' after class body.")?;
        Ok(Class::new(name, methods))
    }

    fn function(&mut self, kind: &str) -> (r: Result<Function, String>)
        requires
            old(self).wf(),
        ensures
            final(self).moved_from(old(self)),
            r is Ok ==> final(self).current > old(self).current,
        decreases old(self).remaining(), 40nat,
    {
        let mut message = String::from_str("Expect ");
        message.append(kind);
        message.append(" name.");
        let name = self.consume(TokenType::IDENTIFIER, message.as_str())?;
        let mut message = String::from_str("Expect '(' after ");
        message.append(kind);
        message.append(" name.");
        self.consume(TokenType::LEFT_PAREN, message.as_str())?;
        let mut parameters: Vec<Token> = Vec::new();
        if !self.check(TokenType::RIGHT_PAREN) {
            loop
                invariant
                    self.moved_from(old(self)),
                    self.current > old(self).current,
                decreases self.remaining(),
            {
                if parameters.len() >= MAX_ARITY {
                    return Err(self.error(self.peek(), "Cannot have more than 8 parameters."));
                }
                let parameter = self.consume(TokenType::IDENTIFIER, "Expect parameter name.")?;
                parameters.push(parameter);
                if !self.match_token(vec![TokenType::COMMA]) {
                    break;
                }
            }
        }
        self.consume(TokenType::RIGHT_PAREN, "Expect ')' after parameters.")?;
        let mut message = String::from_str("Expect '{' before ");
        message.append(kind);
        message.append(" body.");
        self.consume(TokenType::LEFT_BRACE, message.as_str())?;
        let body = self.block()?;
        Ok(Function { name, params: parameters, body })
    }

    fn var_declaration(&mut self) -> (r: Result<Stmt, String>)
        requires
            old(self).wf(),
        ensures
            final(self).moved_from(old(self)),
            r is Ok ==> final(self).current > old(self).current,
        decreases old(self).remaining(), 40nat,
    {
        let name = self.consume(TokenType::IDENTIFIER, "Expect variable name.")?;
        let initializer = if self.match_token(vec![TokenType::EQUAL]) {
            self.expression()?
        } else {
            Literal::new(Literals::NIL)
        };
        self.consume(TokenType::SEMICOLON, "Expect ';' after variable declaration.")?;
        Ok(Var::new(name, initializer))
    }

    fn statement(&mut self) -> (r: Result<Stmt, String>)
        requires
            old(self).wf(),
        ensures
            final(self).moved_from(old(self)),
            r is Ok ==> final(self).current > old(self).current,
        decreases old(self).remaining(), 29nat,
    {
        if self.match_token(vec![TokenType::FOR]) {
            return self.for_statement();
        }
        if self.match_token(vec![TokenType::IF]) {
            return self.if_statement();
        }
        if self.match_token(vec![TokenType::PRINT]) {
            return self.print_statement();
        }
        if self.match_token(vec![TokenType::RETURN]) {
            return self.return_statement();
        }
        if self.match_token(vec![TokenType::WHILE]) {
            return self.while_statement();
        }
        if self.match_token(vec![TokenType::LEFT_BRACE]) {
            let statements = self.block()?;
            return Ok(Block::new(statements));
        }
        self.expression_statement()
    }

    /// A `for` loop, turned into a `while` loop in blocks.
    fn for_statement(&mut self) -> (r: Result<Stmt, String>)
        requires
            old(self).wf(),
            old(self).current > 0,
        ensures
            final(self).moved_from(old(self)),
            r is Ok ==> final(self).current > old(self).current,
        decreases old(self).remaining(), 40nat,
    {
        let token = self.previous();
        self.consume(TokenType::LEFT_PAREN, "Expect '(' after 'for'.")?;
        let initializer = if self.match_token(vec![TokenType::SEMICOLON]) {
            None
        } else if self.match_token(vec![TokenType::VAR]) {
            Some(self.var_declaration()?)
        } else {
            Some(self.expression_statement()?)
        };
        let condition = if !self.check(TokenType::SEMICOLON) {
            self.expression()?
        } else {
            Literal::new(Literals::BOOL(true))
        };
        self.consume(TokenType::SEMICOLON, "Expect ';' after loop condition.")?;
        let increment = if !self.check(TokenType::RIGHT_PAREN) {
            Some(self.expression()?)
        } else {
            None
        };
        self.consume(TokenType::RIGHT_PAREN, "Expect ')' after for clauses.")?;
        let mut body = self.statement()?;
        match increment {
            Some(inc) => {
                body = Block::new(vec![body, Expression::new(inc)]);
            },
            None => {},
        }
        body = While::new(token, condition, body);
        match initializer {
            Some(init) => {
                body = Block::new(vec![init, body]);
            },
            None => {},
        }
        Ok(body)
    }

    fn if_statement(&mut self) -> (r: Result<Stmt, String>)
        requires
            old(self).wf(),
            old(self).current > 0,
        ensures
            final(self).moved_from(old(self)),
            r is Ok ==> final(self).current > old(self).current,
        decreases old(self).remaining(), 40nat,
    {
        let token = self.previous();
        self.consume(TokenType::LEFT_PAREN, "Expect '(' after 'if'.")?;
        let condition = self.expression()?;
        self.consume(TokenType::RIGHT_PAREN, "Expect ')' after if condition.")?;
        let then_branch = self.statement()?;
        let else_branch = if self.match_token(vec![TokenType::ELSE]) {
            Some(self.statement()?)
        } else {
            None
        };
        Ok(If::new(token, condition, then_branch, else_branch))
    }

    fn print_statement(&mut self) -> (r: Result<Stmt, String>)
        requires
            old(self).wf(),
        ensures
            final(self).moved_from(old(self)),
            r is Ok ==> final(self).current > old(self).current,
        decreases old(self).remaining(), 40nat,
    {
        let value = self.expression()?;
        self.consume(TokenType::SEMICOLON, "Expect ';' after value.")?;
        Ok(Print::new(value))
    }

    fn return_statement(&mut self) -> (r: Result<Stmt, String>)
        requires
            old(self).wf(),
            old(self).current > 0,
        ensures
            final(self).moved_from(old(self)),
            r is Ok ==> final(self).current > old(self).current,
        decreases old(self).remaining(), 40nat,
    {
        let keyword = self.previous();
        let value = if !self.check(TokenType::SEMICOLON) {
            self.expression()?
        } else {
            Literal::new(Literals::NIL)
        };
        self.consume(TokenType::SEMICOLON, "Expect ';' after return value.")?;
        Ok(Return::new(keyword, value))
    }

    fn while_statement(&mut self) -> (r: Result<Stmt, String>)
        requires
            old(self).wf(),
            old(self).current > 0,
        ensures
            final(self).moved_from(old(self)),
            r is Ok ==> final(self).current > old(self).current,
        decreases old(self).remaining(), 40nat,
    {
        let token = self.previous();
        self.consume(TokenType::LEFT_PAREN, "Expect '(' after 'while'.")?;
        let condition = self.expression()?;
        self.consume(TokenType::RIGHT_PAREN, "Expect ')' after condition.")?;
        let body = self.statement()?;
        Ok(While::new(token, condition, body))
    }

    fn expression_statement(&mut self) -> (r: Result<Stmt, String>)
        requires
            old(self).wf(),
        ensures
            final(self).moved_from(old(self)),
            r is Ok ==> final(self).current > old(self).current,
        decreases old(self).remaining(), 28nat,
    {
        let expr = self.expression()?;
        self.consume(TokenType::SEMICOLON, "Expect ';' after expression.")?;
        Ok(Expression::new(expr))
    }

    /// The statements of a block whose `{` was just consumed, through its `}`.
    fn block(&mut self) -> (r: Result<Vec<Stmt>, String>)
        requires
            old(self).wf(),
        ensures
            final(self).moved_from(old(self)),
            r is Ok ==> final(self).current > old(self).current,
        decreases old(self).remaining(), 31nat,
    {
        let mut statements: Vec<Stmt> = Vec::new();
        while !self.check(TokenType::RIGHT_BRACE) && !self.is_at_end()
            invariant
                self.moved_from(old(self)),
            decreases self.remaining(),
        {
            let s = self.declaration()?;
            statements.push(s);
        }
        self.consume(TokenType::RIGHT_BRACE, "Expect '}' after block.")?;
        Ok(statements)
    }

    fn expression(&mut self) -> (r: Result<Expr, String>)
        requires
            old(self).wf(),
        ensures
            final(self).moved_from(old(self)),
            r is Ok ==> final(self).current > old(self).current,
        decreases old(self).remaining(), 27nat,
    {
        self.assignment()
    }

    fn assignment(&mut self) -> (r: Result<Expr, String>)
        requires
            old(self).wf(),
        ensures
            final(self).moved_from(old(self)),
            r is Ok ==> final(self).current > old(self).current,
        decreases old(self).remaining(), 26nat,
    {
        let expr = self.or()?;
        if self.match_token(vec![TokenType::EQUAL]) {
            let equals = self.previous();
            let value = self.assignment()?;
            return match expr {
                Expr::Variable(v) => Ok(Assign::new(v.name, value)),
                Expr::Get(g) => Ok(SetProperty::new(*g.object, g.name, value)),
                _ => Err(self.error(&equals, "Invalid assignment target.")),
            };
        }
        Ok(expr)
    }

    fn or(&mut self) -> (r: Result<Expr, String>)
        requires
            old(self).wf(),
        ensures
            final(self).moved_from(old(self)),
            r is Ok ==> final(self).current > old(self).current,
        decreases old(self).remaining(), 25nat,
    {
        let mut expr = self.and()?;
        while self.match_token(vec![TokenType::OR])
            invariant
                self.moved_from(old(self)),
                self.current > old(self).current,
            decreases self.remaining(),
        {
            let operator = self.previous();
            let right = self.and()?;
            expr = Logical::new(expr, operator, right);
        }
        Ok(expr)
    }

    fn and(&mut self) -> (r: Result<Expr, String>)
        requires
            old(self).wf(),
        ensures
            final(self).moved_from(old(self)),
            r is Ok ==> final(self).current > old(self).current,
        decreases old(self).remaining(), 24nat,
    {
        let mut expr = self.equality()?;
        while self.match_token(vec![TokenType::AND])
            invariant
                self.moved_from(old(self)),
                self.current > old(self).current,
            decreases self.remaining(),
        {
            let operator = self.previous();
            let right = self.equality()?;
            expr = Logical::new(expr, operator, right);
        }
        Ok(expr)
    }

    fn equality(&mut self) -> (r: Result<Expr, String>)
        requires
            old(self).wf(),
        ensures
            final(self).moved_from(old(self)),
            r is Ok ==> final(self).current > old(self).current,
        decreases old(self).remaining(), 23nat,
    {
        let mut expr = self.comparison()?;
        while self.match_token(vec![TokenType::BANG_EQUAL, TokenType::EQUAL_EQUAL])
            invariant
                self.moved_from(old(self)),
                self.current > old(self).current,
            decreases self.remaining(),
        {
            let operator = self.previous();
            let right = self.comparison()?;
            expr = Binary::new(expr, operator, right);
        }
        Ok(expr)
    }

    fn comparison(&mut self) -> (r: Result<Expr, String>)
        requires
            old(self).wf(),
        ensures
            final(self).moved_from(old(self)),
            r is Ok ==> final(self).current > old(self).current,
        decreases old(self).remaining(), 22nat,
    {
        let mut expr = self.addition()?;
        while self.match_token(
            vec![TokenType::GREATER, TokenType::GREATER_EQUAL, TokenType::LESS, TokenType::LESS_EQUAL],
        )
            invariant
                self.moved_from(old(self)),
                self.current > old(self).current,
            decreases self.remaining(),
        {
            let operator = self.previous();
            let right = self.addition()?;
            expr = Binary::new(expr, operator, right);
        }
        Ok(expr)
    }

    fn addition(&mut self) -> (r: Result<Expr, String>)
        requires
            old(self).wf(),
        ensures
            final(self).moved_from(old(self)),
            r is Ok ==> final(self).current > old(self).current,
        decreases old(self).remaining(), 21nat,
    {
        let mut expr = self.multiplication()?;
        while self.match_token(vec![TokenType::MINUS, TokenType::PLUS])
            invariant
                self.moved_from(old(self)),
                self.current > old(self).current,
            decreases self.remaining(),
        {
            let operator = self.previous();
            let right = self.multiplication()?;
            expr = Binary::new(expr, operator, right);
        }
        Ok(expr)
    }

    fn multiplication(&mut self) -> (r: Result<Expr, String>)
        requires
            old(self).wf(),
        ensures
            final(self).moved_from(old(self)),
            r is Ok ==> final(self).current > old(self).current,
        decreases old(self).remaining(), 20nat,
    {
        let mut expr = self.unary()?;
        while self.match_token(vec![TokenType::SLASH, TokenType::STAR])
            invariant
                self.moved_from(old(self)),
                self.current > old(self).current,
            decreases self.remaining(),
        {
            let operator = self.previous();
            let right = self.unary()?;
            expr = Binary::new(expr, operator, right);
        }
        Ok(expr)
    }

    fn unary(&mut self) -> (r: Result<Expr, String>)
        requires
            old(self).wf(),
        ensures
            final(self).moved_from(old(self)),
            r is Ok ==> final(self).current > old(self).current,
        decreases old(self).remaining(), 19nat,
    {
        if self.match_token(vec![TokenType::BANG, TokenType::MINUS]) {
            let operator = self.previous();
            let right = self.unary()?;
            return Ok(Unary::new(operator, right));
        }
        self.call()
    }

    fn call(&mut self) -> (r: Result<Expr, String>)
        requires
            old(self).wf(),
        ensures
            final(self).moved_from(old(self)),
            r is Ok ==> final(self).current > old(self).current,
        decreases old(self).remaining(), 18nat,
    {
        let mut expr = self.primary()?;
        loop
            invariant
                self.moved_from(old(self)),
                self.current > old(self).current,
            decreases self.remaining(),
        {
            if self.match_token(vec![TokenType::LEFT_PAREN]) {
                expr = self.finish_call(expr)?;
            } else if self.match_token(vec![TokenType::DOT]) {
                let name = self.consume(TokenType::IDENTIFIER, "Expect property name after '.'.")?;
                expr = Get::new(expr, name);
            } else {
                break;
            }
        }
        Ok(expr)
    }

    /// The arguments and `)` of a call whose `(` was just consumed.
    fn finish_call(&mut self, callee: Expr) -> (r: Result<Expr, String>)
        requires
            old(self).wf(),
        ensures
            final(self).moved_from(old(self)),
            r is Ok ==> final(self).current > old(self).current,
        decreases old(self).remaining(), 32nat,
    {
        let mut arguments: Vec<Expr> = Vec::new();
        if !self.check(TokenType::RIGHT_PAREN) {
            loop
                invariant
                    self.moved_from(old(self)),
                decreases self.remaining(),
            {
                if arguments.len() >= MAX_ARITY {
                    return Err(self.error(self.peek(), "Cannot have more than 8 arguments."));
                }
                let argument = self.expression()?;
                arguments.push(argument);
                if !self.match_token(vec![TokenType::COMMA]) {
                    break;
                }
            }
        }
        let paren = self.consume(TokenType::RIGHT_PAREN, "Expect ')' after arguments.")?;
        Ok(Call::new(callee, paren, arguments))
    }

    fn primary(&mut self) -> (r: Result<Expr, String>)
        requires
            old(self).wf(),
        ensures
            final(self).moved_from(old(self)),
            r is Ok ==> final(self).current > old(self).current,
        decreases old(self).remaining(), 17nat,
    {
        if self.match_token(vec![TokenType::FALSE]) {
            return Ok(Literal::new(Literals::BOOL(false)));
        }
        if self.match_token(vec![TokenType::TRUE]) {
            return Ok(Literal::new(Literals::BOOL(true)));
        }
        if self.match_token(vec![TokenType::NIL]) {
            return Ok(Literal::new(Literals::NIL));
        }
        if self.match_token(vec![TokenType::NUMBER, TokenType::STRING]) {
            let token = self.previous();
            return match token.literal {
                Some(literal) => Ok(Literal::new(literal)),
                None => Err(self.error(&token, "Expect expression.")),
            };
        }
        if self.match_token(vec![TokenType::LEFT_PAREN]) {
            let expr = self.expression()?;
            self.consume(TokenType::RIGHT_PAREN, "Expect ')' after expression.")?;
            return Ok(Grouping::new(expr));
        }
        if self.match_token(vec![TokenType::IDENTIFIER]) {
            return Ok(Variable::new(self.previous()));
        }
        if self.match_token(vec![TokenType::THIS]) {
            return Ok(crate::expr::This::new(self.previous()));
        }
        Err(self.error(self.peek(), "Expect expression."))
    }

    /// Consumes the next token if its type is one of `types`.
    fn match_token(&mut self, types: Vec<TokenType>) -> (r: bool)
        requires
            old(self).wf(),
        ensures
            final(self).moved_from(old(self)),
            r ==> final(self).current == old(self).current + 1,
            !r ==> final(self).current == old(self).current,
    {
        let mut i: usize = 0;
        while i < types.len()
            invariant
                *self == *old(self),
                self.wf(),
            decreases types@.len() - i,
        {
            if self.check(types[i]) {
                self.advance();
                return true;
            }
            i = i + 1;
        }
        false
    }

    fn check(&self, token_type: TokenType) -> (r: bool)
        requires
            self.wf(),
        ensures
            r == (self.current + 1 < self.tokens@.len() && self.tokens@[self.current as int].token_type
                == token_type),
    {
        if self.is_at_end() {
            return false;
        }
        self.peek().token_type == token_type
    }

    fn advance(&mut self) -> (r: Token)
        requires
            old(self).wf(),
        ensures
            final(self).moved_from(old(self)),
            old(self).current + 1 < old(self).tokens@.len() ==> final(self).current == old(self).current + 1,
            old(self).current + 1 >= old(self).tokens@.len() ==> final(self).current == old(self).current,
            r == old(self).tokens@[old(self).current as int],
    {
        if self.current < self.tokens.len() - 1 {
            self.current = self.current + 1;
            self.peek_at(self.current - 1)
        } else {
            self.peek_at(self.current)
        }
    }

    fn is_at_end(&self) -> (r: bool)
        requires
            self.wf(),
        ensures
            r == (self.current + 1 >= self.tokens@.len()),
    {
        proof {
            let t = self.tokens@;
            if self.current + 1 < t.len() {
                assert(t[self.current as int].token_type != TokenType::EOF);
            }
        }
        match self.peek().token_type {
            TokenType::EOF => true,
            _ => false,
        }
    }

    fn peek(&self) -> (r: &Token)
        requires
            self.wf(),
        ensures
            *r == self.tokens@[self.current as int],
    {
        &self.tokens[self.current]
    }

    fn peek_at(&self, i: usize) -> (r: Token)
        requires
            self.wf(),
            i < self.tokens@.len(),
        ensures
            r == self.tokens@[i as int],
    {
        self.tokens[i].duplicate()
    }

    /// The token consumed last.
    fn previous(&self) -> (r: Token)
        requires
            self.wf(),
            self.current > 0,
        ensures
            r == self.tokens@[self.current - 1],
    {
        self.peek_at(self.current - 1)
    }

    /// Consumes a token of type `token_type`, or reports `message` at the next token.
    fn consume(&mut self, token_type: TokenType, message: &str) -> (r: Result<Token, String>)
        requires
            old(self).wf(),
        ensures
            final(self).moved_from(old(self)),
            r is Ok ==> final(self).current == old(self).current + 1,
            r matches Ok(t) ==> t.token_type == token_type,
            r is Err ==> final(self).current == old(self).current,
    {
        if self.check(token_type) {
            return Ok(self.advance());
        }
        Err(self.error(self.peek(), message))
    }

    /// The report of `message` at `token`.
    fn error(&self, token: &Token, message: &str) -> (r: String) {
        parse_error(token, message)
    }

    /// Skips tokens to the next likely statement boundary: past a `;`, or
    /// before a keyword that starts a declaration or statement.
    fn synchronize(&mut self)
        requires
            old(self).wf(),
        ensures
            final(self).moved_from(old(self)),
            old(self).current + 1 < old(self).tokens@.len() ==> final(self).current > old(self).current,
    {
        self.advance();
        while !self.is_at_end()
            invariant
                self.moved_from(old(self)),
                self.current > 0 || self.current + 1 >= self.tokens@.len(),
                old(self).current + 1 < old(self).tokens@.len() ==> self.current > old(self).current,
            decreases self.remaining(),
        {
            if self.previous().token_type == TokenType::SEMICOLON {
                return;
            }
            match self.peek().token_type {
                TokenType::CLASS | TokenType::FUN | TokenType::VAR | TokenType::FOR | TokenType::IF
                | TokenType::WHILE | TokenType::PRINT | TokenType::RETURN => {
                    return;
                },
                _ => {},
            }
            self.advance();
        }
    }
}

} // verus!
