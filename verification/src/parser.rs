use vstd::prelude::*;

use crate::token::{Token, TokenKind, TokenV};

verus! {

/// An expression tree. Each node owns its children; literals keep the token
/// that carries their payload, and operators keep their operator token.
#[derive(Debug)]
pub enum Expr {
    Binary(Box<Expr>, Token, Box<Expr>),
    Grouping(Box<Expr>),
    Literal(Token),
    Unary(Token, Box<Expr>),
}

/// The mathematical model of an expression tree.
pub enum ExprV {
    Binary(Box<ExprV>, TokenV, Box<ExprV>),
    Grouping(Box<ExprV>),
    Literal(TokenV),
    Unary(TokenV, Box<ExprV>),
}

pub open spec fn expr_view(e: Expr) -> ExprV
    decreases e,
{
    match e {
        Expr::Binary(l, t, r) => ExprV::Binary(Box::new(expr_view(*l)), t@, Box::new(expr_view(*r))),
        Expr::Grouping(g) => ExprV::Grouping(Box::new(expr_view(*g))),
        Expr::Literal(t) => ExprV::Literal(t@),
        Expr::Unary(t, r) => ExprV::Unary(t@, Box::new(expr_view(*r))),
    }
}

impl View for Expr {
    type V = ExprV;

    open spec fn view(&self) -> ExprV {
        expr_view(*self)
    }
}

/// A parse failure: the source line of the offending token and a message.
#[derive(Debug)]
pub struct ParseError {
    pub line: u64,
    pub message: String,
}

/// The mathematical model of a parse failure.
pub struct ParseErrorV {
    pub line: int,
    pub msg: Seq<char>,
}

impl View for ParseError {
    type V = ParseErrorV;

    open spec fn view(&self) -> ParseErrorV {
        ParseErrorV { line: self.line as int, msg: self.message@ }
    }
}

/// What one grammar rule yields: the parsed tree and the position of the
/// first unconsumed token, or a parse failure.
pub type SpecParsed = Result<(ExprV, int), ParseErrorV>;

pub open spec fn expect_expression_msg() -> Seq<char> {
    "Expect expression."@
}

pub open spec fn expect_right_paren_msg() -> Seq<char> {
    "Expect ')' after expression."@
}

/// How many tokens remain at `pos`; the termination measure of the grammar.
pub open spec fn remaining(toks: Seq<TokenV>, pos: int) -> int {
    if pos <= toks.len() {
        toks.len() - pos
    } else {
        0
    }
}

/// Whether a token kind begins a literal primary.
pub open spec fn is_literal_kind(k: TokenKind) -> bool {
    k == TokenKind::False || k == TokenKind::True || k == TokenKind::Nil || k == TokenKind::Number
        || k == TokenKind::Str
}

/// The grammar, lowest to highest binding power. Each rule is a function
/// from a token sequence and a start position to the tree it derives and the
/// position it stops at. Positions only move forward; the guards that cap a
/// sub-rule's reported position make that evident to the termination checker
/// and are never taken (every rule moves forward on success).
pub open spec fn spec_expression(toks: Seq<TokenV>, pos: int) -> SpecParsed
    decreases remaining(toks, pos), 10int,
{
    spec_equality(toks, pos)
}

pub open spec fn spec_equality(toks: Seq<TokenV>, pos: int) -> SpecParsed
    decreases remaining(toks, pos), 9int,
{
    match spec_comparison(toks, pos) {
        Ok((e, p)) => if pos <= p {
            spec_equality_more(toks, p, e)
        } else {
            spec_equality_more(toks, pos, e)
        },
        Err(pe) => Err(pe),
    }
}

pub open spec fn spec_equality_more(toks: Seq<TokenV>, pos: int, left: ExprV) -> SpecParsed
    decreases remaining(toks, pos), 8int,
{
    if 0 <= pos < toks.len() && (toks[pos].kind == TokenKind::BangEqual || toks[pos].kind
        == TokenKind::EqualEqual) {
        match spec_comparison(toks, pos + 1) {
            Ok((right, p)) => {
                let folded = ExprV::Binary(Box::new(left), toks[pos], Box::new(right));
                if pos < p {
                    spec_equality_more(toks, p, folded)
                } else {
                    spec_equality_more(toks, pos + 1, folded)
                }
            },
            Err(pe) => Err(pe),
        }
    } else {
        Ok((left, pos))
    }
}

pub open spec fn spec_comparison(toks: Seq<TokenV>, pos: int) -> SpecParsed
    decreases remaining(toks, pos), 7int,
{
    match spec_term(toks, pos) {
        Ok((e, p)) => if pos <= p {
            spec_comparison_more(toks, p, e)
        } else {
            spec_comparison_more(toks, pos, e)
        },
        Err(pe) => Err(pe),
    }
}

pub open spec fn spec_comparison_more(toks: Seq<TokenV>, pos: int, left: ExprV) -> SpecParsed
    decreases remaining(toks, pos), 6int,
{
    if 0 <= pos < toks.len() && (toks[pos].kind == TokenKind::Greater || toks[pos].kind
        == TokenKind::GreaterEqual || toks[pos].kind == TokenKind::Less || toks[pos].kind
        == TokenKind::LessEqual) {
        match spec_term(toks, pos + 1) {
            Ok((right, p)) => {
                let folded = ExprV::Binary(Box::new(left), toks[pos], Box::new(right));
                if pos < p {
                    spec_comparison_more(toks, p, folded)
                } else {
                    spec_comparison_more(toks, pos + 1, folded)
                }
            },
            Err(pe) => Err(pe),
        }
    } else {
        Ok((left, pos))
    }
}

pub open spec fn spec_term(toks: Seq<TokenV>, pos: int) -> SpecParsed
    decreases remaining(toks, pos), 5int,
{
    match spec_factor(toks, pos) {
        Ok((e, p)) => if pos <= p {
            spec_term_more(toks, p, e)
        } else {
            spec_term_more(toks, pos, e)
        },
        Err(pe) => Err(pe),
    }
}

pub open spec fn spec_term_more(toks: Seq<TokenV>, pos: int, left: ExprV) -> SpecParsed
    decreases remaining(toks, pos), 4int,
{
    if 0 <= pos < toks.len() && (toks[pos].kind == TokenKind::Minus || toks[pos].kind
        == TokenKind::Plus) {
        match spec_factor(toks, pos + 1) {
            Ok((right, p)) => {
                let folded = ExprV::Binary(Box::new(left), toks[pos], Box::new(right));
                if pos < p {
                    spec_term_more(toks, p, folded)
                } else {
                    spec_term_more(toks, pos + 1, folded)
                }
            },
            Err(pe) => Err(pe),
        }
    } else {
        Ok((left, pos))
    }
}

pub open spec fn spec_factor(toks: Seq<TokenV>, pos: int) -> SpecParsed
    decreases remaining(toks, pos), 3int,
{
    match spec_unary(toks, pos) {
        Ok((e, p)) => if pos <= p {
            spec_factor_more(toks, p, e)
        } else {
            spec_factor_more(toks, pos, e)
        },
        Err(pe) => Err(pe),
    }
}

pub open spec fn spec_factor_more(toks: Seq<TokenV>, pos: int, left: ExprV) -> SpecParsed
    decreases remaining(toks, pos), 2int,
{
    if 0 <= pos < toks.len() && (toks[pos].kind == TokenKind::Star || toks[pos].kind
        == TokenKind::Slash) {
        match spec_unary(toks, pos + 1) {
            Ok((right, p)) => {
                let folded = ExprV::Binary(Box::new(left), toks[pos], Box::new(right));
                if pos < p {
                    spec_factor_more(toks, p, folded)
                } else {
                    spec_factor_more(toks, pos + 1, folded)
                }
            },
            Err(pe) => Err(pe),
        }
    } else {
        Ok((left, pos))
    }
}

pub open spec fn spec_unary(toks: Seq<TokenV>, pos: int) -> SpecParsed
    decreases remaining(toks, pos), 1int,
{
    if 0 <= pos < toks.len() && (toks[pos].kind == TokenKind::Bang || toks[pos].kind
        == TokenKind::Minus) {
        match spec_unary(toks, pos + 1) {
            Ok((right, p)) => Ok((ExprV::Unary(toks[pos], Box::new(right)), p)),
            Err(pe) => Err(pe),
        }
    } else {
        spec_primary(toks, pos)
    }
}

pub open spec fn spec_primary(toks: Seq<TokenV>, pos: int) -> SpecParsed
    decreases remaining(toks, pos), 0int,
{
    if 0 <= pos < toks.len() && is_literal_kind(toks[pos].kind) {
        Ok((ExprV::Literal(toks[pos]), pos + 1))
    } else if 0 <= pos < toks.len() && toks[pos].kind == TokenKind::LeftParen {
        match spec_expression(toks, pos + 1) {
            Ok((inner, p)) => if 0 <= p < toks.len() && toks[p].kind == TokenKind::RightParen {
                Ok((ExprV::Grouping(Box::new(inner)), p + 1))
            } else if 0 <= p < toks.len() {
                Err(ParseErrorV { line: toks[p].line, msg: expect_right_paren_msg() })
            } else {
                Err(ParseErrorV { line: 0, msg: expect_right_paren_msg() })
            },
            Err(pe) => Err(pe),
        }
    } else if 0 <= pos < toks.len() {
        Err(ParseErrorV { line: toks[pos].line, msg: expect_expression_msg() })
    } else {
        Err(ParseErrorV { line: 0, msg: expect_expression_msg() })
    }
}

/// The whole parse: derive one expression from the front of the sequence.
/// Tokens past the expression are left unconsumed, as the recursive descent
/// leaves them for a future statement grammar.
pub open spec fn spec_parse(toks: Seq<TokenV>) -> Option<ExprV> {
    match spec_expression(toks, 0) {
        Ok((e, p)) => Some(e),
        Err(_) => None,
    }
}

/// Keywords that begin a statement; resynchronization stops in front of one.
pub open spec fn is_statement_start(k: TokenKind) -> bool {
    k == TokenKind::Class || k == TokenKind::Fun || k == TokenKind::Var || k == TokenKind::For
        || k == TokenKind::If || k == TokenKind::While || k == TokenKind::Print || k
        == TokenKind::Return
}

/// Where resynchronization stops once it is inside the discarded region:
/// right after a semicolon, in front of a statement keyword, or at
/// end-of-input.
pub open spec fn spec_sync_loop(toks: Seq<TokenV>, pos: int) -> int
    decreases remaining(toks, pos),
{
    if !(1 <= pos < toks.len()) {
        pos
    } else if toks[pos].kind == TokenKind::Eof {
        pos
    } else if toks[pos - 1].kind == TokenKind::Semicolon {
        pos
    } else if is_statement_start(toks[pos].kind) {
        pos
    } else {
        spec_sync_loop(toks, pos + 1)
    }
}

/// Resynchronization: skip the token that could not be parsed, then discard
/// up to the next statement boundary.
pub open spec fn spec_synchronize(toks: Seq<TokenV>, pos: int) -> int {
    if 0 <= pos < toks.len() && toks[pos].kind != TokenKind::Eof {
        spec_sync_loop(toks, pos + 1)
    } else {
        pos
    }
}

/// Whether a rule's executable outcome agrees with the grammar: the same
/// tree ending at `endpos`, or the same failure.
pub open spec fn rule_matches(spec_result: SpecParsed, r: Result<Expr, ParseError>, endpos: int) -> bool {
    match r {
        Ok(e) => spec_result == Ok::<(ExprV, int), ParseErrorV>((e@, endpos)),
        Err(pe) => spec_result == Err::<(ExprV, int), ParseErrorV>(pe@),
    }
}

/// The recursive-descent parser: a token sequence and a cursor.
pub struct Parser {
    tokens: Vec<Token>,
    current: usize,
}

impl Parser {
    /// The model of the token sequence.
    pub closed spec fn toks(self) -> Seq<TokenV> {
        self.tokens@.map_values(|t: Token| t@)
    }

    /// The model of the cursor.
    pub closed spec fn pos(self) -> int {
        self.current as int
    }

    /// The cursor is on a token, and an end-of-input token terminates the
    /// sequence, so the cursor can never run off its end.
    pub closed spec fn wf(self) -> bool {
        self.tokens.len() > 0 && self.toks().last().kind == TokenKind::Eof && self.current
            < self.tokens.len()
    }

    pub fn new(tokens: Vec<Token>) -> (p: Parser)
        requires
            tokens@.len() > 0,
            tokens@[tokens@.len() - 1]@.kind == TokenKind::Eof,
        ensures
            p.wf(),
            p.toks() == tokens@.map_values(|t: Token| t@),
            p.pos() == 0,
    {
        Parser { tokens, current: 0 }
    }

    /// Parse one expression from the front of the tokens. `None` reports a
    /// parse failure; no partial tree is surfaced.
    pub fn parse(&mut self) -> (r: Option<Expr>)
        requires
            old(self).wf(),
        ensures
            final(self).wf(),
            final(self).toks() == old(self).toks(),
            match r {
                Some(e) => spec_expression(old(self).toks(), old(self).pos()) == Ok::<
                    (ExprV, int),
                    ParseErrorV,
                >((e@, final(self).pos())),
                None => spec_expression(old(self).toks(), old(self).pos()) is Err,
            },
            old(self).pos() == 0 ==> match r {
                Some(e) => spec_parse(old(self).toks()) == Some(e@),
                None => spec_parse(old(self).toks()) is None,
            },
    {
        let expression = match self.expression() {
            Ok(expr) => Some(expr),
            Err(_) => None,
        };
        expression
    }

    fn expression(&mut self) -> (r: Result<Expr, ParseError>)
        requires
            old(self).wf(),
        ensures
            final(self).wf(),
            final(self).toks() == old(self).toks(),
            old(self).pos() <= final(self).pos(),
            rule_matches(
                spec_expression(old(self).toks(), old(self).pos()),
                r,
                final(self).pos(),
            ),
        decreases self.tokens@.len() - self.current, 10int,
    {
        self.equality()
    }

    #[verifier::loop_isolation(false)]
    fn equality(&mut self) -> (r: Result<Expr, ParseError>)
        requires
            old(self).wf(),
        ensures
            final(self).wf(),
            final(self).toks() == old(self).toks(),
            old(self).pos() <= final(self).pos(),
            rule_matches(spec_equality(old(self).toks(), old(self).pos()), r, final(self).pos()),
        decreases self.tokens@.len() - self.current, 9int,
    {
        let ghost t0 = self.toks();
        let ghost p0 = self.pos();
        let mut expr = self.comparison()?;
        let mut done = false;
        while !done
            invariant
                self.wf(),
                self.toks() == t0,
                p0 <= self.pos(),
                !done ==> spec_equality(t0, p0) == spec_equality_more(t0, self.pos(), expr@),
                done ==> spec_equality(t0, p0) == Ok::<(ExprV, int), ParseErrorV>(
                    (expr@, self.pos()),
                ),
            decreases t0.len() - self.pos() + (if done { 0int } else { 1int }),
        {
            let continue_fold = match self.current_token() {
                Some(TokenKind::BangEqual) | Some(TokenKind::EqualEqual) => true,
                _ => false,
            };
            if continue_fold {
                self.advance();
                let operator = self.previous();
                let right = self.comparison()?;
                expr = Expr::Binary(Box::new(expr), operator, Box::new(right));
            } else {
                done = true;
            }
        }
        Ok(expr)
    }

    #[verifier::loop_isolation(false)]
    fn comparison(&mut self) -> (r: Result<Expr, ParseError>)
        requires
            old(self).wf(),
        ensures
            final(self).wf(),
            final(self).toks() == old(self).toks(),
            old(self).pos() <= final(self).pos(),
            rule_matches(spec_comparison(old(self).toks(), old(self).pos()), r, final(self).pos()),
        decreases self.tokens@.len() - self.current, 7int,
    {
        let ghost t0 = self.toks();
        let ghost p0 = self.pos();
        let mut expr = self.term()?;
        let mut done = false;
        while !done
            invariant
                self.wf(),
                self.toks() == t0,
                p0 <= self.pos(),
                !done ==> spec_comparison(t0, p0) == spec_comparison_more(t0, self.pos(), expr@),
                done ==> spec_comparison(t0, p0) == Ok::<(ExprV, int), ParseErrorV>(
                    (expr@, self.pos()),
                ),
            decreases t0.len() - self.pos() + (if done { 0int } else { 1int }),
        {
            let continue_fold = match self.current_token() {
                Some(TokenKind::Greater) | Some(TokenKind::GreaterEqual) | Some(TokenKind::Less)
                    | Some(TokenKind::LessEqual) => true,
                _ => false,
            };
            if continue_fold {
                self.advance();
                let operator = self.previous();
                let right = self.term()?;
                expr = Expr::Binary(Box::new(expr), operator, Box::new(right));
            } else {
                done = true;
            }
        }
        Ok(expr)
    }

    #[verifier::loop_isolation(false)]
    fn term(&mut self) -> (r: Result<Expr, ParseError>)
        requires
            old(self).wf(),
        ensures
            final(self).wf(),
            final(self).toks() == old(self).toks(),
            old(self).pos() <= final(self).pos(),
            rule_matches(spec_term(old(self).toks(), old(self).pos()), r, final(self).pos()),
        decreases self.tokens@.len() - self.current, 5int,
    {
        let ghost t0 = self.toks();
        let ghost p0 = self.pos();
        let mut expr = self.factor()?;
        let mut done = false;
        while !done
            invariant
                self.wf(),
                self.toks() == t0,
                p0 <= self.pos(),
                !done ==> spec_term(t0, p0) == spec_term_more(t0, self.pos(), expr@),
                done ==> spec_term(t0, p0) == Ok::<(ExprV, int), ParseErrorV>(
                    (expr@, self.pos()),
                ),
            decreases t0.len() - self.pos() + (if done { 0int } else { 1int }),
        {
            let continue_fold = match self.current_token() {
                Some(TokenKind::Minus) | Some(TokenKind::Plus) => true,
                _ => false,
            };
            if continue_fold {
                self.advance();
                let operator = self.previous();
                let right = self.factor()?;
                expr = Expr::Binary(Box::new(expr), operator, Box::new(right));
            } else {
                done = true;
            }
        }
        Ok(expr)
    }

    #[verifier::loop_isolation(false)]
    fn factor(&mut self) -> (r: Result<Expr, ParseError>)
        requires
            old(self).wf(),
        ensures
            final(self).wf(),
            final(self).toks() == old(self).toks(),
            old(self).pos() <= final(self).pos(),
            rule_matches(spec_factor(old(self).toks(), old(self).pos()), r, final(self).pos()),
        decreases self.tokens@.len() - self.current, 3int,
    {
        let ghost t0 = self.toks();
        let ghost p0 = self.pos();
        let mut expr = self.unary()?;
        let mut done = false;
        while !done
            invariant
                self.wf(),
                self.toks() == t0,
                p0 <= self.pos(),
                !done ==> spec_factor(t0, p0) == spec_factor_more(t0, self.pos(), expr@),
                done ==> spec_factor(t0, p0) == Ok::<(ExprV, int), ParseErrorV>(
                    (expr@, self.pos()),
                ),
            decreases t0.len() - self.pos() + (if done { 0int } else { 1int }),
        {
            let continue_fold = match self.current_token() {
                Some(TokenKind::Star) | Some(TokenKind::Slash) => true,
                _ => false,
            };
            if continue_fold {
                self.advance();
                let operator = self.previous();
                let right = self.unary()?;
                expr = Expr::Binary(Box::new(expr), operator, Box::new(right));
            } else {
                done = true;
            }
        }
        Ok(expr)
    }

    fn unary(&mut self) -> (r: Result<Expr, ParseError>)
        requires
            old(self).wf(),
        ensures
            final(self).wf(),
            final(self).toks() == old(self).toks(),
            old(self).pos() <= final(self).pos(),
            rule_matches(spec_unary(old(self).toks(), old(self).pos()), r, final(self).pos()),
        decreases self.tokens@.len() - self.current, 1int,
    {
        let is_unary_op = match self.current_token() {
            Some(TokenKind::Bang) | Some(TokenKind::Minus) => true,
            _ => false,
        };
        if is_unary_op {
            self.advance();
            let operator = self.previous();
            let right = self.unary()?;
            return Ok(Expr::Unary(operator, Box::new(right)));
        }
        self.primary()
    }

    fn primary(&mut self) -> (r: Result<Expr, ParseError>)
        requires
            old(self).wf(),
        ensures
            final(self).wf(),
            final(self).toks() == old(self).toks(),
            old(self).pos() <= final(self).pos(),
            rule_matches(spec_primary(old(self).toks(), old(self).pos()), r, final(self).pos()),
        decreases self.tokens@.len() - self.current, 0int,
    {
        let is_literal = match self.current_token() {
            Some(TokenKind::False) | Some(TokenKind::True) | Some(TokenKind::Nil) | Some(
                TokenKind::Number,
            ) | Some(TokenKind::Str) => true,
            _ => false,
        };
        if is_literal {
            self.advance();
            return Ok(Expr::Literal(self.previous()));
        }
        let is_group = match self.current_token() {
            Some(TokenKind::LeftParen) => true,
            _ => false,
        };
        if is_group {
            self.advance();
            let expr = self.expression()?;
            self.consume(TokenKind::RightParen, "Expect ')' after expression.")?;
            return Ok(Expr::Grouping(Box::new(expr)));
        }
        Err(ParseError { line: self.peek().line, message: String::from_str("Expect expression.") })
    }

    /// Take the token under the cursor when it has the wanted kind; report a
    /// parse failure at its line otherwise.
    fn consume(&mut self, kind: TokenKind, message: &str) -> (r: Result<Token, ParseError>)
        requires
            old(self).wf(),
            kind != TokenKind::Eof,
        ensures
            final(self).wf(),
            final(self).toks() == old(self).toks(),
            ({
                let here = old(self).toks()[old(self).pos()];
                match r {
                    Ok(t) => here.kind == kind && t@ == here && final(self).pos() == old(self).pos()
                        + 1,
                    Err(pe) => here.kind != kind && final(self).pos() == old(self).pos()
                        && pe@.line == here.line && pe@.msg == message@,
                }
            }),
    {
        if self.check(kind) {
            return Ok(self.advance());
        }
        Err(ParseError { line: self.peek().line, message: message.to_owned() })
    }

    /// Move the cursor past the current token, unless it is end-of-input,
    /// and hand back the token the cursor left.
    fn advance(&mut self) -> (t: Token)
        requires
            old(self).wf(),
            old(self).pos() >= 1 || old(self).toks()[old(self).pos()].kind != TokenKind::Eof,
        ensures
            final(self).wf(),
            final(self).toks() == old(self).toks(),
            final(self).pos() == if old(self).toks()[old(self).pos()].kind != TokenKind::Eof {
                old(self).pos() + 1
            } else {
                old(self).pos()
            },
            t@ == final(self).toks()[final(self).pos() - 1],
    {
        if !self.is_at_end() {
            self.current += 1;
        }
        self.previous()
    }

    /// The token just behind the cursor.
    fn previous(&self) -> (t: Token)
        requires
            self.wf(),
            self.pos() >= 1,
        ensures
            t@ == self.toks()[self.pos() - 1],
    {
        self.tokens[self.current - 1].clone()
    }

    /// Whether the token under the cursor has the given kind (end-of-input
    /// matches nothing).
    fn check(&self, kind: TokenKind) -> (r: bool)
        requires
            self.wf(),
            kind != TokenKind::Eof,
        ensures
            r == (self.toks()[self.pos()].kind == kind),
    {
        if self.is_at_end() {
            return false;
        }
        self.peek().kind == kind
    }

    /// The kind under the cursor, or `None` at end-of-input.
    fn current_token(&self) -> (r: Option<TokenKind>)
        requires
            self.wf(),
        ensures
            match r {
                Some(k) => self.toks()[self.pos()].kind == k && k != TokenKind::Eof,
                None => self.toks()[self.pos()].kind == TokenKind::Eof,
            },
    {
        if self.is_at_end() {
            return None;
        }
        Some(self.peek().kind)
    }

    fn is_at_end(&self) -> (r: bool)
        requires
            self.wf(),
        ensures
            r == (self.toks()[self.pos()].kind == TokenKind::Eof),
    {
        self.peek().kind == TokenKind::Eof
    }

    fn peek(&self) -> (t: &Token)
        requires
            self.wf(),
        ensures
            t@ == self.toks()[self.pos()],
    {
        &self.tokens[self.current]
    }

    #[allow(dead_code)]
    /// Discard tokens up to the next statement boundary. Inert while the
    /// grammar has no statements, but kept as the recovery point for a
    /// statement-level grammar.
    #[verifier::loop_isolation(false)]
    fn synchronize(&mut self)
        requires
            old(self).wf(),
        ensures
            final(self).wf(),
            final(self).toks() == old(self).toks(),
            final(self).pos() == spec_synchronize(old(self).toks(), old(self).pos()),
    {
        let ghost t0 = self.toks();
        let ghost p0 = self.pos();
        if self.is_at_end() {
            return ;
        }
        self.advance();
        let mut done = false;
        while !done
            invariant
                self.wf(),
                self.toks() == t0,
                self.pos() >= 1,
                !done ==> spec_sync_loop(t0, self.pos()) == spec_synchronize(t0, p0),
                done ==> self.pos() == spec_synchronize(t0, p0),
            decreases t0.len() - self.pos() + (if done { 0int } else { 1int }),
        {
            let at_boundary = if self.is_at_end() {
                true
            } else if self.previous().kind == TokenKind::Semicolon {
                true
            } else {
                match self.peek().kind {
                    TokenKind::Class | TokenKind::Fun | TokenKind::Var | TokenKind::For
                        | TokenKind::If | TokenKind::While | TokenKind::Print
                        | TokenKind::Return => true,
                    _ => false,
                }
            };
            if at_boundary {
                done = true;
            } else {
                self.advance();
            }
        }
    }
}

/// Same-precedence operators fold to the left: for any number tokens and any
/// two term operators, `a op1 b op2 c` parses as `((a op1 b) op2 c)`.
pub proof fn lemma_term_folds_left(a: TokenV, op1: TokenV, b: TokenV, op2: TokenV, c: TokenV, eof: TokenV)
    requires
        a.kind == TokenKind::Number,
        b.kind == TokenKind::Number,
        c.kind == TokenKind::Number,
        op1.kind == TokenKind::Minus || op1.kind == TokenKind::Plus,
        op2.kind == TokenKind::Minus || op2.kind == TokenKind::Plus,
        eof.kind == TokenKind::Eof,
    ensures
        spec_parse(seq![a, op1, b, op2, c, eof]) == Some(
            ExprV::Binary(
                Box::new(
                    ExprV::Binary(
                        Box::new(ExprV::Literal(a)),
                        op1,
                        Box::new(ExprV::Literal(b)),
                    ),
                ),
                op2,
                Box::new(ExprV::Literal(c)),
            ),
        ),
{
    let toks = seq![a, op1, b, op2, c, eof];
    let la = ExprV::Literal(a);
    let lb = ExprV::Literal(b);
    let lc = ExprV::Literal(c);
    let fold1 = ExprV::Binary(Box::new(la), op1, Box::new(lb));
    let fold2 = ExprV::Binary(Box::new(fold1), op2, Box::new(lc));
    assert(spec_primary(toks, 0) == Ok::<(ExprV, int), ParseErrorV>((la, 1)));
    assert(spec_unary(toks, 0) == Ok::<(ExprV, int), ParseErrorV>((la, 1)));
    assert(spec_factor_more(toks, 1, la) == Ok::<(ExprV, int), ParseErrorV>((la, 1)));
    assert(spec_factor(toks, 0) == Ok::<(ExprV, int), ParseErrorV>((la, 1)));
    assert(spec_primary(toks, 2) == Ok::<(ExprV, int), ParseErrorV>((lb, 3)));
    assert(spec_unary(toks, 2) == Ok::<(ExprV, int), ParseErrorV>((lb, 3)));
    assert(spec_factor_more(toks, 3, lb) == Ok::<(ExprV, int), ParseErrorV>((lb, 3)));
    assert(spec_factor(toks, 2) == Ok::<(ExprV, int), ParseErrorV>((lb, 3)));
    assert(spec_primary(toks, 4) == Ok::<(ExprV, int), ParseErrorV>((lc, 5)));
    assert(spec_unary(toks, 4) == Ok::<(ExprV, int), ParseErrorV>((lc, 5)));
    assert(spec_factor_more(toks, 5, lc) == Ok::<(ExprV, int), ParseErrorV>((lc, 5)));
    assert(spec_factor(toks, 4) == Ok::<(ExprV, int), ParseErrorV>((lc, 5)));
    assert(spec_term_more(toks, 5, fold2) == Ok::<(ExprV, int), ParseErrorV>((fold2, 5)));
    assert(spec_term_more(toks, 3, fold1) == Ok::<(ExprV, int), ParseErrorV>((fold2, 5)));
    assert(spec_term_more(toks, 1, la) == Ok::<(ExprV, int), ParseErrorV>((fold2, 5)));
    assert(spec_term(toks, 0) == Ok::<(ExprV, int), ParseErrorV>((fold2, 5)));
    assert(spec_comparison_more(toks, 5, fold2) == Ok::<(ExprV, int), ParseErrorV>((fold2, 5)));
    assert(spec_comparison(toks, 0) == Ok::<(ExprV, int), ParseErrorV>((fold2, 5)));
    assert(spec_equality_more(toks, 5, fold2) == Ok::<(ExprV, int), ParseErrorV>((fold2, 5)));
    assert(spec_equality(toks, 0) == Ok::<(ExprV, int), ParseErrorV>((fold2, 5)));
}

/// A factor operator binds tighter than a term operator: for any number
/// tokens, `a op1 b op2 c` with `op1` a term operator and `op2` a factor
/// operator parses as `(a op1 (b op2 c))`.
pub proof fn lemma_factor_binds_tighter(a: TokenV, op1: TokenV, b: TokenV, op2: TokenV, c: TokenV, eof: TokenV)
    requires
        a.kind == TokenKind::Number,
        b.kind == TokenKind::Number,
        c.kind == TokenKind::Number,
        op1.kind == TokenKind::Minus || op1.kind == TokenKind::Plus,
        op2.kind == TokenKind::Star || op2.kind == TokenKind::Slash,
        eof.kind == TokenKind::Eof,
    ensures
        spec_parse(seq![a, op1, b, op2, c, eof]) == Some(
            ExprV::Binary(
                Box::new(ExprV::Literal(a)),
                op1,
                Box::new(
                    ExprV::Binary(
                        Box::new(ExprV::Literal(b)),
                        op2,
                        Box::new(ExprV::Literal(c)),
                    ),
                ),
            ),
        ),
{
    let toks = seq![a, op1, b, op2, c, eof];
    let la = ExprV::Literal(a);
    let lb = ExprV::Literal(b);
    let lc = ExprV::Literal(c);
    let inner = ExprV::Binary(Box::new(lb), op2, Box::new(lc));
    let outer = ExprV::Binary(Box::new(la), op1, Box::new(inner));
    assert(spec_primary(toks, 0) == Ok::<(ExprV, int), ParseErrorV>((la, 1)));
    assert(spec_unary(toks, 0) == Ok::<(ExprV, int), ParseErrorV>((la, 1)));
    assert(spec_factor_more(toks, 1, la) == Ok::<(ExprV, int), ParseErrorV>((la, 1)));
    assert(spec_factor(toks, 0) == Ok::<(ExprV, int), ParseErrorV>((la, 1)));
    assert(spec_primary(toks, 2) == Ok::<(ExprV, int), ParseErrorV>((lb, 3)));
    assert(spec_unary(toks, 2) == Ok::<(ExprV, int), ParseErrorV>((lb, 3)));
    assert(spec_primary(toks, 4) == Ok::<(ExprV, int), ParseErrorV>((lc, 5)));
    assert(spec_unary(toks, 4) == Ok::<(ExprV, int), ParseErrorV>((lc, 5)));
    assert(spec_factor_more(toks, 5, inner) == Ok::<(ExprV, int), ParseErrorV>((inner, 5)));
    assert(spec_factor_more(toks, 3, lb) == Ok::<(ExprV, int), ParseErrorV>((inner, 5)));
    assert(spec_factor(toks, 2) == Ok::<(ExprV, int), ParseErrorV>((inner, 5)));
    assert(spec_term_more(toks, 5, outer) == Ok::<(ExprV, int), ParseErrorV>((outer, 5)));
    assert(spec_term_more(toks, 1, la) == Ok::<(ExprV, int), ParseErrorV>((outer, 5)));
    assert(spec_term(toks, 0) == Ok::<(ExprV, int), ParseErrorV>((outer, 5)));
    assert(spec_comparison_more(toks, 5, outer) == Ok::<(ExprV, int), ParseErrorV>((outer, 5)));
    assert(spec_comparison(toks, 0) == Ok::<(ExprV, int), ParseErrorV>((outer, 5)));
    assert(spec_equality_more(toks, 5, outer) == Ok::<(ExprV, int), ParseErrorV>((outer, 5)));
    assert(spec_equality(toks, 0) == Ok::<(ExprV, int), ParseErrorV>((outer, 5)));
}

} // verus!
