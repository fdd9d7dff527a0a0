use roxy::interpreter::{Interpreter, RuntimeError};
use roxy::parser::{Expr, Parser};
use roxy::scanner::scan;
use roxy::token::{Token, TokenKind};

fn tok(kind: TokenKind) -> Token {
    Token { kind, line: 1, num: 0, text: String::new() }
}

fn num_tok(mag: u64) -> Token {
    Token { kind: TokenKind::Number, line: 1, num: mag, text: String::new() }
}

#[test]
fn literal_node_must_carry_a_literal_token() {
    let rogue = Expr::Literal(tok(TokenKind::Plus));
    let mut interpreter = Interpreter::new();
    match interpreter.interpret(rogue) {
        Err(e) => assert_eq!(e, RuntimeError::InvalidLiteral),
        Ok(v) => panic!("expected an error, got {:?}", v),
    }
}

#[test]
fn unary_node_must_carry_a_unary_operator() {
    let rogue = Expr::Unary(tok(TokenKind::Star), Box::new(Expr::Literal(num_tok(1))));
    let mut interpreter = Interpreter::new();
    match interpreter.interpret(rogue) {
        Err(e) => assert_eq!(e, RuntimeError::InvalidUnaryOperator),
        Ok(v) => panic!("expected an error, got {:?}", v),
    }
}

#[test]
fn binary_node_must_carry_a_binary_operator() {
    let rogue = Expr::Binary(
        Box::new(Expr::Literal(num_tok(1))),
        tok(TokenKind::Bang),
        Box::new(Expr::Literal(num_tok(2))),
    );
    let mut interpreter = Interpreter::new();
    match interpreter.interpret(rogue) {
        Err(e) => assert_eq!(e, RuntimeError::InvalidBinaryOperator),
        Ok(v) => panic!("expected an error, got {:?}", v),
    }
}

#[test]
fn evaluation_is_left_to_right() {
    // The left operand's failure wins over the right operand's.
    let tree = Expr::Binary(
        Box::new(Expr::Unary(tok(TokenKind::Minus), Box::new(Expr::Literal(tok(TokenKind::Nil))))),
        tok(TokenKind::Plus),
        Box::new(Expr::Literal(tok(TokenKind::Plus))),
    );
    let mut interpreter = Interpreter::new();
    match interpreter.interpret(tree) {
        Err(e) => assert_eq!(e, RuntimeError::OperandMustBeANumber),
        Ok(v) => panic!("expected an error, got {:?}", v),
    }
}

#[test]
fn parse_builds_a_left_leaning_tree() {
    let (tokens, diags) = scan("8 - 3 - 2");
    assert!(diags.is_empty());
    let mut parser = Parser::new(tokens);
    let expr = parser.parse().expect("expected a parse tree");
    match expr {
        Expr::Binary(left, op, right) => {
            assert_eq!(op.kind, TokenKind::Minus);
            assert!(matches!(*right, Expr::Literal(ref t) if t.num == 2_000_000_000));
            match *left {
                Expr::Binary(ll, lop, lr) => {
                    assert_eq!(lop.kind, TokenKind::Minus);
                    assert!(matches!(*ll, Expr::Literal(ref t) if t.num == 8_000_000_000));
                    assert!(matches!(*lr, Expr::Literal(ref t) if t.num == 3_000_000_000));
                }
                other => panic!("expected a nested binary node, got {:?}", other),
            }
        }
        other => panic!("expected a binary node, got {:?}", other),
    }
}

#[test]
fn parse_nests_higher_precedence_on_the_right() {
    let (tokens, diags) = scan("1 + 2 * 3");
    assert!(diags.is_empty());
    let mut parser = Parser::new(tokens);
    let expr = parser.parse().expect("expected a parse tree");
    match expr {
        Expr::Binary(left, op, right) => {
            assert_eq!(op.kind, TokenKind::Plus);
            assert!(matches!(*left, Expr::Literal(ref t) if t.num == 1_000_000_000));
            match *right {
                Expr::Binary(rl, rop, rr) => {
                    assert_eq!(rop.kind, TokenKind::Star);
                    assert!(matches!(*rl, Expr::Literal(ref t) if t.num == 2_000_000_000));
                    assert!(matches!(*rr, Expr::Literal(ref t) if t.num == 3_000_000_000));
                }
                other => panic!("expected a nested binary node, got {:?}", other),
            }
        }
        other => panic!("expected a binary node, got {:?}", other),
    }
}

#[test]
fn unary_chain_parses_right_associatively() {
    let (tokens, diags) = scan("!!true");
    assert!(diags.is_empty());
    let mut parser = Parser::new(tokens);
    let expr = parser.parse().expect("expected a parse tree");
    match expr {
        Expr::Unary(op, inner) => {
            assert_eq!(op.kind, TokenKind::Bang);
            match *inner {
                Expr::Unary(iop, leaf) => {
                    assert_eq!(iop.kind, TokenKind::Bang);
                    assert!(matches!(*leaf, Expr::Literal(ref t) if t.kind == TokenKind::True));
                }
                other => panic!("expected a nested unary node, got {:?}", other),
            }
        }
        other => panic!("expected a unary node, got {:?}", other),
    }
}

#[test]
fn parse_of_lone_eof_is_an_error() {
    let (tokens, diags) = scan("");
    assert!(diags.is_empty());
    let mut parser = Parser::new(tokens);
    assert!(parser.parse().is_none());
}
