use vstd::prelude::*;

use crate::decimal::{div_value, in_range, mul_value, Decimal};
use crate::parser::{Expr, ExprV};
use crate::token::{TokenKind, TokenV};

verus! {

/// Why an evaluation failed. Every failure aborts the whole evaluation.
#[derive(Clone, Copy, Debug, PartialEq, Eq, Structural)]
pub enum RuntimeError {
    /// A literal node carried a token of a non-literal kind.
    InvalidLiteral,
    /// A unary node carried an operator other than `!` or `-`.
    InvalidUnaryOperator,
    /// A binary node carried a token that is no binary operator.
    InvalidBinaryOperator,
    /// Unary `-` was applied to a value that is not a number.
    OperandMustBeANumber,
    /// An arithmetic or ordering operator saw a non-number operand.
    OperandsMustBeNumbers,
    /// `+` saw operands that are neither two numbers nor two strings.
    UnsupportedPlusOperands,
    /// The divisor of `/` was zero.
    DivisionByZero,
    /// An arithmetic result left the representable range.
    NumberOverflow,
}

impl RuntimeError {
    /// The diagnostic text for this failure.
    pub open spec fn spec_message(self) -> Seq<char> {
        match self {
            RuntimeError::InvalidLiteral => "Invalid literal"@,
            RuntimeError::InvalidUnaryOperator => "Invalid unary operator"@,
            RuntimeError::InvalidBinaryOperator => "Invalid binary expression"@,
            RuntimeError::OperandMustBeANumber => "Operand must be a number"@,
            RuntimeError::OperandsMustBeNumbers => "Operands must be numbers"@,
            RuntimeError::UnsupportedPlusOperands => "Unsupported type for plus operator"@,
            RuntimeError::DivisionByZero => "Division by zero"@,
            RuntimeError::NumberOverflow => "Number out of range"@,
        }
    }

    pub fn message(&self) -> (m: String)
        ensures
            m@ == self.spec_message(),
    {
        match self {
            RuntimeError::InvalidLiteral => String::from_str("Invalid literal"),
            RuntimeError::InvalidUnaryOperator => String::from_str("Invalid unary operator"),
            RuntimeError::InvalidBinaryOperator => String::from_str("Invalid binary expression"),
            RuntimeError::OperandMustBeANumber => String::from_str("Operand must be a number"),
            RuntimeError::OperandsMustBeNumbers => String::from_str("Operands must be numbers"),
            RuntimeError::UnsupportedPlusOperands => String::from_str(
                "Unsupported type for plus operator",
            ),
            RuntimeError::DivisionByZero => String::from_str("Division by zero"),
            RuntimeError::NumberOverflow => String::from_str("Number out of range"),
        }
    }
}

/// A runtime value: a number, a string, a boolean, or nil.
#[derive(Debug)]
pub enum RuntimeValue {
    Number(Decimal),
    Str(String),
    Boolean(bool),
    Nil,
}

/// The mathematical model of a runtime value. A number is its exact scaled
/// value; a string is its characters.
pub enum ValueV {
    Number(int),
    Str(Seq<char>),
    Boolean(bool),
    Nil,
}

impl View for RuntimeValue {
    type V = ValueV;

    open spec fn view(&self) -> ValueV {
        match self {
            RuntimeValue::Number(d) => ValueV::Number(d.value()),
            RuntimeValue::Str(s) => ValueV::Str(s@),
            RuntimeValue::Boolean(b) => ValueV::Boolean(*b),
            RuntimeValue::Nil => ValueV::Nil,
        }
    }
}

/// Truthiness: nil and false are falsy; every other value is truthy.
pub open spec fn spec_truthy(v: ValueV) -> bool {
    match v {
        ValueV::Nil => false,
        ValueV::Boolean(b) => b,
        _ => true,
    }
}

/// Equality between any two values: same variant with equal contents.
/// Values of different variants are unequal, never an error.
pub open spec fn spec_equal(a: ValueV, b: ValueV) -> bool {
    match (a, b) {
        (ValueV::Nil, ValueV::Nil) => true,
        (ValueV::Number(x), ValueV::Number(y)) => x == y,
        (ValueV::Str(x), ValueV::Str(y)) => x == y,
        (ValueV::Boolean(x), ValueV::Boolean(y)) => x == y,
        _ => false,
    }
}

/// What a literal token evaluates to.
pub open spec fn spec_eval_literal(t: TokenV) -> Result<ValueV, RuntimeError> {
    match t.kind {
        TokenKind::Number => Ok(ValueV::Number(t.num)),
        TokenKind::Str => Ok(ValueV::Str(t.text)),
        TokenKind::True => Ok(ValueV::Boolean(true)),
        TokenKind::False => Ok(ValueV::Boolean(false)),
        TokenKind::Nil => Ok(ValueV::Nil),
        _ => Err(RuntimeError::InvalidLiteral),
    }
}

/// What a unary operator yields on an already-evaluated operand.
pub open spec fn spec_eval_unary(k: TokenKind, v: ValueV) -> Result<ValueV, RuntimeError> {
    match k {
        TokenKind::Bang => Ok(ValueV::Boolean(!spec_truthy(v))),
        TokenKind::Minus => match v {
            ValueV::Number(n) => Ok(ValueV::Number(-n)),
            _ => Err(RuntimeError::OperandMustBeANumber),
        },
        _ => Err(RuntimeError::InvalidUnaryOperator),
    }
}

/// An arithmetic result, or overflow when it leaves the range.
pub open spec fn spec_arith_result(v: int) -> Result<ValueV, RuntimeError> {
    if in_range(v) {
        Ok(ValueV::Number(v))
    } else {
        Err(RuntimeError::NumberOverflow)
    }
}

/// What a binary operator yields on two already-evaluated operands.
pub open spec fn spec_eval_binary(k: TokenKind, a: ValueV, b: ValueV) -> Result<
    ValueV,
    RuntimeError,
> {
    match k {
        TokenKind::Minus => match (a, b) {
            (ValueV::Number(x), ValueV::Number(y)) => spec_arith_result(x - y),
            _ => Err(RuntimeError::OperandsMustBeNumbers),
        },
        TokenKind::Star => match (a, b) {
            (ValueV::Number(x), ValueV::Number(y)) => spec_arith_result(mul_value(x, y)),
            _ => Err(RuntimeError::OperandsMustBeNumbers),
        },
        TokenKind::Slash => match (a, b) {
            (ValueV::Number(x), ValueV::Number(y)) => if y == 0 {
                Err(RuntimeError::DivisionByZero)
            } else {
                spec_arith_result(div_value(x, y))
            },
            _ => Err(RuntimeError::OperandsMustBeNumbers),
        },
        TokenKind::Plus => match (a, b) {
            (ValueV::Number(x), ValueV::Number(y)) => spec_arith_result(x + y),
            (ValueV::Str(x), ValueV::Str(y)) => Ok(ValueV::Str(x + y)),
            _ => Err(RuntimeError::UnsupportedPlusOperands),
        },
        TokenKind::Greater => match (a, b) {
            (ValueV::Number(x), ValueV::Number(y)) => Ok(ValueV::Boolean(x > y)),
            _ => Err(RuntimeError::OperandsMustBeNumbers),
        },
        TokenKind::GreaterEqual => match (a, b) {
            (ValueV::Number(x), ValueV::Number(y)) => Ok(ValueV::Boolean(x >= y)),
            _ => Err(RuntimeError::OperandsMustBeNumbers),
        },
        TokenKind::Less => match (a, b) {
            (ValueV::Number(x), ValueV::Number(y)) => Ok(ValueV::Boolean(x < y)),
            _ => Err(RuntimeError::OperandsMustBeNumbers),
        },
        TokenKind::LessEqual => match (a, b) {
            (ValueV::Number(x), ValueV::Number(y)) => Ok(ValueV::Boolean(x <= y)),
            _ => Err(RuntimeError::OperandsMustBeNumbers),
        },
        TokenKind::BangEqual => Ok(ValueV::Boolean(!spec_equal(a, b))),
        TokenKind::EqualEqual => Ok(ValueV::Boolean(spec_equal(a, b))),
        _ => Err(RuntimeError::InvalidBinaryOperator),
    }
}

/// The evaluator: a post-order walk of the tree. Children evaluate left to
/// right; the first failure aborts the walk.
pub open spec fn spec_eval(e: ExprV) -> Result<ValueV, RuntimeError>
    decreases e,
{
    match e {
        ExprV::Literal(t) => spec_eval_literal(t),
        ExprV::Grouping(g) => spec_eval(*g),
        ExprV::Unary(t, r) => match spec_eval(*r) {
            Ok(v) => spec_eval_unary(t.kind, v),
            Err(er) => Err(er),
        },
        ExprV::Binary(l, t, r) => match spec_eval(*l) {
            Ok(lv) => match spec_eval(*r) {
                Ok(rv) => spec_eval_binary(t.kind, lv, rv),
                Err(er) => Err(er),
            },
            Err(er) => Err(er),
        },
    }
}

/// The model of an evaluation outcome.
pub open spec fn eval_result_view(r: Result<RuntimeValue, RuntimeError>) -> Result<
    ValueV,
    RuntimeError,
> {
    match r {
        Ok(v) => Ok(v@),
        Err(e) => Err(e),
    }
}

impl RuntimeValue {
    /// Truthiness of this value.
    pub fn is_truthy(&self) -> (r: bool)
        ensures
            r == spec_truthy(self@),
    {
        match self {
            RuntimeValue::Nil => false,
            RuntimeValue::Boolean(b) => *b,
            _ => true,
        }
    }

    /// Whether this value equals `rhs`. Total: values of different variants
    /// compare unequal.
    pub fn is_equal(&self, rhs: RuntimeValue) -> (r: bool)
        ensures
            r == spec_equal(self@, rhs@),
    {
        match (self, &rhs) {
            (RuntimeValue::Nil, RuntimeValue::Nil) => true,
            (RuntimeValue::Number(n1), RuntimeValue::Number(n2)) => n1.eq_value(*n2),
            (RuntimeValue::Str(s1), RuntimeValue::Str(s2)) => *s1 == *s2,
            (RuntimeValue::Boolean(b1), RuntimeValue::Boolean(b2)) => *b1 == *b2,
            _ => false,
        }
    }
}

/// Grouping is transparent: evaluating a parenthesized expression yields
/// exactly what evaluating the inner expression yields, value or failure.
pub proof fn lemma_grouping_transparent(e: ExprV)
    ensures
        spec_eval(ExprV::Grouping(Box::new(e))) == spec_eval(e),
{
}

/// `+` on two strings concatenates them, for any operand trees that
/// evaluate to strings.
pub proof fn lemma_plus_concatenates(l: ExprV, r: ExprV, op: TokenV, a: Seq<char>, b: Seq<char>)
    requires
        op.kind == TokenKind::Plus,
        spec_eval(l) == Ok::<ValueV, RuntimeError>(ValueV::Str(a)),
        spec_eval(r) == Ok::<ValueV, RuntimeError>(ValueV::Str(b)),
    ensures
        spec_eval(ExprV::Binary(Box::new(l), op, Box::new(r))) == Ok::<ValueV, RuntimeError>(
            ValueV::Str(a + b),
        ),
{
}

/// Equality never errors: whenever both operands evaluate, `==` and `!=`
/// yield a boolean, whatever the operands' variants are.
pub proof fn lemma_equality_never_errors(l: ExprV, r: ExprV, op: TokenV, lv: ValueV, rv: ValueV)
    requires
        op.kind == TokenKind::EqualEqual || op.kind == TokenKind::BangEqual,
        spec_eval(l) == Ok::<ValueV, RuntimeError>(lv),
        spec_eval(r) == Ok::<ValueV, RuntimeError>(rv),
    ensures
        spec_eval(ExprV::Binary(Box::new(l), op, Box::new(r))) == Ok::<ValueV, RuntimeError>(
            ValueV::Boolean(
                if op.kind == TokenKind::EqualEqual {
                    spec_equal(lv, rv)
                } else {
                    !spec_equal(lv, rv)
                },
            ),
        ),
{
}

/// Values of different variants are never equal.
pub proof fn lemma_cross_variant_unequal(a: ValueV, b: ValueV)
    requires
        !(a is Number && b is Number),
        !(a is Str && b is Str),
        !(a is Boolean && b is Boolean),
        !(a is Nil && b is Nil),
    ensures
        !spec_equal(a, b),
{
}

/// Truthiness: only nil and false are falsy.
pub proof fn lemma_truthiness(v: ValueV)
    ensures
        spec_truthy(v) <==> !(v == ValueV::Nil || v == ValueV::Boolean(false)),
{
}

/// Two chained `!` yield the operand's truthiness as a boolean.
pub proof fn lemma_double_bang(e: ExprV, t1: TokenV, t2: TokenV, v: ValueV)
    requires
        t1.kind == TokenKind::Bang,
        t2.kind == TokenKind::Bang,
        spec_eval(e) == Ok::<ValueV, RuntimeError>(v),
    ensures
        spec_eval(ExprV::Unary(t1, Box::new(ExprV::Unary(t2, Box::new(e))))) == Ok::<
            ValueV,
            RuntimeError,
        >(ValueV::Boolean(spec_truthy(v))),
{
    reveal_with_fuel(spec_eval, 3);
}

/// Two chained unary `-` give back the original number: negation is total
/// on the representable range, so no overflow can intervene.
pub proof fn lemma_double_negation(e: ExprV, t1: TokenV, t2: TokenV, n: int)
    requires
        t1.kind == TokenKind::Minus,
        t2.kind == TokenKind::Minus,
        spec_eval(e) == Ok::<ValueV, RuntimeError>(ValueV::Number(n)),
    ensures
        spec_eval(ExprV::Unary(t1, Box::new(ExprV::Unary(t2, Box::new(e))))) == Ok::<
            ValueV,
            RuntimeError,
        >(ValueV::Number(n)),
{
    reveal_with_fuel(spec_eval, 3);
}

/// The tree-walking evaluator. It holds no state; each call works on one
/// self-contained tree.
pub struct Interpreter;

impl Interpreter {
    pub fn new() -> (r: Interpreter) {
        Interpreter
    }

    /// Evaluate one expression tree to a runtime value or a runtime failure.
    pub fn interpret(&mut self, expr: Expr) -> (r: Result<RuntimeValue, RuntimeError>)
        ensures
            eval_result_view(r) == spec_eval(expr@),
    {
        self.evaluate(expr)
    }

    /// Exhaustive case analysis over the four node variants.
    pub fn evaluate(&mut self, expr: Expr) -> (r: Result<RuntimeValue, RuntimeError>)
        ensures
            eval_result_view(r) == spec_eval(expr@),
        decreases expr,
    {
        match expr {
            Expr::Literal(token) => match token.kind {
                TokenKind::Number => Ok(
                    RuntimeValue::Number(Decimal { neg: false, mag: token.num }),
                ),
                TokenKind::Str => Ok(RuntimeValue::Str(token.text)),
                TokenKind::True => Ok(RuntimeValue::Boolean(true)),
                TokenKind::False => Ok(RuntimeValue::Boolean(false)),
                TokenKind::Nil => Ok(RuntimeValue::Nil),
                _ => Err(RuntimeError::InvalidLiteral),
            },
            Expr::Grouping(g) => self.evaluate(*g),
            Expr::Unary(token, right) => {
                let right = self.evaluate(*right)?;
                match token.kind {
                    TokenKind::Bang => Ok(RuntimeValue::Boolean(!right.is_truthy())),
                    TokenKind::Minus => match right {
                        RuntimeValue::Number(n) => Ok(RuntimeValue::Number(n.negate())),
                        _ => Err(RuntimeError::OperandMustBeANumber),
                    },
                    _ => Err(RuntimeError::InvalidUnaryOperator),
                }
            },
            Expr::Binary(left, token, right) => {
                let left = self.evaluate(*left)?;
                let right = self.evaluate(*right)?;
                match token.kind {
                    TokenKind::Minus | TokenKind::Star | TokenKind::Slash => self
                        .eval_arithmetic_op(left, right, token.kind),
                    TokenKind::Plus => match (left, right) {
                        (RuntimeValue::Number(l), RuntimeValue::Number(r)) => match l.checked_add(
                            r,
                        ) {
                            Some(d) => Ok(RuntimeValue::Number(d)),
                            None => Err(RuntimeError::NumberOverflow),
                        },
                        (RuntimeValue::Str(l), RuntimeValue::Str(r)) => Ok(
                            RuntimeValue::Str(l.concat(r.as_str())),
                        ),
                        _ => Err(RuntimeError::UnsupportedPlusOperands),
                    },
                    TokenKind::Greater | TokenKind::GreaterEqual | TokenKind::Less
                        | TokenKind::LessEqual => self.eval_boolean_op(left, right, token.kind),
                    TokenKind::BangEqual => Ok(RuntimeValue::Boolean(!left.is_equal(right))),
                    TokenKind::EqualEqual => Ok(RuntimeValue::Boolean(left.is_equal(right))),
                    _ => Err(RuntimeError::InvalidBinaryOperator),
                }
            },
        }
    }

    /// `-`, `*` and `/` on two evaluated operands, which must be numbers.
    fn eval_arithmetic_op(&self, l: RuntimeValue, r: RuntimeValue, op: TokenKind) -> (res: Result<
        RuntimeValue,
        RuntimeError,
    >)
        requires
            op == TokenKind::Minus || op == TokenKind::Star || op == TokenKind::Slash,
        ensures
            eval_result_view(res) == spec_eval_binary(op, l@, r@),
    {
        match (l, r) {
            (RuntimeValue::Number(x), RuntimeValue::Number(y)) => {
                let computed: Option<Decimal> = match op {
                    TokenKind::Minus => x.checked_sub(y),
                    TokenKind::Star => x.checked_mul(y),
                    _ => {
                        if y.mag == 0 {
                            return Err(RuntimeError::DivisionByZero);
                        }
                        x.checked_div(y)
                    },
                };
                match computed {
                    Some(d) => Ok(RuntimeValue::Number(d)),
                    None => Err(RuntimeError::NumberOverflow),
                }
            },
            _ => Err(RuntimeError::OperandsMustBeNumbers),
        }
    }

    /// `>`, `>=`, `<` and `<=` on two evaluated operands, which must be
    /// numbers.
    fn eval_boolean_op(&self, l: RuntimeValue, r: RuntimeValue, op: TokenKind) -> (res: Result<
        RuntimeValue,
        RuntimeError,
    >)
        requires
            op == TokenKind::Greater || op == TokenKind::GreaterEqual || op == TokenKind::Less
                || op == TokenKind::LessEqual,
        ensures
            eval_result_view(res) == spec_eval_binary(op, l@, r@),
    {
        match (l, r) {
            (RuntimeValue::Number(x), RuntimeValue::Number(y)) => {
                let b: bool = match op {
                    TokenKind::Greater => y.lt_value(x),
                    TokenKind::GreaterEqual => !x.lt_value(y),
                    TokenKind::Less => x.lt_value(y),
                    _ => !y.lt_value(x),
                };
                Ok(RuntimeValue::Boolean(b))
            },
            _ => Err(RuntimeError::OperandsMustBeNumbers),
        }
    }
}

} // verus!
