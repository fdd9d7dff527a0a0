use vstd::prelude::*;

verus! {

/// The kind of a lexical token. Literal payloads (the numeric mantissa and
/// the decoded string contents) live beside the kind in `Token`, so the kind
/// itself stays a plain tag that supports structural equality.
#[derive(Clone, Copy, Debug, PartialEq, Eq, Structural)]
pub enum TokenKind {
    LeftParen,
    RightParen,
    Comma,
    Dot,
    Minus,
    Plus,
    Semicolon,
    Slash,
    Star,
    Bang,
    BangEqual,
    Equal,
    EqualEqual,
    Greater,
    GreaterEqual,
    Less,
    LessEqual,
    Identifier,
    Str,
    Number,
    Class,
    Fun,
    Var,
    For,
    If,
    While,
    Print,
    Return,
    True,
    False,
    Nil,
    Eof,
}

/// One lexical token. `line` is the 1-based source line it ends on.
/// For `Number` tokens, `num` is the literal's value as a mantissa scaled by
/// `crate::decimal::SCALE`; for `Str` and `Identifier` tokens, `text` is the
/// decoded contents. Both payload fields are zero / empty otherwise.
#[derive(Debug)]
pub struct Token {
    pub kind: TokenKind,
    pub line: u64,
    pub num: u64,
    pub text: String,
}

/// The mathematical model of a token: the same data with the string payload
/// as a sequence of characters.
pub struct TokenV {
    pub kind: TokenKind,
    pub line: int,
    pub num: int,
    pub text: Seq<char>,
}

impl View for Token {
    type V = TokenV;

    open spec fn view(&self) -> TokenV {
        TokenV {
            kind: self.kind,
            line: self.line as int,
            num: self.num as int,
            text: self.text@,
        }
    }
}

impl Clone for Token {
    fn clone(&self) -> (res: Token)
        ensures
            res == *self,
    {
        Token { kind: self.kind, line: self.line, num: self.num, text: self.text.clone() }
    }
}

} // verus!
