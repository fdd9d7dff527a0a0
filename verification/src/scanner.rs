use vstd::prelude::*;

use crate::decimal::SCALE;
use crate::token::{Token, TokenKind, TokenV};

verus! {

/// A lexical diagnostic: the source line it was noticed on and a message.
/// Scanning reports these on the side and keeps going.
#[derive(Debug)]
pub struct Diagnostic {
    pub line: u64,
    pub message: String,
}

/// The mathematical model of a diagnostic.
pub struct DiagV {
    pub line: int,
    pub msg: Seq<char>,
}

impl View for Diagnostic {
    type V = DiagV;

    open spec fn view(&self) -> DiagV {
        DiagV { line: self.line as int, msg: self.message@ }
    }
}

pub open spec fn unexpected_character_msg() -> Seq<char> {
    "Unexpected character."@
}

pub open spec fn unterminated_string_msg() -> Seq<char> {
    "Unterminated string."@
}

pub open spec fn number_too_large_msg() -> Seq<char> {
    "Number literal too large."@
}

pub open spec fn is_digit(c: char) -> bool {
    '0' as u32 <= c as u32 && c as u32 <= '9' as u32
}

pub open spec fn is_alpha(c: char) -> bool {
    ('a' as u32 <= c as u32 && c as u32 <= 'z' as u32) || ('A' as u32 <= c as u32 && c as u32
        <= 'Z' as u32) || c == '_'
}

pub open spec fn is_alnum(c: char) -> bool {
    is_alpha(c) || is_digit(c)
}

/// The numeric value of a digit character.
pub open spec fn digit_val(c: char) -> int {
    c as u32 - '0' as u32
}

/// How many characters remain at `i`; the termination measure of scanning.
pub open spec fn chars_left(s: Seq<char>, i: int) -> int {
    if i <= s.len() {
        s.len() - i
    } else {
        0
    }
}

/// The first position at or after `i` that is not a digit.
pub open spec fn digits_end(s: Seq<char>, i: int) -> int
    decreases chars_left(s, i),
{
    if 0 <= i < s.len() && is_digit(s[i]) {
        digits_end(s, i + 1)
    } else {
        i
    }
}

/// The first position at or after `i` that is not an identifier character.
pub open spec fn ident_end(s: Seq<char>, i: int) -> int
    decreases chars_left(s, i),
{
    if 0 <= i < s.len() && is_alnum(s[i]) {
        ident_end(s, i + 1)
    } else {
        i
    }
}

/// The first `"` at or after `i`, or the length when there is none.
pub open spec fn quote_end(s: Seq<char>, i: int) -> int
    decreases chars_left(s, i),
{
    if !(0 <= i < s.len()) {
        s.len() as int
    } else if s[i] == '"' {
        i
    } else {
        quote_end(s, i + 1)
    }
}

/// The first newline at or after `i`, or the length when there is none.
pub open spec fn newline_end(s: Seq<char>, i: int) -> int
    decreases chars_left(s, i),
{
    if !(0 <= i < s.len()) {
        s.len() as int
    } else if s[i] == '\n' {
        i
    } else {
        newline_end(s, i + 1)
    }
}

/// How many newlines lie in `s[i..j]`.
pub open spec fn count_newlines(s: Seq<char>, i: int, j: int) -> int
    decreases j - i,
{
    if i < j {
        count_newlines(s, i, j - 1) + (if 0 <= j - 1 < s.len() && s[j - 1] == '\n' {
            1int
        } else {
            0int
        })
    } else {
        0
    }
}

/// The value of the digit run `s[i..j]`, most significant digit first.
pub open spec fn digits_value(s: Seq<char>, i: int, j: int) -> int
    decreases j - i,
{
    if i < j {
        digits_value(s, i, j - 1) * 10 + (if 0 <= j - 1 < s.len() {
            digit_val(s[j - 1])
        } else {
            0int
        })
    } else {
        0
    }
}

pub open spec fn pow10(n: nat) -> int
    decreases n,
{
    if n == 0 {
        1
    } else {
        10 * pow10((n - 1) as nat)
    }
}

/// Where the numeric literal that starts at `pos` ends: its digits, then one
/// `.` followed by more digits when such a fraction is present. A trailing
/// `.` with no digit after it is not part of the literal.
pub open spec fn num_end(s: Seq<char>, pos: int) -> int {
    let we = digits_end(s, pos);
    if we < s.len() && s[we] == '.' && we + 1 < s.len() && is_digit(s[we + 1]) {
        digits_end(s, we + 1)
    } else {
        we
    }
}

/// Whether the literal's whole part fits; larger literals are diagnostics.
pub open spec fn num_ok(s: Seq<char>, pos: int) -> bool {
    digits_value(s, pos, digits_end(s, pos)) < SCALE as int
}

/// The literal's value as a scaled mantissa: the whole part, plus the first
/// nine fraction digits (the rest are beyond the representable precision).
pub open spec fn num_mantissa(s: Seq<char>, pos: int) -> int {
    let we = digits_end(s, pos);
    let fe = num_end(s, pos);
    if fe == we {
        digits_value(s, pos, we) * (SCALE as int)
    } else {
        let take = if fe - (we + 1) < 9 {
            fe - (we + 1)
        } else {
            9int
        };
        digits_value(s, pos, we) * (SCALE as int) + digits_value(s, we + 1, we + 1 + take) * pow10(
            (9 - take) as nat,
        )
    }
}

/// The keyword a word stands for, or `Identifier` when it is none.
pub open spec fn keyword_kind(t: Seq<char>) -> TokenKind {
    if t == "class"@ {
        TokenKind::Class
    } else if t == "fun"@ {
        TokenKind::Fun
    } else if t == "var"@ {
        TokenKind::Var
    } else if t == "for"@ {
        TokenKind::For
    } else if t == "if"@ {
        TokenKind::If
    } else if t == "while"@ {
        TokenKind::While
    } else if t == "print"@ {
        TokenKind::Print
    } else if t == "return"@ {
        TokenKind::Return
    } else if t == "true"@ {
        TokenKind::True
    } else if t == "false"@ {
        TokenKind::False
    } else if t == "nil"@ {
        TokenKind::Nil
    } else {
        TokenKind::Identifier
    }
}

/// A token without a payload.
pub open spec fn tokv(kind: TokenKind, line: int) -> TokenV {
    TokenV { kind, line, num: 0, text: Seq::empty() }
}

/// What one scanning step produces: at most one token or one diagnostic, the
/// position after the step, and the line after it.
pub struct ScanStep {
    pub tok: Option<TokenV>,
    pub diag: Option<DiagV>,
    pub next: int,
    pub line2: int,
}

pub open spec fn step_tok(t: TokenV, next: int, line2: int) -> ScanStep {
    ScanStep { tok: Some(t), diag: None, next, line2 }
}

pub open spec fn step_skip(next: int, line2: int) -> ScanStep {
    ScanStep { tok: None, diag: None, next, line2 }
}

pub open spec fn step_diag(d: DiagV, next: int, line2: int) -> ScanStep {
    ScanStep { tok: None, diag: Some(d), next, line2 }
}

/// One scanning step at `pos` (which must be on a character): longest-match
/// lexing of one lexeme, or one skipped whitespace or comment run.
pub open spec fn spec_step(s: Seq<char>, pos: int, line: int) -> ScanStep
    recommends
        0 <= pos < s.len(),
{
    let c = s[pos];
    if c == '(' {
        step_tok(tokv(TokenKind::LeftParen, line), pos + 1, line)
    } else if c == ')' {
        step_tok(tokv(TokenKind::RightParen, line), pos + 1, line)
    } else if c == ',' {
        step_tok(tokv(TokenKind::Comma, line), pos + 1, line)
    } else if c == '.' {
        step_tok(tokv(TokenKind::Dot, line), pos + 1, line)
    } else if c == '-' {
        step_tok(tokv(TokenKind::Minus, line), pos + 1, line)
    } else if c == '+' {
        step_tok(tokv(TokenKind::Plus, line), pos + 1, line)
    } else if c == ';' {
        step_tok(tokv(TokenKind::Semicolon, line), pos + 1, line)
    } else if c == '*' {
        step_tok(tokv(TokenKind::Star, line), pos + 1, line)
    } else if c == '!' {
        if pos + 1 < s.len() && s[pos + 1] == '=' {
            step_tok(tokv(TokenKind::BangEqual, line), pos + 2, line)
        } else {
            step_tok(tokv(TokenKind::Bang, line), pos + 1, line)
        }
    } else if c == '=' {
        if pos + 1 < s.len() && s[pos + 1] == '=' {
            step_tok(tokv(TokenKind::EqualEqual, line), pos + 2, line)
        } else {
            step_tok(tokv(TokenKind::Equal, line), pos + 1, line)
        }
    } else if c == '<' {
        if pos + 1 < s.len() && s[pos + 1] == '=' {
            step_tok(tokv(TokenKind::LessEqual, line), pos + 2, line)
        } else {
            step_tok(tokv(TokenKind::Less, line), pos + 1, line)
        }
    } else if c == '>' {
        if pos + 1 < s.len() && s[pos + 1] == '=' {
            step_tok(tokv(TokenKind::GreaterEqual, line), pos + 2, line)
        } else {
            step_tok(tokv(TokenKind::Greater, line), pos + 1, line)
        }
    } else if c == '/' {
        if pos + 1 < s.len() && s[pos + 1] == '/' {
            step_skip(newline_end(s, pos + 2), line)
        } else {
            step_tok(tokv(TokenKind::Slash, line), pos + 1, line)
        }
    } else if c == ' ' || c == '\r' || c == '\t' {
        step_skip(pos + 1, line)
    } else if c == '\n' {
        step_skip(pos + 1, line + 1)
    } else if c == '"' {
        let qe = quote_end(s, pos + 1);
        let line2 = line + count_newlines(s, pos + 1, qe);
        if qe >= s.len() {
            step_diag(DiagV { line: line2, msg: unterminated_string_msg() }, s.len() as int, line2)
        } else {
            step_tok(
                TokenV { kind: TokenKind::Str, line: line2, num: 0, text: s.subrange(pos + 1, qe) },
                qe + 1,
                line2,
            )
        }
    } else if is_digit(c) {
        let fe = num_end(s, pos);
        if num_ok(s, pos) {
            step_tok(
                TokenV { kind: TokenKind::Number, line, num: num_mantissa(s, pos), text: Seq::empty() },
                fe,
                line,
            )
        } else {
            step_diag(DiagV { line, msg: number_too_large_msg() }, fe, line)
        }
    } else if is_alpha(c) {
        let ie = ident_end(s, pos);
        let text = s.subrange(pos, ie);
        step_tok(TokenV { kind: keyword_kind(text), line, num: 0, text }, ie, line)
    } else {
        step_diag(DiagV { line, msg: unexpected_character_msg() }, pos + 1, line)
    }
}

pub open spec fn eof_tokv(line: int) -> TokenV {
    tokv(TokenKind::Eof, line)
}

/// What scanning produces: the tokens in source order (ending with exactly
/// one end-of-input token) and the diagnostics in source order.
pub struct ScanOut {
    pub toks: Seq<TokenV>,
    pub diags: Seq<DiagV>,
}

pub open spec fn opt_prepend<T>(o: Option<T>, rest: Seq<T>) -> Seq<T> {
    match o {
        Some(x) => seq![x] + rest,
        None => rest,
    }
}

/// Scanning from `pos` on line `line` to the end of the source. The guard on
/// a step's reported position makes forward progress evident; every step
/// does move forward, so it changes nothing.
pub open spec fn spec_scan_at(s: Seq<char>, pos: int, line: int) -> ScanOut
    decreases chars_left(s, pos),
{
    if !(0 <= pos < s.len()) {
        ScanOut { toks: seq![eof_tokv(line)], diags: Seq::empty() }
    } else {
        let st = spec_step(s, pos, line);
        let nx = if st.next > pos {
            st.next
        } else {
            pos + 1
        };
        let rest = spec_scan_at(s, nx, st.line2);
        ScanOut { toks: opt_prepend(st.tok, rest.toks), diags: opt_prepend(st.diag, rest.diags) }
    }
}

/// The whole scan: all tokens and diagnostics of the source, starting on
/// line one.
pub open spec fn spec_scan(s: Seq<char>) -> ScanOut {
    spec_scan_at(s, 0, 1)
}

pub open spec fn tokens_view(ts: Seq<Token>) -> Seq<TokenV> {
    ts.map_values(|t: Token| t@)
}

/// Scanning from anywhere is terminated: it always yields at least one
/// token, the last one is the end-of-input token, and no token before the
/// last is one.
pub proof fn lemma_scan_at_terminated(s: Seq<char>, pos: int, line: int)
    ensures
        spec_scan_at(s, pos, line).toks.len() >= 1,
        spec_scan_at(s, pos, line).toks.last().kind == TokenKind::Eof,
        forall|i: int|
            0 <= i < spec_scan_at(s, pos, line).toks.len() - 1 ==> (#[trigger] spec_scan_at(
                s,
                pos,
                line,
            ).toks[i]).kind != TokenKind::Eof,
    decreases chars_left(s, pos),
{
    if 0 <= pos < s.len() {
        let st = spec_step(s, pos, line);
        let nx = if st.next > pos {
            st.next
        } else {
            pos + 1
        };
        lemma_scan_at_terminated(s, nx, st.line2);
        let rest = spec_scan_at(s, nx, st.line2).toks;
        match st.tok {
            Some(tv) => {
                assert(tv.kind != TokenKind::Eof);
                assert forall|i: int|
                    0 <= i < spec_scan_at(s, pos, line).toks.len() - 1 implies (
                #[trigger] spec_scan_at(s, pos, line).toks[i]).kind != TokenKind::Eof by {
                    if i > 0 {
                        assert(spec_scan_at(s, pos, line).toks[i] == rest[i - 1]);
                    }
                }
            },
            None => {},
        }
    }
}

/// The token sequence of a whole scan ends with an end-of-input token, and
/// exactly one closes the sequence, whatever the source held.
pub proof fn lemma_scan_terminated(s: Seq<char>)
    ensures
        spec_scan(s).toks.len() >= 1,
        spec_scan(s).toks.last().kind == TokenKind::Eof,
        forall|i: int|
            0 <= i < spec_scan(s).toks.len() - 1 ==> (#[trigger] spec_scan(s).toks[i]).kind
                != TokenKind::Eof,
{
    lemma_scan_at_terminated(s, 0, 1);
}

pub open spec fn diags_view(ds: Seq<Diagnostic>) -> Seq<DiagV> {
    ds.map_values(|d: Diagnostic| d@)
}

proof fn lemma_digits_end_bounds(s: Seq<char>, i: int)
    requires
        0 <= i <= s.len(),
    ensures
        i <= digits_end(s, i) <= s.len(),
        forall|k: int| i <= k < digits_end(s, i) ==> is_digit(s[k]),
    decreases s.len() - i,
{
    if i < s.len() && is_digit(s[i]) {
        lemma_digits_end_bounds(s, i + 1);
    }
}

proof fn lemma_ident_end_bounds(s: Seq<char>, i: int)
    requires
        0 <= i <= s.len(),
    ensures
        i <= ident_end(s, i) <= s.len(),
    decreases s.len() - i,
{
    if i < s.len() && is_alnum(s[i]) {
        lemma_ident_end_bounds(s, i + 1);
    }
}

proof fn lemma_pow10_pos(n: nat)
    ensures
        pow10(n) >= 1,
    decreases n,
{
    if n > 0 {
        lemma_pow10_pos((n - 1) as nat);
    }
}

/// A run of `k` digits has a value below `pow10(k)`.
proof fn lemma_digits_value_bound(s: Seq<char>, i: int, j: int)
    requires
        0 <= i <= j <= s.len(),
        forall|k: int| i <= k < j ==> is_digit(#[trigger] s[k]),
    ensures
        0 <= digits_value(s, i, j),
        digits_value(s, i, j) < pow10((j - i) as nat),
    decreases j - i,
{
    if i < j {
        lemma_digits_value_bound(s, i, j - 1);
        assert(is_digit(s[j - 1]));
        assert(pow10((j - i) as nat) == 10 * pow10((j - 1 - i) as nat));
    } else {
        lemma_pow10_pos(0);
    }
}

proof fn lemma_pow10_add(a: nat, b: nat)
    ensures
        pow10(a + b) == pow10(a) * pow10(b),
    decreases a,
{
    if a == 0 {
    } else {
        lemma_pow10_add((a - 1) as nat, b);
        assert(pow10((a - 1) as nat + b) == pow10((a - 1) as nat) * pow10(b));
        assert(10 * (pow10((a - 1) as nat) * pow10(b)) == (10 * pow10((a - 1) as nat)) * pow10(b))
            by (nonlinear_arith);
    }
}

fn exec_is_digit(c: char) -> (r: bool)
    ensures
        r == is_digit(c),
{
    '0' as u32 <= c as u32 && c as u32 <= '9' as u32
}

fn exec_is_alpha(c: char) -> (r: bool)
    ensures
        r == is_alpha(c),
{
    ('a' as u32 <= c as u32 && c as u32 <= 'z' as u32) || ('A' as u32 <= c as u32 && c as u32
        <= 'Z' as u32) || c == '_'
}

/// Walk to the end of a digit run.
#[verifier::loop_isolation(false)]
fn exec_digits_end(source: &str, from: usize, n: usize) -> (r: usize)
    requires
        n == source@.len(),
        from <= n,
    ensures
        r as int == digits_end(source@, from as int),
        from <= r <= n,
        forall|k: int| from <= k < r ==> is_digit(source@[k]),
    decreases n - from,
{
    let mut j = from;
    let mut done = false;
    while !done
        invariant
            from <= j <= n,
            digits_end(source@, from as int) == digits_end(source@, j as int),
            forall|k: int| from <= k < j ==> is_digit(source@[k]),
            done ==> digits_end(source@, j as int) == j as int,
        decreases n - j + (if done {
            0int
        } else {
            1int
        }),
    {
        if j < n {
            let c = source.get_char(j);
            if exec_is_digit(c) {
                j += 1;
            } else {
                done = true;
            }
        } else {
            done = true;
        }
    }
    j
}

/// Walk to the end of an identifier run.
#[verifier::loop_isolation(false)]
fn exec_ident_end(source: &str, from: usize, n: usize) -> (r: usize)
    requires
        n == source@.len(),
        from <= n,
    ensures
        r as int == ident_end(source@, from as int),
        from <= r <= n,
    decreases n - from,
{
    let mut j = from;
    let mut done = false;
    while !done
        invariant
            from <= j <= n,
            ident_end(source@, from as int) == ident_end(source@, j as int),
            done ==> ident_end(source@, j as int) == j as int,
        decreases n - j + (if done {
            0int
        } else {
            1int
        }),
    {
        if j < n {
            let c = source.get_char(j);
            if exec_is_alpha(c) || exec_is_digit(c) {
                j += 1;
            } else {
                done = true;
            }
        } else {
            done = true;
        }
    }
    j
}

/// Walk to the closing quote of a string literal (or the end of the source),
/// counting the newlines inside it.
#[verifier::loop_isolation(false)]
fn exec_string_end(source: &str, pos: usize, n: usize) -> (r: (usize, u64))
    requires
        n == source@.len(),
        pos < n,
    ensures
        r.0 as int == quote_end(source@, pos + 1),
        r.1 as int == count_newlines(source@, pos + 1, r.0 as int),
        pos + 1 <= r.0 <= n,
        r.1 <= r.0 - (pos + 1),
{
    let mut j = pos + 1;
    let mut nl: u64 = 0;
    let mut done = false;
    while !done
        invariant
            pos + 1 <= j <= n,
            quote_end(source@, pos + 1) == quote_end(source@, j as int),
            nl as int == count_newlines(source@, pos + 1, j as int),
            nl <= j - (pos + 1),
            done ==> quote_end(source@, j as int) == j as int || (j == n && quote_end(
                source@,
                j as int,
            ) == n),
        decreases n - j + (if done {
            0int
        } else {
            1int
        }),
    {
        if j < n {
            let c = source.get_char(j);
            if c == '"' {
                done = true;
            } else {
                if c == '\n' {
                    nl += 1;
                }
                j += 1;
            }
        } else {
            done = true;
        }
    }
    (j, nl)
}

/// One power of ten, up to the fractional precision.
fn exec_pow10(k: usize) -> (r: u64)
    requires
        k <= 9,
    ensures
        r as int == pow10(k as nat),
{
    proof {
        reveal_with_fuel(pow10, 10);
    }
    if k == 0 {
        1
    } else if k == 1 {
        10
    } else if k == 2 {
        100
    } else if k == 3 {
        1_000
    } else if k == 4 {
        10_000
    } else if k == 5 {
        100_000
    } else if k == 6 {
        1_000_000
    } else if k == 7 {
        10_000_000
    } else if k == 8 {
        100_000_000
    } else {
        1_000_000_000
    }
}

/// Scan a numeric literal: find its end, and compute its scaled mantissa
/// when its whole part is representable.
#[verifier::loop_isolation(false)]
#[verifier::rlimit(60)]
fn exec_scan_number(source: &str, pos: usize, n: usize) -> (r: (usize, u64, bool))
    requires
        n == source@.len(),
        pos < n,
        is_digit(source@[pos as int]),
    ensures
        r.0 as int == num_end(source@, pos as int),
        pos < r.0 <= n,
        r.2 == num_ok(source@, pos as int),
        r.2 ==> r.1 as int == num_mantissa(source@, pos as int) && r.1 < crate::decimal::MANT_LIMIT,
{
    let ghost s = source@;
    let we = exec_digits_end(source, pos, n);
    proof {
        assert(digits_end(s, pos as int) == digits_end(s, pos + 1));
        lemma_digits_end_bounds(s, pos + 1);
    }
    // The whole part, capped: once it can no longer stay below the scale,
    // only that fact matters.
    let mut w: u64 = 0;
    let mut too_big = false;
    let mut j = pos;
    while j < we
        invariant
            pos <= j <= we,
            !too_big ==> w as int == digits_value(s, pos as int, j as int) && w < SCALE,
            too_big ==> digits_value(s, pos as int, j as int) >= SCALE as int,
        decreases we - j,
    {
        let d = source.get_char(j) as u32 as u64 - 48;
        if too_big {
            proof {
                assert(digits_value(s, pos as int, j + 1) == digits_value(s, pos as int, j as int)
                    * 10 + digit_val(s[j as int]));
            }
        } else {
            let cand: u64 = w * 10 + d;
            if cand >= SCALE {
                too_big = true;
            } else {
                w = cand;
            }
        }
        j += 1;
    }
    // The fraction, when one is present.
    let has_frac = if we < n {
        if source.get_char(we) == '.' && we + 1 < n {
            exec_is_digit(source.get_char(we + 1))
        } else {
            false
        }
    } else {
        false
    };
    if !has_frac {
        if too_big {
            return (we, 0, false);
        }
        proof {
            assert((w as int) * (SCALE as int) < (SCALE as int) * (SCALE as int))
                by (nonlinear_arith)
                requires
                    0 <= w < SCALE,
            ;
        }
        return (we, w * SCALE, true);
    }
    let fe = exec_digits_end(source, we + 1, n);
    proof {
        assert(fe as int == num_end(s, pos as int));
    }
    if too_big {
        return (fe, 0, false);
    }
    let fb = we + 1;
    let take: usize = if fe - fb < 9 {
        fe - fb
    } else {
        9
    };
    let mut f: u64 = 0;
    let mut j2 = fb;
    while j2 < fb + take
        invariant
            fb <= j2 <= fb + take,
            take <= fe - fb,
            take <= 9,
            f as int == digits_value(s, fb as int, j2 as int),
            (f as int) < pow10((j2 - fb) as nat),
        decreases fb + take - j2,
    {
        let d = source.get_char(j2) as u32 as u64 - 48;
        proof {
            lemma_digits_value_bound(s, fb as int, j2 + 1);
            assert(f as int <= pow10((j2 - fb) as nat) - 1);
            reveal_with_fuel(pow10, 10);
            assert(pow10((j2 - fb) as nat) <= pow10(8)) by {
                lemma_pow10_monotone((j2 - fb) as nat, 8);
            }
        }
        f = f * 10 + d;
        j2 += 1;
    }
    let pad = exec_pow10(9 - take);
    proof {
        lemma_digits_value_bound(s, fb as int, fb + take);
        lemma_pow10_add(take as nat, (9 - take) as nat);
        reveal_with_fuel(pow10, 10);
        assert((f as int) * (pad as int) <= (pow10(take as nat) - 1) * pow10((9 - take) as nat))
            by (nonlinear_arith)
            requires
                0 <= f as int <= pow10(take as nat) - 1,
                pad as int == pow10((9 - take) as nat),
                pow10((9 - take) as nat) >= 1,
        ;
        assert((pow10(take as nat) - 1) * pow10((9 - take) as nat) == pow10(take as nat) * pow10(
            (9 - take) as nat,
        ) - pow10((9 - take) as nat)) by (nonlinear_arith);
        lemma_pow10_pos((9 - take) as nat);
        assert((w as int) * (SCALE as int) <= (SCALE as int - 1) * (SCALE as int))
            by (nonlinear_arith)
            requires
                0 <= w as int <= SCALE as int - 1,
        ;
    }
    let mant: u64 = w * SCALE + f * pad;
    (fe, mant, true)
}

proof fn lemma_pow10_monotone(a: nat, b: nat)
    requires
        a <= b,
    ensures
        pow10(a) <= pow10(b),
    decreases b,
{
    if a < b {
        lemma_pow10_monotone(a, (b - 1) as nat);
        lemma_pow10_pos((b - 1) as nat);
    }
}

/// Walk to the next newline (the end of a line comment).
#[verifier::loop_isolation(false)]
fn exec_newline_end(source: &str, from: usize, n: usize) -> (r: usize)
    requires
        n == source@.len(),
        from <= n,
    ensures
        r as int == newline_end(source@, from as int),
        from <= r <= n,
    decreases n - from,
{
    let mut j = from;
    let mut done = false;
    while !done
        invariant
            from <= j <= n,
            newline_end(source@, from as int) == newline_end(source@, j as int),
            done ==> newline_end(source@, j as int) == j as int || (j == n && newline_end(
                source@,
                j as int,
            ) == n),
        decreases n - j + (if done {
            0int
        } else {
            1int
        }),
    {
        if j < n {
            let c = source.get_char(j);
            if c == '\n' {
                done = true;
            } else {
                j += 1;
            }
        } else {
            done = true;
        }
    }
    j
}

/// Map a scanned word to its keyword kind, or to `Identifier`.
fn exec_ident_kind(t: &str) -> (k: TokenKind)
    ensures
        k == keyword_kind(t@),
{
    let ts = t.to_owned();
    if ts == String::from_str("class") {
        TokenKind::Class
    } else if ts == String::from_str("fun") {
        TokenKind::Fun
    } else if ts == String::from_str("var") {
        TokenKind::Var
    } else if ts == String::from_str("for") {
        TokenKind::For
    } else if ts == String::from_str("if") {
        TokenKind::If
    } else if ts == String::from_str("while") {
        TokenKind::While
    } else if ts == String::from_str("print") {
        TokenKind::Print
    } else if ts == String::from_str("return") {
        TokenKind::Return
    } else if ts == String::from_str("true") {
        TokenKind::True
    } else if ts == String::from_str("false") {
        TokenKind::False
    } else if ts == String::from_str("nil") {
        TokenKind::Nil
    } else {
        TokenKind::Identifier
    }
}

/// One executable scanning step: the token or diagnostic it yields, the
/// position after it, and the line after it.
#[verifier::loop_isolation(false)]
#[verifier::rlimit(60)]
fn exec_step(source: &str, pos: usize, n: usize, line: u64) -> (r: (
    Option<Token>,
    Option<Diagnostic>,
    usize,
    u64,
))
    requires
        n == source@.len(),
        n < usize::MAX,
        pos < n,
        line as int <= 1 + pos as int,
    ensures
        ({
            let st = spec_step(source@, pos as int, line as int);
            &&& r.2 as int == st.next
            &&& r.3 as int == st.line2
            &&& pos < r.2 <= n
            &&& r.3 as int <= 1 + r.2 as int
            &&& match (r.0, st.tok) {
                (Some(t), Some(tv)) => t@ == tv,
                (None, None) => true,
                _ => false,
            }
            &&& match (r.1, st.diag) {
                (Some(d), Some(dv)) => d@ == dv,
                (None, None) => true,
                _ => false,
            }
        }),
{
    let ghost s = source@;
    let ghost pos0 = pos as int;
    let c = source.get_char(pos);
    let step_token: Option<Token>;
    let step_diagnostic: Option<Diagnostic>;
    let next_pos: usize;
    let next_line: u64;
    if c == '(' {
        step_token = Some(
            Token { kind: TokenKind::LeftParen, line, num: 0, text: String::new() },
        );
        step_diagnostic = None;
        next_pos = pos + 1;
        next_line = line;
    } else if c == ')' {
        step_token = Some(
            Token { kind: TokenKind::RightParen, line, num: 0, text: String::new() },
        );
        step_diagnostic = None;
        next_pos = pos + 1;
        next_line = line;
    } else if c == ',' {
        step_token = Some(Token { kind: TokenKind::Comma, line, num: 0, text: String::new() });
        step_diagnostic = None;
        next_pos = pos + 1;
        next_line = line;
    } else if c == '.' {
        step_token = Some(Token { kind: TokenKind::Dot, line, num: 0, text: String::new() });
        step_diagnostic = None;
        next_pos = pos + 1;
        next_line = line;
    } else if c == '-' {
        step_token = Some(Token { kind: TokenKind::Minus, line, num: 0, text: String::new() });
        step_diagnostic = None;
        next_pos = pos + 1;
        next_line = line;
    } else if c == '+' {
        step_token = Some(Token { kind: TokenKind::Plus, line, num: 0, text: String::new() });
        step_diagnostic = None;
        next_pos = pos + 1;
        next_line = line;
    } else if c == ';' {
        step_token = Some(
            Token { kind: TokenKind::Semicolon, line, num: 0, text: String::new() },
        );
        step_diagnostic = None;
        next_pos = pos + 1;
        next_line = line;
    } else if c == '*' {
        step_token = Some(Token { kind: TokenKind::Star, line, num: 0, text: String::new() });
        step_diagnostic = None;
        next_pos = pos + 1;
        next_line = line;
    } else if c == '!' {
        let two = pos + 1 < n && source.get_char(pos + 1) == '=';
        let kind = if two {
            TokenKind::BangEqual
        } else {
            TokenKind::Bang
        };
        step_token = Some(Token { kind, line, num: 0, text: String::new() });
        step_diagnostic = None;
        next_pos = if two {
            pos + 2
        } else {
            pos + 1
        };
        next_line = line;
    } else if c == '=' {
        let two = pos + 1 < n && source.get_char(pos + 1) == '=';
        let kind = if two {
            TokenKind::EqualEqual
        } else {
            TokenKind::Equal
        };
        step_token = Some(Token { kind, line, num: 0, text: String::new() });
        step_diagnostic = None;
        next_pos = if two {
            pos + 2
        } else {
            pos + 1
        };
        next_line = line;
    } else if c == '<' {
        let two = pos + 1 < n && source.get_char(pos + 1) == '=';
        let kind = if two {
            TokenKind::LessEqual
        } else {
            TokenKind::Less
        };
        step_token = Some(Token { kind, line, num: 0, text: String::new() });
        step_diagnostic = None;
        next_pos = if two {
            pos + 2
        } else {
            pos + 1
        };
        next_line = line;
    } else if c == '>' {
        let two = pos + 1 < n && source.get_char(pos + 1) == '=';
        let kind = if two {
            TokenKind::GreaterEqual
        } else {
            TokenKind::Greater
        };
        step_token = Some(Token { kind, line, num: 0, text: String::new() });
        step_diagnostic = None;
        next_pos = if two {
            pos + 2
        } else {
            pos + 1
        };
        next_line = line;
    } else if c == '/' {
        let two = pos + 1 < n && source.get_char(pos + 1) == '/';
        if two {
            step_token = None;
            step_diagnostic = None;
            next_pos = exec_newline_end(source, pos + 2, n);
            next_line = line;
        } else {
            step_token = Some(
                Token { kind: TokenKind::Slash, line, num: 0, text: String::new() },
            );
            step_diagnostic = None;
            next_pos = pos + 1;
            next_line = line;
        }
    } else if c == ' ' || c == '\r' || c == '\t' {
        step_token = None;
        step_diagnostic = None;
        next_pos = pos + 1;
        next_line = line;
    } else if c == '\n' {
        step_token = None;
        step_diagnostic = None;
        next_pos = pos + 1;
        next_line = line + 1;
    } else if c == '"' {
        let scanned = exec_string_end(source, pos, n);
        let qe = scanned.0;
        let nl = scanned.1;
        let moved_line = line + nl;
        if qe >= n {
            step_token = None;
            step_diagnostic = Some(
                Diagnostic {
                    line: moved_line,
                    message: String::from_str("Unterminated string."),
                },
            );
            next_pos = n;
            next_line = moved_line;
        } else {
            let text = source.substring_char(pos + 1, qe).to_owned();
            step_token = Some(Token { kind: TokenKind::Str, line: moved_line, num: 0, text });
            step_diagnostic = None;
            next_pos = qe + 1;
            next_line = moved_line;
        }
    } else if exec_is_digit(c) {
        let scanned = exec_scan_number(source, pos, n);
        if scanned.2 {
            step_token = Some(
                Token { kind: TokenKind::Number, line, num: scanned.1, text: String::new() },
            );
            step_diagnostic = None;
        } else {
            step_token = None;
            step_diagnostic = Some(
                Diagnostic { line, message: String::from_str("Number literal too large.") },
            );
        }
        next_pos = scanned.0;
        next_line = line;
    } else if exec_is_alpha(c) {
        let ie = exec_ident_end(source, pos, n);
        proof {
            assert(ident_end(s, pos0) == ident_end(s, pos0 + 1));
            lemma_ident_end_bounds(s, pos0 + 1);
        }
        let word = source.substring_char(pos, ie);
        let kind = exec_ident_kind(word);
        step_token = Some(Token { kind, line, num: 0, text: word.to_owned() });
        step_diagnostic = None;
        next_pos = ie;
        next_line = line;
    } else {
        step_token = None;
        step_diagnostic = Some(
            Diagnostic { line, message: String::from_str("Unexpected character.") },
        );
        next_pos = pos + 1;
        next_line = line;
    }
    (step_token, step_diagnostic, next_pos, next_line)
}

/// Scan raw source text into tokens. Lexical errors become diagnostics on
/// the side and scanning continues; exactly one end-of-input token closes
/// the sequence, whatever the source held.
#[verifier::loop_isolation(false)]
#[verifier::rlimit(100)]
pub fn scan(source: &str) -> (r: (Vec<Token>, Vec<Diagnostic>))
    requires
        source@.len() < usize::MAX,
    ensures
        tokens_view(r.0@) == spec_scan(source@).toks,
        diags_view(r.1@) == spec_scan(source@).diags,
{
    let ghost s = source@;
    let n = source.unicode_len();
    let mut tokens: Vec<Token> = Vec::new();
    let mut diags: Vec<Diagnostic> = Vec::new();
    let mut pos: usize = 0;
    let mut line: u64 = 1;
    proof {
        assert(tokens_view(tokens@) + spec_scan_at(s, 0, 1).toks =~= spec_scan_at(s, 0, 1).toks);
        assert(diags_view(diags@) + spec_scan_at(s, 0, 1).diags =~= spec_scan_at(s, 0, 1).diags);
    }
    while pos < n
        invariant
            n == s.len(),
            pos <= n,
            line as int <= 1 + pos as int,
            spec_scan(s).toks == tokens_view(tokens@) + spec_scan_at(
                s,
                pos as int,
                line as int,
            ).toks,
            spec_scan(s).diags == diags_view(diags@) + spec_scan_at(
                s,
                pos as int,
                line as int,
            ).diags,
        decreases n - pos,
    {
        let ghost pos0 = pos as int;
        let ghost line0 = line as int;
        let ghost toks0 = tokens@;
        let ghost dgs0 = diags@;
        let ghost st = spec_step(s, pos0, line0);
        let stepped = exec_step(source, pos, n, line);
        let step_token = stepped.0;
        let step_diagnostic = stepped.1;
        match step_token {
            Some(t) => {
                tokens.push(t);
                proof {
                    assert(tokens_view(tokens@) =~= tokens_view(toks0).push(st.tok.unwrap()));
                }
            },
            None => {},
        }
        match step_diagnostic {
            Some(d) => {
                diags.push(d);
                proof {
                    assert(diags_view(diags@) =~= diags_view(dgs0).push(st.diag.unwrap()));
                }
            },
            None => {},
        }
        pos = stepped.2;
        line = stepped.3;
        proof {
            let rest = spec_scan_at(s, st.next, st.line2);
            assert(spec_scan_at(s, pos0, line0).toks == opt_prepend(st.tok, rest.toks));
            assert(spec_scan_at(s, pos0, line0).diags == opt_prepend(st.diag, rest.diags));
            match st.tok {
                Some(tv) => {
                    assert(tokens_view(toks0) + (seq![tv] + rest.toks) =~= tokens_view(toks0).push(
                        tv,
                    ) + rest.toks);
                },
                None => {},
            }
            match st.diag {
                Some(dv) => {
                    assert(diags_view(dgs0) + (seq![dv] + rest.diags) =~= diags_view(dgs0).push(dv)
                        + rest.diags);
                },
                None => {},
            }
        }
    }
    let ghost toks_before = tokens@;
    tokens.push(Token { kind: TokenKind::Eof, line, num: 0, text: String::new() });
    proof {
        assert(spec_scan_at(s, pos as int, line as int).toks =~= seq![eof_tokv(line as int)]);
        assert(tokens_view(tokens@) =~= tokens_view(toks_before).push(eof_tokv(line as int)));
        assert(tokens_view(toks_before) + seq![eof_tokv(line as int)] =~= tokens_view(
            toks_before,
        ).push(eof_tokv(line as int)));
        assert(diags_view(diags@) + spec_scan_at(s, pos as int, line as int).diags =~= diags_view(
            diags@,
        ));
    }
    (tokens, diags)
}

} // verus!