//! Tokens and the lexer that produces them from source text.
use vstd::prelude::*;

use crate::ast::{Number, NumberModel};
use crate::lexical::{
    block_comment_len, digits_value, escaped, has_dot, has_two_dots, ident_run, is_digit,
    is_ident_char, is_ident_start, is_number_char, lemma_block_comment_bound,
    lemma_digits_value_prefix, lemma_digits_value_step, lemma_ident_run_bound,
    lemma_line_comment_bound, lemma_number_run_bound, lemma_string_scan_bound, lex_from, lexed,
    line_comment_len, number_run, number_token, offset, prepend, prepend_all, single_char_token,
    string_scan,
};

verus! {

/// Operators. `Asterisk` stands for both multiplication and dereference; the parser decides.
#[derive(Clone, Copy, Debug, PartialEq, Eq, Structural)]
pub enum Operator {
    Asterisk,
    Add,
    Subtract,
    Divide,
    Modulo,
    And,
    Or,
    Assign,
    Reference,
}

/// The operator that a piece of C text spells, if any.
pub open spec fn operator_named(t: Seq<char>) -> Option<Operator> {
    if t == seq!['+'] {
        Some(Operator::Add)
    } else if t == seq!['-'] {
        Some(Operator::Subtract)
    } else if t == seq!['*'] {
        Some(Operator::Asterisk)
    } else if t == seq!['/'] {
        Some(Operator::Divide)
    } else if t == seq!['&', '&'] {
        Some(Operator::And)
    } else if t == seq!['|', '|'] {
        Some(Operator::Or)
    } else if t == seq!['='] {
        Some(Operator::Assign)
    } else {
        None
    }
}

impl Operator {
    /// Converts the C spelling of an operator, such as `"*"`, to the operator.
    pub fn from_str(s: &str) -> (r: Option<Operator>)
        ensures
            r == operator_named(s@),
    {
        let n = s.unicode_len();
        if n == 1 {
            let c = s.get_char(0);
            assert(s@ =~= seq![c]);
            if c == '+' {
                Some(Operator::Add)
            } else if c == '-' {
                Some(Operator::Subtract)
            } else if c == '*' {
                Some(Operator::Asterisk)
            } else if c == '/' {
                Some(Operator::Divide)
            } else if c == '=' {
                Some(Operator::Assign)
            } else {
                assert(s@ != seq!['+'] && s@ != seq!['-'] && s@ != seq!['*'] && s@ != seq!['/']
                    && s@ != seq!['='] && s@ != seq!['&', '&'] && s@ != seq!['|', '|']) by {
                    assert(s@[0] == c);
                    assert(s@.len() == 1);
                }
                None
            }
        } else if n == 2 {
            let c0 = s.get_char(0);
            let c1 = s.get_char(1);
            assert(s@ =~= seq![c0, c1]);
            if c0 == '&' && c1 == '&' {
                Some(Operator::And)
            } else if c0 == '|' && c1 == '|' {
                Some(Operator::Or)
            } else {
                assert(s@ != seq!['&', '&'] && s@ != seq!['|', '|']) by {
                    assert(s@[0] == c0 && s@[1] == c1);
                }
                None
            }
        } else {
            None
        }
    }
}

/// A lexical unit. Tokens carry no source position.
#[derive(Debug, PartialEq)]
pub enum Token {
    String(String),
    Character(char),
    Number(Number),
    Identifier(String),
    Operator(Operator),
    Comma,
    Period,
    Semicolon,
    LParen,
    RParen,
    LBrace,
    RBrace,
    LSquareBracket,
    RSquareBracket,
}

/// What a `Token` stands for.
pub enum TokenModel {
    Str(Seq<char>),
    Character(char),
    Number(NumberModel),
    Identifier(Seq<char>),
    Operator(Operator),
    Comma,
    Period,
    Semicolon,
    LParen,
    RParen,
    LBrace,
    RBrace,
    LSquareBracket,
    RSquareBracket,
}

impl View for Token {
    type V = TokenModel;

    open spec fn view(&self) -> TokenModel {
        match self {
            Token::String(s) => TokenModel::Str(s@),
            Token::Character(c) => TokenModel::Character(*c),
            Token::Number(n) => TokenModel::Number(n@),
            Token::Identifier(s) => TokenModel::Identifier(s@),
            Token::Operator(o) => TokenModel::Operator(*o),
            Token::Comma => TokenModel::Comma,
            Token::Period => TokenModel::Period,
            Token::Semicolon => TokenModel::Semicolon,
            Token::LParen => TokenModel::LParen,
            Token::RParen => TokenModel::RParen,
            Token::LBrace => TokenModel::LBrace,
            Token::RBrace => TokenModel::RBrace,
            Token::LSquareBracket => TokenModel::LSquareBracket,
            Token::RSquareBracket => TokenModel::RSquareBracket,
        }
    }
}

impl Clone for Token {
    fn clone(&self) -> (r: Token)
        ensures
            r == *self,
    {
        match self {
            Token::String(s) => Token::String(s.clone()),
            Token::Character(c) => Token::Character(*c),
            Token::Number(n) => Token::Number(n.clone()),
            Token::Identifier(s) => Token::Identifier(s.clone()),
            Token::Operator(o) => Token::Operator(*o),
            Token::Comma => Token::Comma,
            Token::Period => Token::Period,
            Token::Semicolon => Token::Semicolon,
            Token::LParen => Token::LParen,
            Token::RParen => Token::RParen,
            Token::LBrace => Token::LBrace,
            Token::RBrace => Token::RBrace,
            Token::LSquareBracket => Token::LSquareBracket,
            Token::RSquareBracket => Token::RSquareBracket,
        }
    }
}

/// The models of a sequence of tokens.
pub open spec fn tokens_model(ts: Seq<Token>) -> Seq<TokenModel> {
    ts.map_values(|t: Token| t@)
}

/// The model of a lex result: the token models, or `None` for an error.
pub open spec fn lex_result_model(r: Result<Vec<Token>, String>) -> Option<Seq<TokenModel>> {
    match r {
        Ok(ts) => Some(tokens_model(ts@)),
        Err(_) => None,
    }
}

/// Relies on `str::chars`: the characters of the string, in order.
#[verifier::external_body]
pub(crate) fn chars_of(s: &str) -> (r: Vec<char>)
    ensures
        r@ == s@,
{
    s.chars().collect()
}

/// Relies on `String::push`: appends one character to the end of the string.
#[verifier::external_body]
pub(crate) fn push_char(s: &mut String, c: char)
    ensures
        final(s)@ == old(s)@.push(c),
{
    s.push(c)
}

fn digit(c: char) -> (r: bool)
    ensures
        r == is_digit(c),
{
    '0' <= c && c <= '9'
}

fn ident_start(c: char) -> (r: bool)
    ensures
        r == is_ident_start(c),
{
    ('a' <= c && c <= 'z') || ('A' <= c && c <= 'Z') || c == '_'
}

fn ident_char(c: char) -> (r: bool)
    ensures
        r == is_ident_char(c),
{
    ident_start(c) || digit(c)
}

fn number_char(c: char) -> (r: bool)
    ensures
        r == is_number_char(c),
{
    digit(c) || c == '.'
}

/// The character after index `pos`, if there is one.
pub fn peek_at_next_char(chars: &Vec<char>, pos: usize) -> (r: Option<char>)
    ensures
        r == (if pos + 1 < chars@.len() {
            Some(chars@[pos + 1])
        } else {
            None
        }),
{
    if pos < chars.len() && pos + 1 < chars.len() {
        Some(chars[pos + 1])
    } else {
        None
    }
}

/// Scans an identifier that starts at `*pos`: the character there and the identifier
/// characters (letters, digits, `_`) that follow it. Leaves `*pos` just past the identifier.
pub fn identifier(chars: &Vec<char>, pos: &mut usize) -> (r: String)
    requires
        *old(pos) < chars@.len(),
    ensures
        *final(pos) == *old(pos) + 1 + ident_run(chars@, *old(pos) + 1),
        r@ == chars@.subrange(*old(pos) as int, *final(pos) as int),
{
    let start = *pos;
    let n = chars.len();
    let mut literal = String::new();
    push_char(&mut literal, chars[start]);
    let mut p = start + 1;
    assert(literal@ =~= chars@.subrange(start as int, p as int));
    while p < chars.len() && ident_char(chars[p])
        invariant
            start < p <= chars@.len(),
            literal@ == chars@.subrange(start as int, p as int),
            start + 1 + ident_run(chars@, start + 1) == p + ident_run(chars@, p as int),
        decreases chars@.len() - p,
    {
        push_char(&mut literal, chars[p]);
        p = p + 1;
        assert(literal@ =~= chars@.subrange(start as int, p as int));
    }
    *pos = p;
    literal
}

/// The value of the digits `chars[start..end]`, or `None` where it does not fit in `i64`.
fn digits_to_i64(chars: &Vec<char>, start: usize, end: usize) -> (r: Option<i64>)
    requires
        start <= end <= chars@.len(),
        forall|x: int| start <= x < end ==> is_digit(#[trigger] chars@[x]),
    ensures
        ({
            let v = digits_value(chars@.subrange(start as int, end as int));
            &&& v <= i64::MAX ==> r == Some(v as i64)
            &&& v > i64::MAX ==> r is None
        }),
{
    let ghost d = chars@.subrange(start as int, end as int);
    let mut v: i64 = 0;
    let mut k: usize = start;
    assert(d.subrange(0, 0) =~= Seq::<char>::empty());
    while k < end
        invariant
            start <= k <= end <= chars@.len(),
            d == chars@.subrange(start as int, end as int),
            forall|x: int| start <= x < end ==> is_digit(#[trigger] chars@[x]),
            0 <= v,
            v as int == digits_value(d.subrange(0, k - start)),
        decreases end - k,
    {
        let c = chars[k];
        let dv = (c as u32 - '0' as u32) as i64;
        assert(0 <= dv <= 9 && dv == c as int - '0' as int);
        proof {
            assert(d[k - start] == c);
            lemma_digits_value_step(d, k - start);
        }
        if v > 922337203685477580 || (v == 922337203685477580 && dv > 7) {
            proof {
                lemma_digits_value_prefix(d, k - start + 1);
                assert(d.subrange(0, d.len() as int) =~= d);
                assert(v * 10 + dv > i64::MAX) by (nonlinear_arith)
                    requires
                        v > 922337203685477580 || (v == 922337203685477580 && dv > 7),
                        0 <= dv,
                ;
            }
            return None;
        }
        assert(v * 10 + dv <= i64::MAX) by (nonlinear_arith)
            requires
                v <= 922337203685477580,
                v == 922337203685477580 ==> dv <= 7,
                0 <= dv <= 9,
        ;
        v = v * 10 + dv;
        k = k + 1;
    }
    assert(d.subrange(0, k - start) =~= d);
    Some(v)
}

/// Scans a numeric literal that starts at `*pos` (a digit or `.`): the run of digits and dots
/// there. A lone `.` gives `Period`, a run with one dot a float literal, a run of digits an
/// integer. Two dots, or an integer too large for `i64`, are an error. On success `*pos` is
/// left just past the literal.
pub fn number(chars: &Vec<char>, pos: &mut usize) -> (r: Result<Token, String>)
    requires
        *old(pos) < chars@.len(),
        is_number_char(chars@[*old(pos) as int]),
    ensures
        ({
            let i = *old(pos) as int;
            let e = i + 1 + number_run(chars@, i + 1);
            match number_token(chars@.subrange(i, e)) {
                Some(t) => r matches Ok(tok) && tok@ == t && *final(pos) == e,
                None => r is Err,
            }
        }),
{
    let ghost s = chars@;
    let start = *pos;
    let n = chars.len();
    let first = chars[start];
    let mut seen_decimal = first == '.';
    let mut literal = String::new();
    push_char(&mut literal, first);
    let mut p = start + 1;
    assert(literal@ =~= s.subrange(start as int, p as int));
    assert(literal@[0] == first);
    while p < n && number_char(chars[p])
        invariant
            n == s.len(),
            s == chars@,
            start == *old(pos),
            start < p <= n,
            literal@ == s.subrange(start as int, p as int),
            start + 1 + number_run(s, start + 1) == p + number_run(s, p as int),
            forall|x: int| start <= x < p ==> is_number_char(#[trigger] s[x]),
            seen_decimal == has_dot(literal@),
            !has_two_dots(literal@),
        decreases n - p,
    {
        let ch = chars[p];
        let ghost before = literal@;
        if ch == '.' {
            if seen_decimal {
                proof {
                    let a = choose|a: int| 0 <= a < before.len() && before[a] == '.';
                    let e = start + 1 + number_run(s, start + 1);
                    assert(number_run(s, p as int) >= 1);
                    lemma_number_run_bound(s, start + 1);
                    let lit = s.subrange(start as int, e);
                    assert(before[a] == s[start + a]);
                    assert(lit[a] == '.' && lit[p - start] == '.');
                    assert(has_two_dots(lit));
                }
                return Err("two decimals in numeric literal".to_string());
            }
            seen_decimal = true;
        }
        push_char(&mut literal, ch);
        p = p + 1;
        proof {
            assert(literal@ =~= s.subrange(start as int, p as int));
            assert(literal@ == before.push(ch));
            assert(literal@[before.len() as int] == ch);
            if has_dot(before) {
                let a = choose|a: int| 0 <= a < before.len() && before[a] == '.';
                assert(literal@[a] == '.');
            }
            if has_dot(literal@) {
                let a = choose|a: int| 0 <= a < literal@.len() && literal@[a] == '.';
                if a < before.len() {
                    assert(before[a] == '.');
                }
            }
            if has_two_dots(literal@) {
                let (a, b) = choose|a: int, b: int|
                    0 <= a < b < literal@.len() && literal@[a] == '.' && literal@[b] == '.';
                assert(before[a] == '.');
                if b < before.len() {
                    assert(before[b] == '.');
                }
            }
        }
    }
    *pos = p;
    if seen_decimal {
        if p - start == 1 {
            proof {
                let a = choose|a: int| 0 <= a < literal@.len() && literal@[a] == '.';
                assert(literal@ =~= seq!['.']);
            }
            return Ok(Token::Period);
        }
        assert(literal@ != seq!['.']) by {
            assert(literal@.len() != 1);
        }
        Ok(Token::Number(Number::Float(literal)))
    } else {
        proof {
            assert forall|x: int| start <= x < p implies is_digit(#[trigger] s[x]) by {
                assert(is_number_char(s[x]));
                assert(literal@[x - start] == s[x]);
            }
        }
        match digits_to_i64(chars, start, p) {
            Some(v) => Ok(Token::Number(Number::Int(v))),
            None => Err("integer literal too large".to_string()),
        }
    }
}

/// The character that `\c` stands for inside a string literal.
fn unescape(c: char) -> (r: Option<char>)
    ensures
        r == escaped(c),
{
    if c == '"' {
        Some('"')
    } else if c == 'n' {
        Some('\n')
    } else if c == 'r' {
        Some('\r')
    } else if c == '\\' {
        Some('\\')
    } else {
        None
    }
}

/// Scans a string literal whose opening quote is at `*pos`, resolving the escapes `\"`, `\n`,
/// `\r` and `\\`. An unterminated literal or another escape is an error. On success `*pos` is
/// left just past the closing quote.
pub fn string(chars: &Vec<char>, pos: &mut usize) -> (r: Result<String, String>)
    requires
        *old(pos) < chars@.len(),
    ensures
        match string_scan(chars@, *old(pos) + 1, Seq::empty()) {
            Some((body, n)) => r matches Ok(lit) && lit@ == body && *final(pos) == *old(pos) + 1
                + n,
            None => r is Err,
        },
{
    let ghost s = chars@;
    let start = *pos;
    let n = chars.len();
    let mut literal = String::new();
    let mut p = start + 1;
    loop
        invariant
            n == s.len(),
            s == chars@,
            start == *old(pos),
            start < p <= n,
            string_scan(s, start + 1, Seq::empty()) == offset(
                string_scan(s, p as int, literal@),
                (p - start - 1) as nat,
            ),
        decreases n - p,
    {
        if p >= n {
            assert(string_scan(s, p as int, literal@) is None);
            return Err("unterminated string literal".to_string());
        }
        let ch = chars[p];
        if ch == '"' {
            assert(string_scan(s, p as int, literal@) == Some((literal@, 1nat)));
            *pos = p + 1;
            return Ok(literal);
        } else if ch == '\\' {
            match peek_at_next_char(chars, p) {
                Some(c) => match unescape(c) {
                    Some(e) => {
                        push_char(&mut literal, e);
                        p = p + 2;
                    },
                    None => {
                        let mut msg = "unrecognized escape sequence \\".to_string();
                        push_char(&mut msg, c);
                        return Err(msg);
                    },
                },
                None => {
                    return Err("end of input inside string literal".to_string());
                },
            }
        } else {
            push_char(&mut literal, ch);
            p = p + 1;
        }
    }
}

/// Skips a block comment whose body starts at `j`: returns the index just past the first `*/`,
/// or the end of the text.
pub(crate) fn skip_block_comment(chars: &Vec<char>, j: usize) -> (r: usize)
    requires
        j <= chars@.len(),
    ensures
        r == j + block_comment_len(chars@, j as int),
        r <= chars@.len(),
{
    let n = chars.len();
    let mut p = j;
    proof {
        lemma_block_comment_bound(chars@, j as int);
    }
    while p < n && !(chars[p] == '*' && p + 1 < n && chars[p + 1] == '/')
        invariant
            n == chars@.len(),
            j <= p <= n,
            j + block_comment_len(chars@, j as int) == p + block_comment_len(chars@, p as int),
        decreases n - p,
    {
        p = p + 1;
    }
    if p < n {
        p + 2
    } else {
        p
    }
}

/// Skips a line comment whose body starts at `j`: returns the index just past the newline
/// that ends it, or the end of the text. A backslash takes the character after it into the
/// comment, so an escaped newline continues the comment.
fn skip_line_comment(chars: &Vec<char>, j: usize) -> (r: usize)
    requires
        j <= chars@.len(),
    ensures
        r == j + line_comment_len(chars@, j as int),
        r <= chars@.len(),
{
    let n = chars.len();
    let mut p = j;
    proof {
        lemma_line_comment_bound(chars@, j as int);
    }
    loop
        invariant
            n == chars@.len(),
            j <= p <= n,
            j + line_comment_len(chars@, j as int) == p + line_comment_len(chars@, p as int),
        decreases n - p,
    {
        if p >= n {
            return p;
        }
        let c = chars[p];
        if c == '\n' {
            return p + 1;
        } else if c == '\\' {
            if p + 1 >= n {
                return n;
            }
            p = p + 2;
        } else {
            p = p + 1;
        }
    }
}

/// The token of a character that forms a token on its own.
fn single_char(c: char) -> (r: Option<Token>)
    ensures
        match single_char_token(c) {
            Some(t) => r matches Some(tok) && tok@ == t,
            None => r is None,
        },
{
    if c == '{' {
        Some(Token::LBrace)
    } else if c == '}' {
        Some(Token::RBrace)
    } else if c == '[' {
        Some(Token::LSquareBracket)
    } else if c == ']' {
        Some(Token::RSquareBracket)
    } else if c == '(' {
        Some(Token::LParen)
    } else if c == ')' {
        Some(Token::RParen)
    } else if c == ',' {
        Some(Token::Comma)
    } else if c == ';' {
        Some(Token::Semicolon)
    } else if c == '+' {
        Some(Token::Operator(Operator::Add))
    } else if c == '-' {
        Some(Token::Operator(Operator::Subtract))
    } else if c == '*' {
        Some(Token::Operator(Operator::Asterisk))
    } else if c == '=' {
        Some(Token::Operator(Operator::Assign))
    } else if c == '%' {
        Some(Token::Operator(Operator::Modulo))
    } else {
        None
    }
}

proof fn lemma_prepend_push(ts: Seq<Token>, t: Token, rest: Option<Seq<TokenModel>>)
    ensures
        prepend_all(tokens_model(ts), prepend(t@, rest)) == prepend_all(
            tokens_model(ts.push(t)),
            rest,
        ),
{
    assert(tokens_model(ts.push(t)) =~= tokens_model(ts).push(t@));
    if let Some(r) = rest {
        assert(tokens_model(ts) + (seq![t@] + r) =~= tokens_model(ts).push(t@) + r);
    }
}

/// Converts source text to tokens, left to right. Whitespace and comments (`// ...` to the end
/// of the line, `/* ... */`) are skipped. Keywords are not special: they lex as identifiers.
/// The first malformed literal or unexpected character makes the whole result an error.
pub fn lex(s: &str) -> (r: Result<Vec<Token>, String>)
    ensures
        lex_result_model(r) == lexed(s@),
{
    let chars = chars_of(s);
    let n = chars.len();
    let mut tokens: Vec<Token> = Vec::new();
    let mut pos: usize = 0;
    while pos < n
        invariant
            n == chars@.len(),
            chars@ == s@,
            pos <= n,
            lexed(s@) == prepend_all(tokens_model(tokens@), lex_from(s@, pos as int)),
        decreases n - pos,
    {
        let ghost old_tokens = tokens@;
        let ghost sq = s@;
        let ch = chars[pos];
        proof {
            lemma_number_run_bound(sq, pos + 1);
            lemma_ident_run_bound(sq, pos + 1);
            lemma_string_scan_bound(sq, pos + 1, Seq::empty());
        }
        if number_char(ch) {
            let mut p = pos;
            match number(&chars, &mut p) {
                Ok(t) => {
                    proof {
                        lemma_prepend_push(old_tokens, t, lex_from(sq, p as int));
                    }
                    tokens.push(t);
                    pos = p;
                },
                Err(e) => {
                    return Err(e);
                },
            }
        } else if ident_start(ch) {
            let mut p = pos;
            let id = identifier(&chars, &mut p);
            let t = Token::Identifier(id);
            proof {
                lemma_prepend_push(old_tokens, t, lex_from(sq, p as int));
            }
            tokens.push(t);
            pos = p;
        } else if ch == '"' {
            let mut p = pos;
            match string(&chars, &mut p) {
                Ok(body) => {
                    let t = Token::String(body);
                    proof {
                        lemma_prepend_push(old_tokens, t, lex_from(sq, p as int));
                    }
                    tokens.push(t);
                    pos = p;
                },
                Err(e) => {
                    return Err(e);
                },
            }
        } else if ch == ' ' || ch == '\n' || ch == '\t' {
            pos = pos + 1;
        } else if ch == '/' {
            let next = peek_at_next_char(&chars, pos);
            if next == Some('*') {
                pos = skip_block_comment(&chars, pos + 2);
            } else if next == Some('/') {
                pos = skip_line_comment(&chars, pos + 2);
            } else {
                let t = Token::Operator(Operator::Divide);
                proof {
                    lemma_prepend_push(old_tokens, t, lex_from(sq, pos + 1));
                }
                tokens.push(t);
                pos = pos + 1;
            }
        } else {
            match single_char(ch) {
                Some(t) => {
                    proof {
                        lemma_prepend_push(old_tokens, t, lex_from(sq, pos + 1));
                    }
                    tokens.push(t);
                    pos = pos + 1;
                },
                None => {
                    let mut msg = "unexpected character ".to_string();
                    push_char(&mut msg, ch);
                    return Err(msg);
                },
            }
        }
    }
    assert(tokens_model(tokens@) + Seq::empty() =~= tokens_model(tokens@));
    Ok(tokens)
}

/// Same as `lex`: converts source text to tokens.
pub fn lex_str(s: &str) -> (r: Result<Vec<Token>, String>)
    ensures
        lex_result_model(r) == lexed(s@),
{
    lex(s)
}

} // verus!
