//! What lexing means: the tokens of a text as spec functions over its characters, and the
//! properties of lexing proved from them.
use vstd::prelude::*;

use crate::ast::NumberModel;
use crate::lexer::{lex_result_model, Operator, Token, TokenModel};

verus! {

pub open spec fn is_digit(c: char) -> bool {
    '0' <= c && c <= '9'
}

pub open spec fn is_ident_start(c: char) -> bool {
    ('a' <= c && c <= 'z') || ('A' <= c && c <= 'Z') || c == '_'
}

pub open spec fn is_ident_char(c: char) -> bool {
    is_ident_start(c) || is_digit(c)
}

pub open spec fn is_number_char(c: char) -> bool {
    is_digit(c) || c == '.'
}

pub open spec fn is_whitespace(c: char) -> bool {
    c == ' ' || c == '\n' || c == '\t'
}

/// The length of the run of identifier characters that starts at `j`.
pub open spec fn ident_run(s: Seq<char>, j: int) -> nat
    decreases s.len() - j,
{
    if 0 <= j < s.len() && is_ident_char(s[j]) {
        1 + ident_run(s, j + 1)
    } else {
        0
    }
}

/// The length of the run of digits and dots that starts at `j`.
pub open spec fn number_run(s: Seq<char>, j: int) -> nat
    decreases s.len() - j,
{
    if 0 <= j < s.len() && is_number_char(s[j]) {
        1 + number_run(s, j + 1)
    } else {
        0
    }
}

/// The value of a string of decimal digits.
pub open spec fn digits_value(d: Seq<char>) -> int
    decreases d.len(),
{
    if d.len() == 0 {
        0
    } else {
        digits_value(d.drop_last()) * 10 + (d.last() as int - '0' as int)
    }
}

pub open spec fn has_dot(lit: Seq<char>) -> bool {
    exists|a: int| 0 <= a < lit.len() && lit[a] == '.'
}

pub open spec fn has_two_dots(lit: Seq<char>) -> bool {
    exists|a: int, b: int| 0 <= a < b < lit.len() && lit[a] == '.' && lit[b] == '.'
}

/// The token that a run of digits and dots stands for: `None` where it holds two dots or an
/// integer too large for `i64`; a lone `.` is a `Period`.
pub open spec fn number_token(lit: Seq<char>) -> Option<TokenModel> {
    if has_two_dots(lit) {
        None
    } else if has_dot(lit) {
        if lit == seq!['.'] {
            Some(TokenModel::Period)
        } else {
            Some(TokenModel::Number(NumberModel::Float(lit)))
        }
    } else if digits_value(lit) <= i64::MAX {
        Some(TokenModel::Number(NumberModel::Int(digits_value(lit) as i64)))
    } else {
        None
    }
}

/// The character that `\c` stands for inside a string literal.
pub open spec fn escaped(c: char) -> Option<char> {
    if c == '"' {
        Some('"')
    } else if c == 'n' {
        Some('\n')
    } else if c == 'r' {
        Some('\r')
    } else if c == '\\' {
        Some('\\')
    } else {
        None
    }
}

/// Scans the body of a string literal from `j`, `acc` being the content read before `j`.
/// Gives the content and the number of characters consumed from `j` through the closing
/// quote, or `None` where the literal is unterminated or holds an unknown escape.
pub open spec fn string_scan(s: Seq<char>, j: int, acc: Seq<char>) -> Option<(Seq<char>, nat)>
    decreases s.len() - j,
{
    if j < 0 || j >= s.len() {
        None
    } else if s[j] == '"' {
        Some((acc, 1))
    } else if s[j] == '\\' {
        if j + 1 >= s.len() {
            None
        } else {
            match escaped(s[j + 1]) {
                Some(e) => offset(string_scan(s, j + 2, acc.push(e)), 2),
                None => None,
            }
        }
    } else {
        offset(string_scan(s, j + 1, acc.push(s[j])), 1)
    }
}

pub open spec fn offset(r: Option<(Seq<char>, nat)>, k: nat) -> Option<(Seq<char>, nat)> {
    match r {
        Some((c, n)) => Some((c, n + k)),
        None => None,
    }
}

/// The number of characters that a line comment takes from `j` through the newline that ends
/// it; a backslash makes the character after it part of the comment.
pub open spec fn line_comment_len(s: Seq<char>, j: int) -> nat
    decreases s.len() - j,
{
    if j < 0 || j >= s.len() {
        0
    } else if s[j] == '\n' {
        1
    } else if s[j] == '\\' {
        if j + 1 >= s.len() {
            1
        } else {
            2 + line_comment_len(s, j + 2)
        }
    } else {
        1 + line_comment_len(s, j + 1)
    }
}

/// The number of characters that a block comment takes from `j` through the first `*/`, or
/// to the end of the text where no `*/` follows.
pub open spec fn block_comment_len(s: Seq<char>, j: int) -> nat
    decreases s.len() - j,
{
    if j < 0 || j >= s.len() {
        0
    } else if s[j] == '*' && j + 1 < s.len() && s[j + 1] == '/' {
        2
    } else {
        1 + block_comment_len(s, j + 1)
    }
}

/// The token of a character that forms a token on its own.
pub open spec fn single_char_token(c: char) -> Option<TokenModel> {
    if c == '{' {
        Some(TokenModel::LBrace)
    } else if c == '}' {
        Some(TokenModel::RBrace)
    } else if c == '[' {
        Some(TokenModel::LSquareBracket)
    } else if c == ']' {
        Some(TokenModel::RSquareBracket)
    } else if c == '(' {
        Some(TokenModel::LParen)
    } else if c == ')' {
        Some(TokenModel::RParen)
    } else if c == ',' {
        Some(TokenModel::Comma)
    } else if c == ';' {
        Some(TokenModel::Semicolon)
    } else if c == '+' {
        Some(TokenModel::Operator(Operator::Add))
    } else if c == '-' {
        Some(TokenModel::Operator(Operator::Subtract))
    } else if c == '*' {
        Some(TokenModel::Operator(Operator::Asterisk))
    } else if c == '=' {
        Some(TokenModel::Operator(Operator::Assign))
    } else if c == '%' {
        Some(TokenModel::Operator(Operator::Modulo))
    } else {
        None
    }
}

pub open spec fn prepend(t: TokenModel, rest: Option<Seq<TokenModel>>) -> Option<
    Seq<TokenModel>,
> {
    prepend_all(seq![t], rest)
}

pub open spec fn prepend_all(ts: Seq<TokenModel>, rest: Option<Seq<TokenModel>>) -> Option<
    Seq<TokenModel>,
> {
    match rest {
        Some(r) => Some(ts + r),
        None => None,
    }
}

pub proof fn lemma_number_run_bound(s: Seq<char>, j: int)
    requires
        0 <= j <= s.len(),
    ensures
        j + number_run(s, j) <= s.len(),
    decreases s.len() - j,
{
    if j < s.len() {
        lemma_number_run_bound(s, j + 1);
    }
}

pub proof fn lemma_ident_run_bound(s: Seq<char>, j: int)
    requires
        0 <= j <= s.len(),
    ensures
        j + ident_run(s, j) <= s.len(),
    decreases s.len() - j,
{
    if j < s.len() {
        lemma_ident_run_bound(s, j + 1);
    }
}

pub proof fn lemma_block_comment_bound(s: Seq<char>, j: int)
    requires
        0 <= j <= s.len(),
    ensures
        j + block_comment_len(s, j) <= s.len(),
    decreases s.len() - j,
{
    if j < s.len() {
        lemma_block_comment_bound(s, j + 1);
    }
}

pub proof fn lemma_line_comment_bound(s: Seq<char>, j: int)
    requires
        0 <= j <= s.len(),
    ensures
        j + line_comment_len(s, j) <= s.len(),
    decreases s.len() - j,
{
    if j + 2 <= s.len() {
        lemma_line_comment_bound(s, j + 2);
    }
    if j < s.len() {
        lemma_line_comment_bound(s, j + 1);
    }
}

pub proof fn lemma_string_scan_bound(s: Seq<char>, j: int, acc: Seq<char>)
    requires
        0 <= j,
    ensures
        string_scan(s, j, acc) matches Some((_, n)) ==> j + n <= s.len(),
    decreases s.len() - j,
{
    if 0 <= j < s.len() && s[j] != '"' {
        if s[j] == '\\' {
            if j + 1 < s.len() {
                if let Some(e) = escaped(s[j + 1]) {
                    lemma_string_scan_bound(s, j + 2, acc.push(e));
                }
            }
        } else {
            lemma_string_scan_bound(s, j + 1, acc.push(s[j]));
        }
    }
}

/// The tokens of `s` from index `i` on, or `None` where lexing fails.
pub open spec fn lex_from(s: Seq<char>, i: int) -> Option<Seq<TokenModel>>
    decreases s.len() - i,
{
    if i < 0 || i >= s.len() {
        Some(Seq::empty())
    } else {
        let c = s[i];
        proof {
            lemma_number_run_bound(s, i + 1);
            lemma_ident_run_bound(s, i + 1);
            lemma_string_scan_bound(s, i + 1, Seq::empty());
            if i + 2 <= s.len() {
                lemma_block_comment_bound(s, i + 2);
                lemma_line_comment_bound(s, i + 2);
            }
        }
        if is_number_char(c) {
            let e = i + 1 + number_run(s, i + 1);
            match number_token(s.subrange(i, e)) {
                Some(t) => prepend(t, lex_from(s, e)),
                None => None,
            }
        } else if is_ident_start(c) {
            let e = i + 1 + ident_run(s, i + 1);
            prepend(TokenModel::Identifier(s.subrange(i, e)), lex_from(s, e))
        } else if c == '"' {
            match string_scan(s, i + 1, Seq::empty()) {
                Some((body, n)) => prepend(TokenModel::Str(body), lex_from(s, i + 1 + n)),
                None => None,
            }
        } else if is_whitespace(c) {
            lex_from(s, i + 1)
        } else if c == '/' {
            if i + 1 < s.len() && s[i + 1] == '*' {
                lex_from(s, i + 2 + block_comment_len(s, i + 2))
            } else if i + 1 < s.len() && s[i + 1] == '/' {
                lex_from(s, i + 2 + line_comment_len(s, i + 2))
            } else {
                prepend(TokenModel::Operator(Operator::Divide), lex_from(s, i + 1))
            }
        } else {
            match single_char_token(c) {
                Some(t) => prepend(t, lex_from(s, i + 1)),
                None => None,
            }
        }
    }
}

/// The tokens of `s`, or `None` where lexing fails.
pub open spec fn lexed(s: Seq<char>) -> Option<Seq<TokenModel>> {
    lex_from(s, 0)
}

pub proof fn lemma_digits_value_step(d: Seq<char>, k: int)
    requires
        0 <= k < d.len(),
    ensures
        digits_value(d.subrange(0, k + 1)) == digits_value(d.subrange(0, k)) * 10 + (d[k] as int
            - '0' as int),
{
    assert(d.subrange(0, k + 1).drop_last() =~= d.subrange(0, k));
}

pub proof fn lemma_digits_value_prefix(d: Seq<char>, k: int)
    requires
        0 <= k <= d.len(),
        forall|x: int| 0 <= x < d.len() ==> is_digit(#[trigger] d[x]),
    ensures
        0 <= digits_value(d.subrange(0, k)) <= digits_value(d),
    decreases d.len(),
{
    if d.len() > 0 {
        let e = d.drop_last();
        if k == d.len() {
            assert(d.subrange(0, k) =~= d);
            lemma_digits_value_prefix(e, e.len() as int);
            assert(e.subrange(0, e.len() as int) =~= e);
        } else {
            lemma_digits_value_prefix(e, k);
            assert(e.subrange(0, k) =~= d.subrange(0, k));
            lemma_digits_value_prefix(e, e.len() as int);
            assert(e.subrange(0, e.len() as int) =~= e);
        }
    } else {
        assert(d.subrange(0, k) =~= d);
    }
}

/// The token of one of `,`, `(` and `{`.
pub open spec fn punct_token(c: char) -> TokenModel {
    if c == ',' {
        TokenModel::Comma
    } else if c == '(' {
        TokenModel::LParen
    } else {
        TokenModel::LBrace
    }
}

/// The tokens of a text made of `,`, `(`, `{` and spaces: one per non-space character.
pub open spec fn punct_tokens(s: Seq<char>) -> Seq<TokenModel>
    decreases s.len(),
{
    if s.len() == 0 {
        Seq::empty()
    } else if s[0] == ' ' {
        punct_tokens(s.drop_first())
    } else {
        seq![punct_token(s[0])] + punct_tokens(s.drop_first())
    }
}

proof fn lemma_punct_from(s: Seq<char>, i: int)
    requires
        0 <= i <= s.len(),
        forall|k: int| 0 <= k < s.len() ==> #[trigger] s[k] == ',' || s[k] == '(' || s[k] == '{' || s[k] == ' ',
    ensures
        lex_from(s, i) == Some(punct_tokens(s.subrange(i, s.len() as int))),
    decreases s.len() - i,
{
    let t = s.subrange(i, s.len() as int);
    if i < s.len() {
        lemma_punct_from(s, i + 1);
        assert(t.drop_first() =~= s.subrange(i + 1, s.len() as int));
        assert(t[0] == s[i]);
        let c = s[i];
        assert(c == ',' || c == '(' || c == '{' || c == ' ');
    } else {
        assert(t.len() == 0);
    }
}

/// A text made only of `,`, `(`, `{` and spaces lexes to `Comma`, `LParen` and `LBrace`
/// tokens, one for each of those characters, in order.
pub proof fn lex_punctuation(s: Seq<char>)
    requires
        forall|k: int| 0 <= k < s.len() ==> #[trigger] s[k] == ',' || s[k] == '(' || s[k] == '{' || s[k] == ' ',
    ensures
        lexed(s) == Some(punct_tokens(s)),
{
    lemma_punct_from(s, 0);
    assert(s.subrange(0, s.len() as int) =~= s);
}

proof fn lemma_number_run_digits(s: Seq<char>, j: int)
    requires
        0 <= j <= s.len(),
        forall|k: int| 0 <= k < s.len() ==> is_digit(#[trigger] s[k]),
    ensures
        number_run(s, j) == s.len() - j,
    decreases s.len() - j,
{
    if j < s.len() {
        lemma_number_run_digits(s, j + 1);
    }
}

/// A non-empty run of digits lexes to one integer token holding its decimal value (leading
/// zeros add nothing), where that value fits in `i64`.
pub proof fn lex_digits(s: Seq<char>)
    requires
        s.len() > 0,
        forall|k: int| 0 <= k < s.len() ==> is_digit(#[trigger] s[k]),
        digits_value(s) <= i64::MAX,
    ensures
        lexed(s) == Some(seq![TokenModel::Number(NumberModel::Int(digits_value(s) as i64))]),
{
    lemma_number_run_digits(s, 1);
    assert(is_digit(s[0]));
    let lit = s.subrange(0, s.len() as int);
    assert(lit =~= s);
    assert(!has_dot(lit)) by {
        if has_dot(lit) {
            let a = choose|a: int| 0 <= a < lit.len() && lit[a] == '.';
            assert(is_digit(s[a]));
        }
    }
    assert(!has_two_dots(lit)) by {
        if has_two_dots(lit) {
            let (a, b) = choose|a: int, b: int|
                0 <= a < b < lit.len() && lit[a] == '.' && lit[b] == '.';
            assert(is_digit(s[a]));
        }
    }
    lemma_digits_value_prefix(s, 0);
    assert(s.subrange(0, 0) =~= Seq::<char>::empty());
    let t = TokenModel::Number(NumberModel::Int(digits_value(s) as i64));
    assert(number_token(lit) == Some(t));
    assert(lex_from(s, s.len() as int) == Some(Seq::<TokenModel>::empty()));
    assert(seq![t] + Seq::<TokenModel>::empty() =~= seq![t]);
    assert(lex_from(s, 0) == prepend(t, lex_from(s, s.len() as int)));
}

/// How a character is written inside a string literal.
pub open spec fn escape_char(c: char) -> Seq<char> {
    if c == '"' {
        seq!['\\', '"']
    } else if c == '\n' {
        seq!['\\', 'n']
    } else if c == '\r' {
        seq!['\\', 'r']
    } else if c == '\\' {
        seq!['\\', '\\']
    } else {
        seq![c]
    }
}

/// How a text is written between the quotes of a string literal.
pub open spec fn escape(content: Seq<char>) -> Seq<char>
    decreases content.len(),
{
    if content.len() == 0 {
        Seq::empty()
    } else {
        escape_char(content[0]) + escape(content.drop_first())
    }
}

/// The string literal that spells `content`.
pub open spec fn render_string(content: Seq<char>) -> Seq<char> {
    seq!['"'] + escape(content) + seq!['"']
}

proof fn lemma_scan_escaped(s: Seq<char>, j: int, content: Seq<char>, acc: Seq<char>)
    requires
        0 <= j,
        j + escape(content).len() + 1 <= s.len(),
        s.subrange(j, j + escape(content).len() + 1) == escape(content).push('"'),
    ensures
        string_scan(s, j, acc) == Some((acc + content, (escape(content).len() + 1) as nat)),
    decreases content.len(),
{
    let e = escape(content);
    if content.len() == 0 {
        assert(s[j] == s.subrange(j, j + 1)[0]);
        assert(acc + content =~= acc);
    } else {
        let c = content[0];
        let tail = content.drop_first();
        let ec = escape_char(c);
        let et = escape(tail);
        assert(e == ec + et);
        assert(s.subrange(j, j + e.len() + 1) == ec + et.push('"')) by {
            assert(e.push('"') =~= ec + et.push('"'));
        }
        assert(s.subrange(j + ec.len(), j + ec.len() + et.len() + 1) =~= et.push('"')) by {
            let whole = s.subrange(j, j + e.len() + 1);
            assert forall|k: int| 0 <= k < et.len() + 1 implies #[trigger] s.subrange(
                j + ec.len(),
                j + ec.len() + et.len() + 1,
            )[k] == et.push('"')[k] by {
                assert(whole[ec.len() + k] == (ec + et.push('"'))[ec.len() + k]);
            }
        }
        assert(s[j] == s.subrange(j, j + e.len() + 1)[0]);
        assert((acc + content) =~= acc.push(c) + tail);
        if c == '"' || c == '\n' || c == '\r' || c == '\\' {
            assert(s[j + 1] == s.subrange(j, j + e.len() + 1)[1]);
            lemma_scan_escaped(s, j + 2, tail, acc.push(c));
        } else {
            lemma_scan_escaped(s, j + 1, tail, acc.push(c));
        }
    }
}

/// Writing a text as a string literal, escaping `"`, newline, carriage return and `\`, and
/// lexing the literal gives back one string token holding exactly that text.
pub proof fn lex_rendered_string(content: Seq<char>)
    ensures
        lexed(render_string(content)) == Some(seq![TokenModel::Str(content)]),
{
    let s = render_string(content);
    let e = escape(content);
    assert(s.subrange(1, 1 + e.len() + 1 as int) =~= e.push('"'));
    lemma_scan_escaped(s, 1, content, Seq::empty());
    assert(Seq::<char>::empty() + content =~= content);
    assert(s[0] == '"');
    let t = TokenModel::Str(content);
    assert(s.len() == e.len() + 2);
    assert(lex_from(s, s.len() as int) == Some(Seq::<TokenModel>::empty()));
    assert(seq![t] + Seq::<TokenModel>::empty() =~= seq![t]);
    assert(lex_from(s, 0) == prepend(t, lex_from(s, s.len() as int)));
}

proof fn lemma_scan_unterminated(s: Seq<char>, j: int, acc: Seq<char>)
    requires
        0 <= j,
        forall|k: int| j <= k < s.len() ==> #[trigger] s[k] != '"' && s[k] != '\\',
    ensures
        string_scan(s, j, acc) is None,
    decreases s.len() - j,
{
    if j < s.len() {
        lemma_scan_unterminated(s, j + 1, acc.push(s[j]));
    }
}

/// A string literal that is never closed is an error, not a partial token.
pub proof fn lex_unterminated_string(body: Seq<char>)
    requires
        forall|k: int| 0 <= k < body.len() ==> #[trigger] body[k] != '"' && body[k] != '\\',
    ensures
        lexed(seq!['"'] + body) is None,
{
    let s = seq!['"'] + body;
    assert forall|k: int| 1 <= k < s.len() implies #[trigger] s[k] != '"' && s[k] != '\\' by {
        assert(s[k] == body[k - 1]);
    }
    lemma_scan_unterminated(s, 1, Seq::empty());
}

proof fn lemma_scan_bad_escape(s: Seq<char>, j: int, e: int, acc: Seq<char>)
    requires
        0 <= j <= e,
        e + 1 < s.len(),
        s[e] == '\\',
        escaped(s[e + 1]) is None,
        forall|k: int| j <= k < e ==> #[trigger] s[k] != '"' && s[k] != '\\',
    ensures
        string_scan(s, j, acc) is None,
    decreases e - j,
{
    if j < e {
        lemma_scan_bad_escape(s, j + 1, e, acc.push(s[j]));
    }
}

/// A string literal with an escape other than `\"`, `\n`, `\r` and `\\` is an error, whatever
/// follows it.
pub proof fn lex_bad_escape(body: Seq<char>, c: char, after: Seq<char>)
    requires
        forall|k: int| 0 <= k < body.len() ==> #[trigger] body[k] != '"' && body[k] != '\\',
        escaped(c) is None,
    ensures
        lexed(seq!['"'] + body + seq!['\\', c] + after) is None,
{
    let s = seq!['"'] + body + seq!['\\', c] + after;
    let e = 1 + body.len() as int;
    assert(s[e] == '\\' && s[e + 1] == c);
    assert forall|k: int| 1 <= k < e implies #[trigger] s[k] != '"' && s[k] != '\\' by {
        assert(s[k] == body[k - 1]);
    }
    lemma_scan_bad_escape(s, 1, e, Seq::empty());
}

/// Lexing is a function of the text alone: two lexes of one text give the same tokens, or
/// both fail.
pub proof fn relex_identical(s: Seq<char>, first: Result<Vec<Token>, String>, second: Result<Vec<Token>, String>)
    requires
        lex_result_model(first) == lexed(s),
        lex_result_model(second) == lexed(s),
    ensures
        lex_result_model(first) == lex_result_model(second),
{
}

} // verus!
