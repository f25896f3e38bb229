use vstd::prelude::*;
use vstd::slice::slice_subrange;
use vstd::std_specs::iter::IteratorSpec;
use crate::context::Context;
use crate::tokens::{keyword_of, keyword_type, Token, TokenModel, TokenType};

verus! {

/// A character that no token can start with, or an unterminated string
/// literal, at zero-based source coordinates.
#[derive(Clone, Copy, Debug, PartialEq, Eq, Structural)]
pub struct LexError {
    pub line: u64,
    pub start: u64,
}

/// The runs of characters that make up one token.
#[derive(Clone, Copy, Debug, PartialEq, Eq, Structural)]
pub enum CharClass {
    /// Letters, digits and `_`.
    Word,
    /// Decimal digits.
    Digit,
    /// Anything but `"` and a line break.
    StringBody,
}

pub open spec fn is_word_start(c: char) -> bool {
    ('a' <= c && c <= 'z') || ('A' <= c && c <= 'Z') || c == '_'
}

pub open spec fn is_digit(c: char) -> bool {
    '0' <= c && c <= '9'
}

pub open spec fn is_blank(c: char) -> bool {
    c == ' ' || c == '\t' || c == '\r'
}

pub open spec fn in_class(c: char, k: CharClass) -> bool {
    match k {
        CharClass::Word => is_word_start(c) || is_digit(c),
        CharClass::Digit => is_digit(c),
        CharClass::StringBody => c != '"' && c != '\n',
    }
}

/// The end of the run of class `k` that starts at `i`.
pub open spec fn run_end(s: Seq<char>, i: int, k: CharClass) -> int
    decreases s.len() - i,
{
    if 0 <= i < s.len() && in_class(s[i], k) {
        run_end(s, i + 1, k)
    } else {
        i
    }
}

/// The end of a number literal at `i`: digits, then a fraction if a digit
/// follows the `.`.
pub open spec fn number_end(s: Seq<char>, i: int) -> int {
    let e = run_end(s, i, CharClass::Digit);
    if e + 1 < s.len() && s[e] == '.' && is_digit(s[e + 1]) {
        run_end(s, e + 1, CharClass::Digit)
    } else {
        e
    }
}

/// The operator or punctuation at `i`, with its length; the longer form wins.
pub open spec fn operator_at(s: Seq<char>, i: int) -> Option<(TokenType, int)> {
    let n = s.len();
    let c = s[i];
    let next = if i + 1 < s.len() { s[i + 1] } else { ' ' };
    if c == '+' {
        if next == '+' { Some((TokenType::Increment, 2)) } else { Some((TokenType::Plus, 1)) }
    } else if c == '-' {
        if next == '-' { Some((TokenType::Decrement, 2)) } else { Some((TokenType::Minus, 1)) }
    } else if c == '*' {
        Some((TokenType::Multiply, 1))
    } else if c == '/' {
        Some((TokenType::Divide, 1))
    } else if c == '%' {
        Some((TokenType::Modulo, 1))
    } else if c == '=' {
        if next == '=' { Some((TokenType::Equal, 2)) } else { Some((TokenType::Assign, 1)) }
    } else if c == '!' {
        if next == '=' { Some((TokenType::NotEqual, 2)) } else { Some((TokenType::Not, 1)) }
    } else if c == '<' {
        if next == '=' { Some((TokenType::LessEqual, 2)) } else { Some((TokenType::Less, 1)) }
    } else if c == '>' {
        if next == '=' { Some((TokenType::GreaterEqual, 2)) } else { Some((TokenType::Greater, 1)) }
    } else if c == '&' {
        if next == '&' { Some((TokenType::And, 2)) } else { None }
    } else if c == '|' {
        if next == '|' { Some((TokenType::Or, 2)) } else { None }
    } else if c == '(' {
        Some((TokenType::LPar, 1))
    } else if c == ')' {
        Some((TokenType::RPar, 1))
    } else if c == '.' {
        Some((TokenType::Dot, 1))
    } else if c == ',' {
        Some((TokenType::Comma, 1))
    } else if c == ':' {
        Some((TokenType::Colon, 1))
    } else if c == ';' {
        Some((TokenType::ExpressionEnd, 1))
    } else {
        None
    }
}

/// The token that starts at `i`: its type, its text and where it ends.
pub open spec fn token_at(s: Seq<char>, i: int) -> Option<(TokenType, Seq<char>, int)> {
    let c = s[i];
    if is_word_start(c) {
        let e = run_end(s, i, CharClass::Word);
        let w = s.subrange(i, e);
        match keyword_of(w) {
            Some(k) => Some((k, w, e)),
            None => Some((TokenType::Alphanumeric, w, e)),
        }
    } else if is_digit(c) {
        let e = number_end(s, i);
        Some((TokenType::Number, s.subrange(i, e), e))
    } else if c == '"' {
        let e = run_end(s, i + 1, CharClass::StringBody);
        if e < s.len() && s[e] == '"' {
            Some((TokenType::CharArray, s.subrange(i + 1, e), e + 1))
        } else {
            None
        }
    } else {
        match operator_at(s, i) {
            Some((ty, k)) => Some((ty, s.subrange(i, i + k), i + k)),
            None => None,
        }
    }
}

/// The tokens from `i` on, at the given line and column, after `acc` were read.
/// A token always ends after it starts and within the text; the branch that
/// tests otherwise never applies and keeps the definition well-founded.
pub open spec fn scan(s: Seq<char>, i: int, line: int, col: int, acc: Seq<TokenModel>)
    -> Result<Seq<TokenModel>, (int, int)>
    decreases s.len() - i,
{
    if i < 0 || i >= s.len() {
        Ok(acc)
    } else if s[i] == '\n' {
        scan(s, i + 1, line + 1, 0, acc)
    } else if is_blank(s[i]) {
        scan(s, i + 1, line, col + 1, acc)
    } else {
        match token_at(s, i) {
            None => Err((line, col)),
            Some((ty, v, e)) => if e <= i || e > s.len() {
                Err((line, col))
            } else {
                scan(
                    s,
                    e,
                    line,
                    col + (e - i),
                    acc.push(TokenModel { token_type: ty, value: v, line, start: col }),
                )
            },
        }
    }
}

/// The token sequence that a source text spells, or where lexing fails.
pub open spec fn lex(s: Seq<char>) -> Result<Seq<TokenModel>, (int, int)> {
    scan(s, 0, 0, 0, Seq::empty())
}

pub open spec fn tokens_view(ts: Seq<Token>) -> Seq<TokenModel> {
    ts.map_values(|t: Token| t@)
}

proof fn lemma_run_end_bounds(s: Seq<char>, i: int, k: CharClass)
    requires
        0 <= i <= s.len(),
    ensures
        i <= run_end(s, i, k) <= s.len(),
    decreases s.len() - i,
{
    if i < s.len() && in_class(s[i], k) {
        lemma_run_end_bounds(s, i + 1, k);
    }
}

/// The characters of a text in order.
fn chars_of(s: &str) -> (r: Vec<char>)
    ensures
        r@ == s@,
{
    broadcast use vstd::string::axiom_spec_iter, vstd::string::next_postcondition;

    let mut it = s.chars();
    let mut r: Vec<char> = Vec::new();
    assert(it.remaining() == s@);
    loop
        invariant
            r@ + it.remaining() == s@,
            it.decrease() is Some,
        decreases it.decrease()->0,
    {
        let ghost before = it.remaining();
        match it.next() {
            Some(c) => {
                let ghost rb = r@;
                r.push(c);
                assert(r@ + it.remaining() =~= rb + before);
            },
            None => {
                assert(r@ + it.remaining() =~= r@);
                return r;
            },
        }
    }
}

/// Relies on `String: FromIterator<char>`: the string of the characters of `v` in order.
#[verifier::external_body]
fn string_of(v: &[char]) -> (r: String)
    ensures
        r@ == v@,
{
    v.iter().collect()
}

fn char_in_class(c: char, k: CharClass) -> (r: bool)
    ensures
        r == in_class(c, k),
{
    match k {
        CharClass::Word => ('a' <= c && c <= 'z') || ('A' <= c && c <= 'Z') || c == '_' || ('0' <= c
            && c <= '9'),
        CharClass::Digit => '0' <= c && c <= '9',
        CharClass::StringBody => c != '"' && c != '\n',
    }
}

fn find_run_end(s: &Vec<char>, i: usize, k: CharClass) -> (e: usize)
    requires
        i <= s@.len(),
    ensures
        e == run_end(s@, i as int, k),
        i <= e <= s@.len(),
{
    let mut j = i;
    proof {
        lemma_run_end_bounds(s@, i as int, k);
    }
    while j < s.len() && char_in_class(s[j], k)
        invariant
            i <= j <= s@.len(),
            run_end(s@, j as int, k) == run_end(s@, i as int, k),
        decreases s@.len() - j,
    {
        j = j + 1;
    }
    j
}

fn find_number_end(s: &Vec<char>, i: usize) -> (e: usize)
    requires
        i <= s@.len(),
    ensures
        e == number_end(s@, i as int),
        run_end(s@, i as int, CharClass::Digit) <= e <= s@.len(),
{
    let n = s.len();
    let e = find_run_end(s, i, CharClass::Digit);
    if e < n && s[e] == '.' && e + 1 < n && '0' <= s[e + 1] && s[e + 1] <= '9' {
        find_run_end(s, e + 1, CharClass::Digit)
    } else {
        e
    }
}

fn find_operator(s: &Vec<char>, i: usize) -> (r: Option<(TokenType, usize)>)
    requires
        i < s@.len(),
    ensures
        match r {
            Some((ty, k)) => operator_at(s@, i as int) == Some((ty, k as int)) && 1 <= k && i + k <= s@.len(),
            None => operator_at(s@, i as int) is None,
        },
{
    let n = s.len();
    let c = s[i];
    let next = if i + 1 < s.len() { s[i + 1] } else { ' ' };
    if c == '+' {
        if next == '+' { Some((TokenType::Increment, 2)) } else { Some((TokenType::Plus, 1)) }
    } else if c == '-' {
        if next == '-' { Some((TokenType::Decrement, 2)) } else { Some((TokenType::Minus, 1)) }
    } else if c == '*' {
        Some((TokenType::Multiply, 1))
    } else if c == '/' {
        Some((TokenType::Divide, 1))
    } else if c == '%' {
        Some((TokenType::Modulo, 1))
    } else if c == '=' {
        if next == '=' { Some((TokenType::Equal, 2)) } else { Some((TokenType::Assign, 1)) }
    } else if c == '!' {
        if next == '=' { Some((TokenType::NotEqual, 2)) } else { Some((TokenType::Not, 1)) }
    } else if c == '<' {
        if next == '=' { Some((TokenType::LessEqual, 2)) } else { Some((TokenType::Less, 1)) }
    } else if c == '>' {
        if next == '=' { Some((TokenType::GreaterEqual, 2)) } else { Some((TokenType::Greater, 1)) }
    } else if c == '&' {
        if next == '&' { Some((TokenType::And, 2)) } else { None }
    } else if c == '|' {
        if next == '|' { Some((TokenType::Or, 2)) } else { None }
    } else if c == '(' {
        Some((TokenType::LPar, 1))
    } else if c == ')' {
        Some((TokenType::RPar, 1))
    } else if c == '.' {
        Some((TokenType::Dot, 1))
    } else if c == ',' {
        Some((TokenType::Comma, 1))
    } else if c == ':' {
        Some((TokenType::Colon, 1))
    } else if c == ';' {
        Some((TokenType::ExpressionEnd, 1))
    } else {
        None
    }
}

/// Reads the token that starts at `i`: its type, the bounds of its text and
/// where it ends.
fn read_token(s: &Vec<char>, i: usize) -> (r: Option<(TokenType, usize, usize, usize)>)
    requires
        i < s@.len(),
    ensures
        match r {
            Some((ty, from, to, e)) => token_at(s@, i as int) == Some((ty, s@.subrange(from as int, to as int), e as int))
                && from <= to <= s@.len() && i < e <= s@.len(),
            None => token_at(s@, i as int) is None,
        },
{
    let n = s.len();
    let c = s[i];
    if ('a' <= c && c <= 'z') || ('A' <= c && c <= 'Z') || c == '_' {
        let e = find_run_end(s, i, CharClass::Word);
        proof {
            assert(run_end(s@, i as int, CharClass::Word) == run_end(s@, i + 1, CharClass::Word));
            lemma_run_end_bounds(s@, i + 1, CharClass::Word);
        }
        let word = slice_subrange(s.as_slice(), i, e);
        assert(word@ == s@.subrange(i as int, e as int));
        match keyword_type(word) {
            Some(k) => Some((k, i, e, e)),
            None => Some((TokenType::Alphanumeric, i, e, e)),
        }
    } else if '0' <= c && c <= '9' {
        let e = find_number_end(s, i);
        proof {
            assert(run_end(s@, i as int, CharClass::Digit) == run_end(s@, i + 1, CharClass::Digit));
            lemma_run_end_bounds(s@, i + 1, CharClass::Digit);
        }
        Some((TokenType::Number, i, e, e))
    } else if c == '"' {
        let e = find_run_end(s, i + 1, CharClass::StringBody);
        if e < s.len() && s[e] == '"' {
            Some((TokenType::CharArray, i + 1, e, e + 1))
        } else {
            None
        }
    } else {
        match find_operator(s, i) {
            Some((ty, k)) => Some((ty, i, i + k, i + k)),
            None => None,
        }
    }
}

/// Scans source text into tokens.
pub struct Lexer {
    code: Vec<char>,
    context: Context,
}

impl Lexer {
    pub closed spec fn code(&self) -> Seq<char> {
        self.code@
    }

    pub fn new(code: String) -> (r: Self)
        ensures
            r.code() == code@,
    {
        Lexer { code: chars_of(code.as_str()), context: Context::new() }
    }

    pub fn get_context(&mut self) -> (r: &mut Context)
        ensures
            final(self).code() == old(self).code(),
    {
        &mut self.context
    }

    /// Splits the source text into tokens, left to right, skipping blanks and
    /// line breaks.
    pub fn analyze(&self) -> (r: Result<Vec<Token>, LexError>)
        ensures
            match r {
                Ok(ts) => lex(self.code()) == Ok::<Seq<TokenModel>, (int, int)>(tokens_view(ts@)),
                Err(e) => lex(self.code()) == Err::<Seq<TokenModel>, (int, int)>((e.line as int, e.start as int)),
            },
    {
        let s = &self.code;
        assert(s@ == self.code());
        let n = s.len();
        let mut tokens: Vec<Token> = Vec::new();
        let mut i: usize = 0;
        let mut line: u64 = 0;
        let mut col: u64 = 0;
        assert(tokens_view(tokens@) =~= Seq::<TokenModel>::empty());
        while i < n
            invariant
                n == s@.len(),
                s@ == self.code(),
                i <= n,
                line <= i,
                col <= i,
                scan(s@, i as int, line as int, col as int, tokens_view(tokens@)) == lex(s@),
            decreases n - i,
        {
            let c = s[i];
            if c == '\n' {
                line = line + 1;
                col = 0;
                i = i + 1;
            } else if c == ' ' || c == '\t' || c == '\r' {
                col = col + 1;
                i = i + 1;
            } else {
                match read_token(s, i) {
                    None => {
                        assert(scan(s@, i as int, line as int, col as int, tokens_view(tokens@))
                            == Err::<Seq<TokenModel>, (int, int)>((line as int, col as int)));
                        let err = LexError { line, start: col };
                        return Err(err);
                    },
                    Some((ty, from, to, e)) => {
                        let value = string_of(slice_subrange(s.as_slice(), from, to));
                        let tok = Token { token_type: ty, value, line, start: col };
                        let ghost before = tokens@;
                        tokens.push(tok);
                        assert(tokens_view(tokens@) =~= tokens_view(before).push(tok@));
                        col = col + (e - i) as u64;
                        i = e;
                    },
                }
            }
        }
        Ok(tokens)
    }
}

} // verus!
