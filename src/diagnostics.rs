use vstd::prelude::*;
use vstd::string::StringExecFns;
use colored::Colorize;
use rand::seq::SliceRandom;
use crate::lexer::LexError;
use crate::parser::{SyntaxError, SyntaxErrorKind};
use crate::tokens::{formula_tokens, is_formula_start, token_type_name, token_word, TokenType};

verus! {

broadcast use vstd::seq_lib::group_to_multiset_ensures;

/// Why a source text could not be turned into a syntax tree.
#[derive(Clone, Copy, Debug, PartialEq, Eq, Structural)]
pub enum Diagnostic {
    Lex(LexError),
    Syntax(SyntaxError),
}

/// The text between the bright red and the reset terminal codes.
pub open spec fn bright_red_form(s: Seq<char>) -> Seq<char> {
    seq!['\u{1b}', '[', '9', '1', 'm'] + s + seq!['\u{1b}', '[', '0', 'm']
}

/// Relies on colored's `Colorize::bright_red` and the `Display` of its result:
/// the text as it is where colouring is switched off, else wrapped in the
/// bright red and reset codes (a text without escape characters is not
/// otherwise changed).
#[verifier::external_body]
fn bright_red(s: &str) -> (r: String)
    requires
        forall|i: int| 0 <= i < s@.len() ==> s@[i] != '\u{1b}',
    ensures
        r@ == s@ || r@ == bright_red_form(s@),
{
    s.bright_red().to_string()
}

/// Relies on rand's `SliceRandom::shuffle`, driven by `rand::thread_rng`: the
/// same token types, in an order that the generator picks (a Fisher-Yates
/// pass of swaps). `thread_rng` panics only where the operating system gives
/// it no seed.
#[verifier::external_body]
fn shuffled(v: Vec<TokenType>) -> (r: Vec<TokenType>)
    ensures
        r@.len() == v@.len(),
        r@.to_multiset() == v@.to_multiset(),
{
    let mut v = v;
    v.shuffle(&mut rand::thread_rng());
    v
}

/// The token types that a message names, and how many more it only counts:
/// up to four are all named in order; of more, three picked at random are
/// named and the rest counted.
pub fn named_alternatives(expected: Vec<TokenType>) -> (r: (Vec<TokenType>, usize))
    ensures
        expected@.len() <= 4 ==> r.0@ == expected@ && r.1 == 0,
        expected@.len() > 4 ==> r.0@.len() == 3 && r.1 == expected@.len() - 3
            && forall|i: int| 0 <= i < 3 ==> expected@.contains(#[trigger] r.0@[i]),
        expected@.len() > 4 && expected@.no_duplicates() ==> r.0@.no_duplicates(),
{
    let n = expected.len();
    if n <= 4 {
        return (expected, 0);
    }
    let ghost given = expected@;
    let mixed = shuffled(expected);
    let mut named: Vec<TokenType> = Vec::new();
    named.push(mixed[0]);
    named.push(mixed[1]);
    named.push(mixed[2]);
    proof {
        assert forall|i: int| 0 <= i < 3 implies given.contains(#[trigger] named@[i]) by {
            assert(mixed@.contains(mixed@[i]));
            assert(mixed@.to_multiset().count(mixed@[i]) > 0);
        }
        if given.no_duplicates() {
            given.lemma_multiset_has_no_duplicates();
            mixed@.lemma_multiset_has_no_duplicates_conv();
            assert(named@[0] == mixed@[0] && named@[1] == mixed@[1] && named@[2] == mixed@[2]);
        }
    }
    (named, n - 3)
}

/// A token type's word in single quotes.
pub open spec fn quoted_word(t: TokenType) -> Seq<char> {
    "'"@ + token_word(t) + "'"@
}

/// How a message names the alternatives when there are at most four of them.
pub open spec fn listed(e: Seq<TokenType>) -> Seq<char> {
    if e.len() == 0 {
        "void"@
    } else if e.len() == 1 {
        quoted_word(e[0]) + " is"@
    } else if e.len() == 2 {
        quoted_word(e[0]) + " or "@ + quoted_word(e[1]) + " are"@
    } else if e.len() == 3 {
        quoted_word(e[0]) + ", "@ + quoted_word(e[1]) + ", or "@ + quoted_word(e[2]) + " are"@
    } else {
        token_word(e[0]) + ", "@ + token_word(e[1]) + ", "@ + token_word(e[2]) + ", or "@ + token_word(e[3])
            + " are"@
    }
}

/// The start of how a message names three of many alternatives.
pub open spec fn three_of_many(a: TokenType, b: TokenType, c: TokenType) -> Seq<char> {
    quoted_word(a) + ", "@ + quoted_word(b) + ", "@ + quoted_word(c) + ", or one of "@
}

/// The digit that stands for `d`, below ten.
pub open spec fn digit_char(d: nat) -> char {
    if d == 0 { '0' } else if d == 1 { '1' } else if d == 2 { '2' } else if d == 3 { '3' }
    else if d == 4 { '4' } else if d == 5 { '5' } else if d == 6 { '6' } else if d == 7 { '7' }
    else if d == 8 { '8' } else { '9' }
}

/// The decimal digits of `n`, without leading zeros.
pub open spec fn dec(n: nat) -> Seq<char>
    decreases n,
{
    if n < 10 {
        seq![digit_char(n)]
    } else {
        dec(n / 10) + seq![digit_char(n % 10)]
    }
}

/// How a message names many alternatives: three of them, then how many others.
pub open spec fn many_listed(a: TokenType, b: TokenType, c: TokenType, others: nat) -> Seq<char> {
    three_of_many(a, b, c) + dec(others) + " other tokens are"@
}

fn quoted(t: TokenType) -> (r: String)
    ensures
        r@ == quoted_word(t),
{
    let mut s = String::from_str("'");
    s.append(token_type_name(t));
    s.append("'");
    s
}

fn digit_text(d: u128) -> (r: &'static str)
    requires
        d < 10,
    ensures
        r@ == seq![digit_char(d as nat)],
{
    proof {
        reveal_strlit("0");
        reveal_strlit("1");
        reveal_strlit("2");
        reveal_strlit("3");
        reveal_strlit("4");
        reveal_strlit("5");
        reveal_strlit("6");
        reveal_strlit("7");
        reveal_strlit("8");
        reveal_strlit("9");
    }
    if d == 0 { "0" } else if d == 1 { "1" } else if d == 2 { "2" } else if d == 3 { "3" }
    else if d == 4 { "4" } else if d == 5 { "5" } else if d == 6 { "6" } else if d == 7 { "7" }
    else if d == 8 { "8" } else { "9" }
}

/// `n` in decimal.
pub fn decimal(n: u128) -> (r: String)
    ensures
        r@ == dec(n as nat),
{
    let mut m = n;
    let mut r = String::new();
    while m >= 10
        invariant
            dec(n as nat) == dec(m as nat) + r@,
        decreases m,
    {
        let ghost before = r@;
        r = String::from_str(digit_text(m % 10)).concat(r.as_str());
        proof {
            assert(dec(m as nat) == dec((m / 10) as nat) + seq![digit_char((m % 10) as nat)]);
            assert(dec(m as nat) + before =~= dec((m / 10) as nat) + r@);
        }
        m = m / 10;
    }
    let ghost before = r@;
    let r = String::from_str(digit_text(m)).concat(r.as_str());
    assert(dec(m as nat) + before =~= r@);
    r
}

/// What a syntax error says was expected, as the words before "expected":
/// up to four alternatives are all listed; of more, three picked at random
/// are named and the rest counted.
pub fn describe_expected(expected: Vec<TokenType>) -> (r: String)
    ensures
        expected@.len() <= 4 ==> r@ == listed(expected@),
        expected@.len() > 4 ==> exists|a: TokenType, b: TokenType, c: TokenType|
            expected@.contains(a) && expected@.contains(b) && expected@.contains(c)
                && (expected@.no_duplicates() ==> a != b && b != c && a != c)
                && r@ == #[trigger] many_listed(a, b, c, (expected@.len() - 3) as nat),
{
    let ghost e = expected@;
    let (named, others) = named_alternatives(expected);
    let n = named.len();
    if n == 0 {
        String::from_str("void")
    } else if n == 1 {
        quoted(named[0]).concat(" is")
    } else if n == 2 {
        quoted(named[0]).concat(" or ").concat(quoted(named[1]).as_str()).concat(" are")
    } else if n == 3 && others == 0 {
        quoted(named[0]).concat(", ").concat(quoted(named[1]).as_str()).concat(", or ").concat(
            quoted(named[2]).as_str(),
        ).concat(" are")
    } else if n == 4 {
        String::from_str(token_type_name(named[0])).concat(", ").concat(token_type_name(named[1])).concat(
            ", ",
        ).concat(token_type_name(named[2])).concat(", or ").concat(token_type_name(named[3])).concat(
            " are",
        )
    } else {
        let head = quoted(named[0]).concat(", ").concat(quoted(named[1]).as_str()).concat(", ").concat(
            quoted(named[2]).as_str(),
        ).concat(", or one of ");
        let r = head.concat(decimal(others as u128).as_str()).concat(" other tokens are");
        proof {
            let t = three_of_many(named@[0], named@[1], named@[2]);
            assert(head@ =~= t);
            assert(r@ =~= many_listed(named@[0], named@[1], named@[2], (e.len() - 3) as nat));
            assert(e.contains(named@[0]) && e.contains(named@[1]) && e.contains(named@[2]));
            if e.no_duplicates() {
                assert(named@[0] != named@[1] && named@[1] != named@[2] && named@[0] != named@[2]);
            }
        }
        r
    }
}

/// The header of every diagnostic: `label` in bright red (or plain where
/// colouring is off), then a colon.
pub open spec fn is_header(h: Seq<char>, label: Seq<char>) -> bool {
    h == label + ": "@ || h == bright_red_form(label) + ": "@
}

fn header(label: &str) -> (r: String)
    requires
        forall|i: int| 0 <= i < label@.len() ==> label@[i] != '\u{1b}',
    ensures
        is_header(r@, label@),
{
    bright_red(label).concat(": ")
}

/// `source:line:column`, with the zero-based coordinates shown one-based.
pub open spec fn place_text(code_source: Seq<char>, line: u64, start: u64) -> Seq<char> {
    code_source + ":"@ + dec((line + 1) as nat) + ":"@ + dec((start + 1) as nat)
}

fn place(code_source: &str, line: u64, start: u64) -> (r: String)
    ensures
        r@ == place_text(code_source@, line, start),
{
    let r = String::from_str(code_source).concat(":").concat(decimal(line as u128 + 1).as_str()).concat(
        ":",
    ).concat(decimal(start as u128 + 1).as_str());
    assert(r@ =~= place_text(code_source@, line, start));
    r
}

/// What a syntax error of the given kind says, between its header and its
/// place, for every kind but a missing formula.
pub open spec fn description_text(kind: SyntaxErrorKind) -> Seq<char> {
    match kind {
        SyntaxErrorKind::Expected(t) => quoted_word(t) + " is"@ + " expected <-= "@,
        SyntaxErrorKind::ExpectedFormula => " expected <-= "@,
        SyntaxErrorKind::NotInContext(t) => token_word(t)
            + " hasn't been implemented yet or is not being considered in this context <-= at "@,
        SyntaxErrorKind::OperatorAlreadyUsed(t) => quoted_word(t) + " operator is already used <-= at "@,
        SyntaxErrorKind::PositionalAfterKeyword => "Positional argument follows keyword argument <-= at "@,
        SyntaxErrorKind::ArgumentTypeExpected => "Argument type is expected <-= "@,
        SyntaxErrorKind::ChildrenExpected => "Children expected <-= at "@,
        SyntaxErrorKind::EndOfInput => "Attempted to access a non-existent token <-= at "@,
    }
}

/// True when `d` is what a syntax error of the given kind says: for a missing
/// formula, three distinct formula starts picked at random and the count of
/// the other six.
pub open spec fn describes(kind: SyntaxErrorKind, d: Seq<char>) -> bool {
    if kind is ExpectedFormula {
        exists|a: TokenType, b: TokenType, c: TokenType|
            is_formula_start(a) && is_formula_start(b) && is_formula_start(c) && a != b && b != c
                && a != c && d == #[trigger] many_listed(a, b, c, 6) + " expected <-= "@
    } else {
        d == description_text(kind)
    }
}

/// How a syntax error's message is made: the header, the description, then
/// the one-based place.
pub open spec fn syntax_message_shape(m: Seq<char>, e: SyntaxError, code_source: Seq<char>) -> bool {
    exists|h: Seq<char>, d: Seq<char>|
        is_header(h, "Syntax Error"@) && describes(e.kind, d)
            && m == #[trigger] (h + d + place_text(code_source, e.line, e.start))
}

/// What a lexical error's message says between its header and its place.
pub open spec fn lex_description() -> Seq<char> {
    "unrecognized character or unterminated string <-= at "@
}

/// How a lexical error's message is made: the header, the description, then
/// the one-based place.
pub open spec fn lex_message_shape(m: Seq<char>, e: LexError, code_source: Seq<char>) -> bool {
    exists|h: Seq<char>|
        is_header(h, "Lexical Error"@)
            && m == #[trigger] (h + lex_description() + place_text(code_source, e.line, e.start))
}

impl SyntaxError {
    /// What this error says, between its header and its place.
    pub fn description(&self) -> (r: String)
        ensures
            describes(self.kind, r@),
    {
        match self.kind {
            SyntaxErrorKind::Expected(t) => {
                let mut v: Vec<TokenType> = Vec::new();
                v.push(t);
                let d = describe_expected(v);
                assert(v@[0] == t);
                d.concat(" expected <-= ")
            },
            SyntaxErrorKind::ExpectedFormula => {
                let all = formula_tokens();
                let ghost f = all@;
                let d = describe_expected(all);
                let r = d.concat(" expected <-= ");
                proof {
                    let (a, b, c) = choose|a: TokenType, b: TokenType, c: TokenType|
                        f.contains(a) && f.contains(b) && f.contains(c)
                            && (f.no_duplicates() ==> a != b && b != c && a != c)
                            && d@ == #[trigger] many_listed(a, b, c, (f.len() - 3) as nat);
                    assert(r@ == many_listed(a, b, c, 6) + " expected <-= "@);
                }
                r
            },
            SyntaxErrorKind::NotInContext(t) => String::from_str(token_type_name(t)).concat(
                " hasn't been implemented yet or is not being considered in this context <-= at ",
            ),
            SyntaxErrorKind::OperatorAlreadyUsed(t) => quoted(t).concat(" operator is already used <-= at "),
            SyntaxErrorKind::PositionalAfterKeyword => String::from_str(
                "Positional argument follows keyword argument <-= at ",
            ),
            SyntaxErrorKind::ArgumentTypeExpected => String::from_str("Argument type is expected <-= "),
            SyntaxErrorKind::ChildrenExpected => String::from_str("Children expected <-= at "),
            SyntaxErrorKind::EndOfInput => String::from_str("Attempted to access a non-existent token <-= at "),
        }
    }

    /// The message shown for this error, naming the source as `code_source`:
    /// the header, the description, then the one-based place.
    pub fn message(&self, code_source: &str) -> (r: String)
        ensures
            syntax_message_shape(r@, *self, code_source@),
    {
        proof {
            reveal_strlit("Syntax Error");
        }
        let h = header("Syntax Error");
        let d = self.description();
        let at = place(code_source, self.line, self.start);
        let r = h.concat(d.as_str()).concat(at.as_str());
        assert(r@ == h@ + d@ + place_text(code_source@, self.line, self.start));
        r
    }
}

impl LexError {
    /// The message shown for this error, naming the source as `code_source`.
    pub fn message(&self, code_source: &str) -> (r: String)
        ensures
            lex_message_shape(r@, *self, code_source@),
    {
        proof {
            reveal_strlit("Lexical Error");
        }
        let h = header("Lexical Error");
        let at = place(code_source, self.line, self.start);
        let r = h.concat("unrecognized character or unterminated string <-= at ").concat(at.as_str());
        assert(r@ == h@ + lex_description() + place_text(code_source@, self.line, self.start));
        r
    }
}

impl Diagnostic {
    /// The message shown for this diagnostic, naming the source as `code_source`.
    pub fn message(&self, code_source: &str) -> (r: String)
        ensures
            match self {
                Diagnostic::Lex(e) => lex_message_shape(r@, *e, code_source@),
                Diagnostic::Syntax(e) => syntax_message_shape(r@, *e, code_source@),
            },
    {
        match self {
            Diagnostic::Lex(e) => e.message(code_source),
            Diagnostic::Syntax(e) => e.message(code_source),
        }
    }
}

} // verus!
