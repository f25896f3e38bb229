use vstd::prelude::*;

verus! {

/// The classification of a lexical unit of the language.
#[derive(Clone, Copy, Debug, PartialEq, Eq, Structural)]
pub enum TokenType {
    If,
    Mut,
    While,
    Else,
    Function,
    Null,
    True,
    False,
    Fin,
    Alphanumeric,
    Number,
    CharArray,
    Plus,
    Minus,
    Multiply,
    Divide,
    Modulo,
    Equal,
    NotEqual,
    Less,
    LessEqual,
    Greater,
    GreaterEqual,
    And,
    Or,
    Increment,
    Decrement,
    Not,
    LPar,
    RPar,
    Dot,
    Comma,
    Colon,
    Assign,
    ExpressionEnd,
}

/// Which side of its operand a unary operator was written on.
#[derive(Clone, Copy, Debug, PartialEq, Eq, Structural)]
pub enum TokenSide {
    Left,
    Right,
}

/// A classified lexical unit with its text and zero-based source coordinates.
#[derive(Clone, Debug)]
pub struct Token {
    pub token_type: TokenType,
    pub value: String,
    pub line: u64,
    pub start: u64,
}

/// The mathematical value of a token.
pub struct TokenModel {
    pub token_type: TokenType,
    pub value: Seq<char>,
    pub line: int,
    pub start: int,
}

impl View for Token {
    type V = TokenModel;

    open spec fn view(&self) -> TokenModel {
        TokenModel {
            token_type: self.token_type,
            value: self.value@,
            line: self.line as int,
            start: self.start as int,
        }
    }
}

impl Token {
    pub fn is_type(&self, t: TokenType) -> (r: bool)
        ensures
            r == (self.token_type == t),
    {
        self.token_type == t
    }
}

/// Keywords that start a variable declaration.
pub open spec fn is_variable_assignment(t: TokenType) -> bool {
    t is Mut || t is Fin
}

/// Operators that may stand before or after an operand.
pub open spec fn is_unary_operator(t: TokenType) -> bool {
    t is Increment || t is Decrement || t is Not
}

/// Operators that join two operands.
pub open spec fn is_binary_operator(t: TokenType) -> bool {
    t is Plus || t is Minus || t is Multiply || t is Divide || t is Modulo || t is Equal
        || t is NotEqual || t is Less || t is LessEqual || t is Greater || t is GreaterEqual
        || t is And || t is Or
}

/// Tokens that can start a formula.
pub open spec fn is_formula_start(t: TokenType) -> bool {
    t is Alphanumeric || t is Number || t is CharArray || t is Null || t is True || t is False
        || is_unary_operator(t)
}

pub fn variable_assignment(t: TokenType) -> (r: bool)
    ensures
        r == is_variable_assignment(t),
{
    matches!(t, TokenType::Mut | TokenType::Fin)
}

pub fn unary_operator(t: TokenType) -> (r: bool)
    ensures
        r == is_unary_operator(t),
{
    matches!(t, TokenType::Increment | TokenType::Decrement | TokenType::Not)
}

pub fn binary_operator(t: TokenType) -> (r: bool)
    ensures
        r == is_binary_operator(t),
{
    matches!(
        t,
        TokenType::Plus | TokenType::Minus | TokenType::Multiply | TokenType::Divide
            | TokenType::Modulo | TokenType::Equal | TokenType::NotEqual | TokenType::Less
            | TokenType::LessEqual | TokenType::Greater | TokenType::GreaterEqual
            | TokenType::And | TokenType::Or
    )
}

pub fn formula_start(t: TokenType) -> (r: bool)
    ensures
        r == is_formula_start(t),
{
    matches!(
        t,
        TokenType::Alphanumeric | TokenType::Number | TokenType::CharArray | TokenType::Null
            | TokenType::True | TokenType::False | TokenType::Increment | TokenType::Decrement
            | TokenType::Not
    )
}

/// Every token type that can start a formula, in declaration order.
pub fn formula_tokens() -> (r: Vec<TokenType>)
    ensures
        forall|t: TokenType| r@.contains(t) <==> is_formula_start(t),
        r@.no_duplicates(),
        r@.len() == 9,
{
    let r = vec![
        TokenType::Alphanumeric,
        TokenType::Number,
        TokenType::CharArray,
        TokenType::Null,
        TokenType::True,
        TokenType::False,
        TokenType::Increment,
        TokenType::Decrement,
        TokenType::Not,
    ];
    proof {
        assert forall|t: TokenType| r@.contains(t) <==> is_formula_start(t) by {
            if is_formula_start(t) {
                match t {
                    TokenType::Alphanumeric => assert(r@[0] == t),
                    TokenType::Number => assert(r@[1] == t),
                    TokenType::CharArray => assert(r@[2] == t),
                    TokenType::Null => assert(r@[3] == t),
                    TokenType::True => assert(r@[4] == t),
                    TokenType::False => assert(r@[5] == t),
                    TokenType::Increment => assert(r@[6] == t),
                    TokenType::Decrement => assert(r@[7] == t),
                    TokenType::Not => assert(r@[8] == t),
                    _ => {},
                }
            }
        }
    }
    r
}

/// The keyword that a word spells, if any.
pub open spec fn keyword_of(w: Seq<char>) -> Option<TokenType> {
    if w =~= seq!['i', 'f'] {
        Some(TokenType::If)
    } else if w =~= seq!['m', 'u', 't'] {
        Some(TokenType::Mut)
    } else if w =~= seq!['w', 'h', 'i', 'l', 'e'] {
        Some(TokenType::While)
    } else if w =~= seq!['e', 'l', 's', 'e'] {
        Some(TokenType::Else)
    } else if w =~= seq!['f', 'u', 'n', 'c', 't', 'i', 'o', 'n'] {
        Some(TokenType::Function)
    } else if w =~= seq!['n', 'u', 'l', 'l'] {
        Some(TokenType::Null)
    } else if w =~= seq!['t', 'r', 'u', 'e'] {
        Some(TokenType::True)
    } else if w =~= seq!['f', 'a', 'l', 's', 'e'] {
        Some(TokenType::False)
    } else if w =~= seq!['f', 'i', 'n'] {
        Some(TokenType::Fin)
    } else {
        None
    }
}

/// True when `w` and `k` hold the same characters.
fn spells(w: &[char], k: &[char]) -> (r: bool)
    ensures
        r == (w@ =~= k@),
{
    if w.len() != k.len() {
        return false;
    }
    let mut i: usize = 0;
    while i < w.len()
        invariant
            w@.len() == k@.len(),
            0 <= i <= w@.len(),
            forall|j: int| 0 <= j < i ==> w@[j] == k@[j],
        decreases w@.len() - i,
    {
        if w[i] != k[i] {
            return false;
        }
        i = i + 1;
    }
    true
}

/// Looks up the keyword that a word spells.
pub fn keyword_type(w: &[char]) -> (r: Option<TokenType>)
    ensures
        r == keyword_of(w@),
{
    let kw_if = ['i', 'f'];
    let kw_mut = ['m', 'u', 't'];
    let kw_while = ['w', 'h', 'i', 'l', 'e'];
    let kw_else = ['e', 'l', 's', 'e'];
    let kw_function = ['f', 'u', 'n', 'c', 't', 'i', 'o', 'n'];
    let kw_null = ['n', 'u', 'l', 'l'];
    let kw_true = ['t', 'r', 'u', 'e'];
    let kw_false = ['f', 'a', 'l', 's', 'e'];
    let kw_fin = ['f', 'i', 'n'];
    if spells(w, &kw_if) {
        Some(TokenType::If)
    } else if spells(w, &kw_mut) {
        Some(TokenType::Mut)
    } else if spells(w, &kw_while) {
        Some(TokenType::While)
    } else if spells(w, &kw_else) {
        Some(TokenType::Else)
    } else if spells(w, &kw_function) {
        Some(TokenType::Function)
    } else if spells(w, &kw_null) {
        Some(TokenType::Null)
    } else if spells(w, &kw_true) {
        Some(TokenType::True)
    } else if spells(w, &kw_false) {
        Some(TokenType::False)
    } else if spells(w, &kw_fin) {
        Some(TokenType::Fin)
    } else {
        None
    }
}

/// The word by which diagnostics name a token type.
pub open spec fn token_word(t: TokenType) -> Seq<char> {
    match t {
        TokenType::If => "If"@,
        TokenType::Mut => "Mut"@,
        TokenType::While => "While"@,
        TokenType::Else => "Else"@,
        TokenType::Function => "Function"@,
        TokenType::Null => "Null"@,
        TokenType::True => "True"@,
        TokenType::False => "False"@,
        TokenType::Fin => "Fin"@,
        TokenType::Alphanumeric => "Alphanumeric"@,
        TokenType::Number => "Number"@,
        TokenType::CharArray => "CharArray"@,
        TokenType::Plus => "Plus"@,
        TokenType::Minus => "Minus"@,
        TokenType::Multiply => "Multiply"@,
        TokenType::Divide => "Divide"@,
        TokenType::Modulo => "Modulo"@,
        TokenType::Equal => "Equal"@,
        TokenType::NotEqual => "NotEqual"@,
        TokenType::Less => "Less"@,
        TokenType::LessEqual => "LessEqual"@,
        TokenType::Greater => "Greater"@,
        TokenType::GreaterEqual => "GreaterEqual"@,
        TokenType::And => "And"@,
        TokenType::Or => "Or"@,
        TokenType::Increment => "Increment"@,
        TokenType::Decrement => "Decrement"@,
        TokenType::Not => "Not"@,
        TokenType::LPar => "LPar"@,
        TokenType::RPar => "RPar"@,
        TokenType::Dot => "Dot"@,
        TokenType::Comma => "Comma"@,
        TokenType::Colon => "Colon"@,
        TokenType::Assign => "Assign"@,
        TokenType::ExpressionEnd => "ExpressionEnd"@,
    }
}

pub fn token_type_name(t: TokenType) -> (r: &'static str)
    ensures
        r@ == token_word(t),
{
    match t {
        TokenType::If => "If",
        TokenType::Mut => "Mut",
        TokenType::While => "While",
        TokenType::Else => "Else",
        TokenType::Function => "Function",
        TokenType::Null => "Null",
        TokenType::True => "True",
        TokenType::False => "False",
        TokenType::Fin => "Fin",
        TokenType::Alphanumeric => "Alphanumeric",
        TokenType::Number => "Number",
        TokenType::CharArray => "CharArray",
        TokenType::Plus => "Plus",
        TokenType::Minus => "Minus",
        TokenType::Multiply => "Multiply",
        TokenType::Divide => "Divide",
        TokenType::Modulo => "Modulo",
        TokenType::Equal => "Equal",
        TokenType::NotEqual => "NotEqual",
        TokenType::Less => "Less",
        TokenType::LessEqual => "LessEqual",
        TokenType::Greater => "Greater",
        TokenType::GreaterEqual => "GreaterEqual",
        TokenType::And => "And",
        TokenType::Or => "Or",
        TokenType::Increment => "Increment",
        TokenType::Decrement => "Decrement",
        TokenType::Not => "Not",
        TokenType::LPar => "LPar",
        TokenType::RPar => "RPar",
        TokenType::Dot => "Dot",
        TokenType::Comma => "Comma",
        TokenType::Colon => "Colon",
        TokenType::Assign => "Assign",
        TokenType::ExpressionEnd => "ExpressionEnd",
    }
}

} // verus!
