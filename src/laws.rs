use vstd::prelude::*;
use crate::lexer::{is_word_start, lex, run_end, scan, token_at, CharClass};
use crate::parser::{
    err_at, is_prohibited, spec_expression, spec_formula, spec_identifiers, spec_paren, spec_params,
    spec_parse, spec_prefix, wrap_prefix, SyntaxError, SyntaxErrorKind,
};
use crate::ast::{Node, ParameterModel};
use crate::tokens::{
    is_binary_operator, is_formula_start, is_unary_operator, keyword_of, Token, TokenModel, TokenSide,
    TokenType,
};

verus! {

proof fn lemma_run_end_to_end(s: Seq<char>, i: int, k: CharClass)
    requires
        0 <= i <= s.len(),
        forall|j: int| i <= j < s.len() ==> crate::lexer::in_class(#[trigger] s[j], k),
    ensures
        run_end(s, i, k) == s.len(),
    decreases s.len() - i,
{
    if i < s.len() {
        lemma_run_end_to_end(s, i + 1, k);
    }
}

proof fn lemma_keyword_letters(w: Seq<char>)
    requires
        keyword_of(w) is Some,
    ensures
        w.len() > 0,
        forall|j: int| 0 <= j < w.len() ==> 'a' <= #[trigger] w[j] && w[j] <= 'z',
{
}

/// A keyword written alone lexes to exactly one token: that keyword, with its
/// own text, at the start of the first line.
pub proof fn lemma_keyword_lexes_alone(w: Seq<char>)
    requires
        keyword_of(w) is Some,
    ensures
        lex(w) == Ok::<Seq<TokenModel>, (int, int)>(
            seq![TokenModel { token_type: keyword_of(w)->Some_0, value: w, line: 0, start: 0 }],
        ),
{
    lemma_keyword_letters(w);
    assert(forall|j: int| 0 <= j < w.len() ==> crate::lexer::in_class(#[trigger] w[j], CharClass::Word));
    lemma_run_end_to_end(w, 0, CharClass::Word);
    assert(w.subrange(0, w.len() as int) =~= w);
    assert(is_word_start(w[0]));
    let tok = TokenModel { token_type: keyword_of(w)->Some_0, value: w, line: 0, start: 0 };
    assert(token_at(w, 0) == Some((keyword_of(w)->Some_0, w, w.len() as int)));
    assert(scan(w, w.len() as int, 0, w.len() as int, Seq::<TokenModel>::empty().push(tok))
        == Ok::<Seq<TokenModel>, (int, int)>(Seq::<TokenModel>::empty().push(tok)));
    assert(seq![tok] =~= Seq::<TokenModel>::empty().push(tok));
}

/// Lexing is a function of the text alone: two lexings of equal texts give
/// the same tokens, or fail at the same place.
pub proof fn lemma_lexing_deterministic(a: Seq<char>, b: Seq<char>)
    requires
        a == b,
    ensures
        lex(a) == lex(b),
{
}

/// A formula whose first two tokens are unary operators, the second one
/// spent by the first (`!!`, `++--`), fails on the second, naming it.
pub proof fn lemma_repeated_prefix_operator_rejected(t: Seq<Token>, p: int)
    requires
        0 <= p,
        p + 1 < t.len(),
        is_unary_operator(t[p].token_type),
        is_unary_operator(t[p + 1].token_type),
        is_prohibited(
            t[p + 1].token_type,
            t[p].token_type is Increment || t[p].token_type is Decrement,
            t[p].token_type is Not,
        ),
    ensures
        spec_formula(t, p) == Err::<(Node, int), SyntaxError>(
            err_at(t, p + 1, SyntaxErrorKind::OperatorAlreadyUsed(t[p + 1].token_type)),
        ),
{
    let ty = t[p].token_type;
    assert(spec_prefix(t, p, Seq::empty(), false, false) == spec_prefix(
        t,
        p + 1,
        Seq::<TokenType>::empty().push(ty),
        ty is Increment || ty is Decrement,
        ty is Not,
    ));
}

/// A program that starts with such a repeated operator is rejected as a whole.
pub proof fn lemma_repeated_prefix_operator_fails_parse(t: Seq<Token>)
    requires
        1 < t.len(),
        is_unary_operator(t[0].token_type),
        is_unary_operator(t[1].token_type),
        is_prohibited(
            t[1].token_type,
            t[0].token_type is Increment || t[0].token_type is Decrement,
            t[0].token_type is Not,
        ),
    ensures
        spec_parse(t) == Err::<Seq<Node>, SyntaxError>(
            err_at(t, 1, SyntaxErrorKind::OperatorAlreadyUsed(t[1].token_type)),
        ),
{
    lemma_repeated_prefix_operator_rejected(t, 0);
    assert(is_formula_start(t[0].token_type));
    assert(spec_expression(t, 0) == Err::<Option<(Node, int)>, SyntaxError>(
        err_at(t, 1, SyntaxErrorKind::OperatorAlreadyUsed(t[1].token_type)),
    ));
}

/// In a call `f(name = value, x)` where `x` is a positional argument (any
/// formula but `name = ...`), the call fails at `x` with the
/// positional-after-keyword error.
pub proof fn lemma_positional_after_keyword_rejected(t: Seq<Token>, p: int, v: Node, r: int)
    requires
        0 <= p,
        p + 3 < t.len(),
        t[p].token_type is Alphanumeric,
        t[p + 1].token_type is LPar,
        t[p + 2].token_type is Alphanumeric,
        t[p + 3].token_type is Assign,
        spec_formula(t, p + 4) == Ok::<(Node, int), SyntaxError>((v, r)),
        p + 4 <= r,
        r + 2 < t.len(),
        t[r + 1].token_type is Comma,
        is_formula_start(t[r + 2].token_type),
        !(t[r + 2].token_type is Alphanumeric && r + 3 < t.len() && t[r + 3].token_type is Assign),
    ensures
        spec_identifiers(t, p) == Err::<(Node, int), SyntaxError>(
            err_at(t, r + 2, SyntaxErrorKind::PositionalAfterKeyword),
        ),
{
    let kw = ParameterModel::Keyword { name: t[p + 2].value@, value: v };
    let args = Seq::<ParameterModel>::empty().push(kw);
    assert(spec_params(t, r + 1, args, true, true) == Err::<(Seq<ParameterModel>, int), SyntaxError>(
        err_at(t, r + 2, SyntaxErrorKind::PositionalAfterKeyword),
    ));
    assert(spec_params(t, p + 2, Seq::empty(), false, true) == spec_params(t, r + 1, args, true, true));
    assert(spec_paren(t, p + 1, true) == Err::<(Seq<ParameterModel>, int), SyntaxError>(
        err_at(t, r + 2, SyntaxErrorKind::PositionalAfterKeyword),
    ));
}

/// Parsing is a function of the tokens alone: equal token sequences give the
/// same statements, or fail with the same error. The random order in which a
/// message names alternatives plays no part in it.
pub proof fn lemma_parsing_deterministic(a: Seq<Token>, b: Seq<Token>)
    requires
        a == b,
    ensures
        spec_parse(a) == spec_parse(b),
{
}

/// Binary operators nest to the right, whatever they are:
/// `x op1 y op2 z` is `x op1 (y op2 z)`.
pub proof fn lemma_binary_operators_nest_right(t: Seq<Token>, p: int)
    requires
        0 <= p,
        t.len() == p + 5,
        t[p].token_type is Number,
        is_binary_operator(t[p + 1].token_type),
        t[p + 2].token_type is Number,
        is_binary_operator(t[p + 3].token_type),
        t[p + 4].token_type is Number,
    ensures
        spec_formula(t, p) == Ok::<(Node, int), SyntaxError>(
            (
                Node::BinaryOperator {
                    operator: t[p + 1].token_type,
                    left: Box::new(Node::Number { text: t[p].value@ }),
                    right: Box::new(
                        Node::BinaryOperator {
                            operator: t[p + 3].token_type,
                            left: Box::new(Node::Number { text: t[p + 2].value@ }),
                            right: Box::new(Node::Number { text: t[p + 4].value@ }),
                        },
                    ),
                },
                p + 4,
            ),
        ),
{
    assert(!is_unary_operator(t[p + 1].token_type));
    assert(!is_unary_operator(t[p + 3].token_type));
    assert(spec_prefix(t, p + 4, Seq::empty(), false, false) == Ok::<
        (int, Seq<TokenType>, bool, bool),
        SyntaxError,
    >((p + 4, Seq::empty(), false, false)));
    assert(spec_formula(t, p + 4) == Ok::<(Node, int), SyntaxError>(
        (Node::Number { text: t[p + 4].value@ }, p + 4),
    ));
    assert(spec_prefix(t, p + 2, Seq::empty(), false, false) == Ok::<
        (int, Seq<TokenType>, bool, bool),
        SyntaxError,
    >((p + 2, Seq::empty(), false, false)));
    assert(spec_prefix(t, p, Seq::empty(), false, false) == Ok::<
        (int, Seq<TokenType>, bool, bool),
        SyntaxError,
    >((p, Seq::empty(), false, false)));
    let x = Node::Number { text: t[p].value@ };
    let y = Node::Number { text: t[p + 2].value@ };
    let z = Node::Number { text: t[p + 4].value@ };
    assert(wrap_prefix(Seq::empty(), x) == x);
    assert(wrap_prefix(Seq::empty(), y) == y);
    assert(wrap_prefix(Seq::empty(), z) == z);
    let inner = Node::BinaryOperator { operator: t[p + 3].token_type, left: Box::new(y), right: Box::new(z) };
    assert(spec_formula(t, p + 2) == Ok::<(Node, int), SyntaxError>((inner, p + 4)));
}

/// Member chains nest to the right: `a.b.c` is `a.(b.c)`.
pub proof fn lemma_member_chain_nests_right(t: Seq<Token>, p: int)
    requires
        0 <= p,
        t.len() == p + 5,
        t[p].token_type is Alphanumeric,
        t[p + 1].token_type is Dot,
        t[p + 2].token_type is Alphanumeric,
        t[p + 3].token_type is Dot,
        t[p + 4].token_type is Alphanumeric,
    ensures
        spec_identifiers(t, p) == Ok::<(Node, int), SyntaxError>(
            (
                Node::Member {
                    left: Box::new(Node::Object { name: t[p].value@ }),
                    right: Box::new(
                        Node::Member {
                            left: Box::new(Node::Object { name: t[p + 2].value@ }),
                            right: Box::new(Node::Object { name: t[p + 4].value@ }),
                        },
                    ),
                },
                p + 4,
            ),
        ),
{
    assert(spec_identifiers(t, p + 4) == Ok::<(Node, int), SyntaxError>(
        (Node::Object { name: t[p + 4].value@ }, p + 4),
    ));
    assert(spec_identifiers(t, p + 2) == Ok::<(Node, int), SyntaxError>(
        (
            Node::Member {
                left: Box::new(Node::Object { name: t[p + 2].value@ }),
                right: Box::new(Node::Object { name: t[p + 4].value@ }),
            },
            p + 4,
        ),
    ));
}

/// Of two prefix operators, the first written is the outermost: `! ++ 1` is
/// `!(++1)`.
pub proof fn lemma_first_prefix_operator_outermost(t: Seq<Token>, p: int)
    requires
        0 <= p,
        t.len() == p + 3,
        is_unary_operator(t[p].token_type),
        is_unary_operator(t[p + 1].token_type),
        !is_prohibited(
            t[p + 1].token_type,
            t[p].token_type is Increment || t[p].token_type is Decrement,
            t[p].token_type is Not,
        ),
        t[p + 2].token_type is Number,
    ensures
        spec_formula(t, p) == Ok::<(Node, int), SyntaxError>(
            (
                Node::UnaryOperator {
                    operator: t[p].token_type,
                    operand: Box::new(
                        Node::UnaryOperator {
                            operator: t[p + 1].token_type,
                            operand: Box::new(Node::Number { text: t[p + 2].value@ }),
                            side: TokenSide::Left,
                        },
                    ),
                    side: TokenSide::Left,
                },
                p + 2,
            ),
        ),
{
    let a = t[p].token_type;
    let b = t[p + 1].token_type;
    let ops = Seq::<TokenType>::empty().push(a).push(b);
    let i1 = a is Increment || a is Decrement;
    let n1 = a is Not;
    let i2 = i1 || b is Increment || b is Decrement;
    let n2 = n1 || b is Not;
    assert(spec_prefix(t, p + 2, ops, i2, n2) == Ok::<(int, Seq<TokenType>, bool, bool), SyntaxError>(
        (p + 2, ops, i2, n2),
    ));
    assert(spec_prefix(t, p + 1, Seq::<TokenType>::empty().push(a), i1, n1) == spec_prefix(
        t,
        p + 2,
        ops,
        i2,
        n2,
    ));
    assert(spec_prefix(t, p, Seq::empty(), false, false) == spec_prefix(
        t,
        p + 1,
        Seq::<TokenType>::empty().push(a),
        i1,
        n1,
    ));
    let x = Node::Number { text: t[p + 2].value@ };
    let inner = Node::UnaryOperator { operator: b, operand: Box::new(x), side: TokenSide::Left };
    assert(ops.drop_last() =~= Seq::<TokenType>::empty().push(a));
    assert(Seq::<TokenType>::empty().push(a).drop_last() =~= Seq::<TokenType>::empty());
    assert(wrap_prefix(ops, x) == wrap_prefix(Seq::<TokenType>::empty().push(a), inner));
    assert(wrap_prefix(Seq::<TokenType>::empty().push(a), inner) == wrap_prefix(
        Seq::<TokenType>::empty(),
        Node::UnaryOperator { operator: a, operand: Box::new(inner), side: TokenSide::Left },
    ));
}

} // verus!
