use vstd::prelude::*;
use crate::ast::{
    node_view, param_view, params_view, opt_view, BinaryOperatorNode, BodyNode, ExpressionNode,
    Node, Parameter, ParameterModel,
};
use crate::context::Context;
use crate::tokens::{
    binary_operator, formula_start, is_binary_operator, is_formula_start, is_unary_operator,
    is_variable_assignment, unary_operator, variable_assignment, Token, TokenSide, TokenType,
};

verus! {

/// What a syntax error reports as wrong.
#[derive(Clone, Copy, Debug, PartialEq, Eq, Structural)]
pub enum SyntaxErrorKind {
    /// A token of this type was required here.
    Expected(TokenType),
    /// A token that starts a formula was required here.
    ExpectedFormula,
    /// This token cannot start a statement.
    NotInContext(TokenType),
    /// This unary operator was already used in the same formula.
    OperatorAlreadyUsed(TokenType),
    PositionalAfterKeyword,
    ArgumentTypeExpected,
    ChildrenExpected,
    EndOfInput,
}

/// A syntax error at the zero-based source coordinates of the token where it was found.
#[derive(Clone, Copy, Debug, PartialEq, Eq, Structural)]
pub struct SyntaxError {
    pub kind: SyntaxErrorKind,
    pub line: u64,
    pub start: u64,
}

/// The error of the given kind, placed at token `p`, or at the last token when
/// `p` is past the end.
pub open spec fn err_at(t: Seq<Token>, p: int, kind: SyntaxErrorKind) -> SyntaxError {
    if 0 <= p < t.len() {
        SyntaxError { kind, line: t[p].line, start: t[p].start }
    } else if t.len() > 0 {
        SyntaxError { kind, line: t.last().line, start: t.last().start }
    } else {
        SyntaxError { kind, line: 0, start: 0 }
    }
}

pub open spec fn has_type(t: Seq<Token>, p: int, ty: TokenType) -> bool {
    0 <= p < t.len() && t[p].token_type == ty
}

/// Once `++` or `--` is used in a formula, both are spent; `!` spends only itself.
pub open spec fn is_prohibited(ty: TokenType, incdec_used: bool, not_used: bool) -> bool {
    ((ty is Increment || ty is Decrement) && incdec_used) || (ty is Not && not_used)
}

/// An optional `: type` annotation at `p`; on success, the type name and the
/// position of its token.
pub open spec fn spec_datatype(t: Seq<Token>, p: int) -> Result<Option<(Seq<char>, int)>, SyntaxError> {
    if has_type(t, p, TokenType::Colon) {
        if has_type(t, p + 1, TokenType::Alphanumeric) {
            Ok(Some((t[p + 1].value@, p + 1)))
        } else {
            Err(err_at(t, p + 1, SyntaxErrorKind::Expected(TokenType::Alphanumeric)))
        }
    } else {
        Ok(None)
    }
}

/// The run of prefix unary operators from `p`: the position of the first
/// token after them, the operators in source order, and what they spent.
pub open spec fn spec_prefix(t: Seq<Token>, p: int, ops: Seq<TokenType>, incdec: bool, not: bool)
    -> Result<(int, Seq<TokenType>, bool, bool), SyntaxError>
    decreases t.len() - p,
{
    if p < 0 || p >= t.len() {
        Err(err_at(t, p, SyntaxErrorKind::EndOfInput))
    } else if is_unary_operator(t[p].token_type) {
        let ty = t[p].token_type;
        if is_prohibited(ty, incdec, not) {
            Err(err_at(t, p, SyntaxErrorKind::OperatorAlreadyUsed(ty)))
        } else {
            spec_prefix(
                t,
                p + 1,
                ops.push(ty),
                incdec || ty is Increment || ty is Decrement,
                not || ty is Not,
            )
        }
    } else {
        Ok((p, ops, incdec, not))
    }
}

/// Prefix operators around an operand: the first written is the outermost.
pub open spec fn wrap_prefix(ops: Seq<TokenType>, node: Node) -> Node
    decreases ops.len(),
{
    if ops.len() == 0 {
        node
    } else {
        wrap_prefix(
            ops.drop_last(),
            Node::UnaryOperator { operator: ops.last(), operand: Box::new(node), side: TokenSide::Left },
        )
    }
}

/// A formula starting at `p`: the tree and the position of its last token.
///
/// Here and below, every step leaves the cursor at or after where it began;
/// the branches that test for a cursor that went back never apply, and are
/// there so that each definition visibly terminates.
pub open spec fn spec_formula(t: Seq<Token>, p: int) -> Result<(Node, int), SyntaxError>
    decreases t.len() - p, 3int,
{
    match spec_prefix(t, p, Seq::empty(), false, false) {
        Err(e) => Err(e),
        Ok((q, ops, incdec, not)) => {
            let primand: Result<(Node, int), SyntaxError> = if q < p || q >= t.len() {
                Err(err_at(t, q, SyntaxErrorKind::EndOfInput))
            } else {
                let tok = t[q];
                match tok.token_type {
                    TokenType::Alphanumeric => spec_identifiers(t, q),
                    TokenType::CharArray => Ok((Node::Str { text: tok.value@ }, q)),
                    TokenType::Number => Ok((Node::Number { text: tok.value@ }, q)),
                    TokenType::Null => Ok((Node::Null, q)),
                    TokenType::True => Ok((Node::Boolean { value: true }, q)),
                    TokenType::False => Ok((Node::Boolean { value: false }, q)),
                    _ => Err(err_at(t, q, SyntaxErrorKind::ExpectedFormula)),
                }
            };
            match primand {
                Err(e) => Err(e),
                Ok((operand, r)) => {
                    let node = wrap_prefix(ops, operand);
                    if r < p || r >= t.len() {
                        Err(err_at(t, r, SyntaxErrorKind::EndOfInput))
                    } else if r + 1 < t.len() && is_unary_operator(t[r + 1].token_type)
                        && is_prohibited(t[r + 1].token_type, incdec, not) {
                        Err(err_at(t, r + 1, SyntaxErrorKind::OperatorAlreadyUsed(t[r + 1].token_type)))
                    } else {
                        let (node2, s) = if r + 1 < t.len() && is_unary_operator(t[r + 1].token_type) {
                            (
                                Node::UnaryOperator {
                                    operator: t[r + 1].token_type,
                                    operand: Box::new(node),
                                    side: TokenSide::Right,
                                },
                                r + 1,
                            )
                        } else {
                            (node, r)
                        };
                        if s + 1 < t.len() && is_binary_operator(t[s + 1].token_type) {
                            match spec_formula(t, s + 2) {
                                Err(e) => Err(e),
                                Ok((right, e)) => Ok(
                                    (
                                        Node::BinaryOperator {
                                            operator: t[s + 1].token_type,
                                            left: Box::new(node2),
                                            right: Box::new(right),
                                        },
                                        e,
                                    ),
                                ),
                            }
                        } else {
                            Ok((node2, s))
                        }
                    }
                },
            }
        },
    }
}

/// An identifier at `p`, with an optional call argument list and an optional
/// `.` member chain after it.
pub open spec fn spec_identifiers(t: Seq<Token>, p: int) -> Result<(Node, int), SyntaxError>
    decreases t.len() - p, 1int,
{
    if p < 0 || p >= t.len() {
        Err(err_at(t, p, SyntaxErrorKind::EndOfInput))
    } else {
        let object = Node::Object { name: t[p].value@ };
        let called: Result<(Node, int), SyntaxError> = if has_type(t, p + 1, TokenType::LPar) {
            match spec_paren(t, p + 1, true) {
                Err(e) => Err(e),
                Ok((ps, r)) => Ok((Node::Call { callee: Box::new(object), parameters: ps }, r)),
            }
        } else {
            Ok((object, p))
        };
        match called {
            Err(e) => Err(e),
            Ok((node, q)) => {
                if q < p {
                    Err(err_at(t, q, SyntaxErrorKind::EndOfInput))
                } else if has_type(t, q + 1, TokenType::Dot) {
                    if q + 2 >= t.len() {
                        Err(err_at(t, q + 1, SyntaxErrorKind::ChildrenExpected))
                    } else {
                        match spec_identifiers(t, q + 2) {
                            Err(e) => Err(e),
                            Ok((right, r)) => Ok(
                                (Node::Member { left: Box::new(node), right: Box::new(right) }, r),
                            ),
                        }
                    }
                } else {
                    Ok((node, q))
                }
            },
        }
    }
}

/// A parenthesized parameter list whose `(` is at `p`: the parameters and the
/// position of the `)`.
pub open spec fn spec_paren(t: Seq<Token>, p: int, is_call: bool) -> Result<(Seq<ParameterModel>, int), SyntaxError>
    decreases t.len() - p, 0int,
{
    if p < 0 || !has_type(t, p, TokenType::LPar) {
        Err(err_at(t, p, SyntaxErrorKind::Expected(TokenType::LPar)))
    } else {
        match spec_params(t, p + 1, Seq::empty(), false, is_call) {
            Err(e) => Err(e),
            Ok((ps, q)) => {
                if has_type(t, q + 1, TokenType::RPar) {
                    Ok((ps, q + 1))
                } else {
                    Err(err_at(t, q + 1, SyntaxErrorKind::Expected(TokenType::RPar)))
                }
            },
        }
    }
}

/// The parameters from `c` on, after `args` were read and with `kw` telling
/// whether a keyword argument was among them: all parameters and the position
/// of the last token before the list's end.
pub open spec fn spec_params(t: Seq<Token>, c: int, args: Seq<ParameterModel>, kw: bool, is_call: bool)
    -> Result<(Seq<ParameterModel>, int), SyntaxError>
    decreases t.len() - c, 4int,
{
    if c < 0 || c >= t.len() {
        Ok((args, c - 1))
    } else {
        let c1 = if args.len() > 0 && t[c].token_type is Comma { c + 1 } else { c };
        if c1 >= t.len() {
            Err(err_at(t, c1, SyntaxErrorKind::EndOfInput))
        } else {
            let first = t[c1];
            if is_call && first.token_type is Alphanumeric && has_type(t, c1 + 1, TokenType::Assign) {
                match spec_formula(t, c1 + 2) {
                    Err(e) => Err(e),
                    Ok((v, r)) => if r < c1 || r >= t.len() {
                        Err(err_at(t, r, SyntaxErrorKind::EndOfInput))
                    } else {
                        spec_params(
                            t,
                            r + 1,
                            args.push(ParameterModel::Keyword { name: first.value@, value: v }),
                            true,
                            is_call,
                        )
                    },
                }
            } else if is_call && is_formula_start(first.token_type) {
                if kw {
                    Err(err_at(t, c1, SyntaxErrorKind::PositionalAfterKeyword))
                } else {
                    match spec_formula(t, c1) {
                        Err(e) => Err(e),
                        Ok((v, r)) => if r < c1 || r >= t.len() {
                            Err(err_at(t, r, SyntaxErrorKind::EndOfInput))
                        } else {
                            spec_params(
                                t,
                                r + 1,
                                args.push(ParameterModel::Positional { value: v }),
                                kw,
                                is_call,
                            )
                        },
                    }
                }
            } else if !is_call && first.token_type is Alphanumeric {
                match spec_datatype(t, c1 + 1) {
                    Err(e) => Err(e),
                    Ok(None) => Err(err_at(t, c1 + 1, SyntaxErrorKind::ArgumentTypeExpected)),
                    Ok(Some((ty, r))) => spec_params(
                        t,
                        r + 1,
                        args.push(ParameterModel::Typed { name: first.value@, datatype: ty }),
                        kw,
                        is_call,
                    ),
                }
            } else {
                Ok((args, c1 - 1))
            }
        }
    }
}

pub open spec fn dt_name(d: Option<(Seq<char>, int)>) -> Option<Seq<char>> {
    match d {
        Some((n, _)) => Some(n),
        None => None,
    }
}

/// One statement starting at `p`: none when the tokens are used up, else the
/// tree and the position of its last token.
pub open spec fn spec_expression(t: Seq<Token>, p: int) -> Result<Option<(Node, int)>, SyntaxError>
    decreases t.len() - p,
{
    if p < 0 || p >= t.len() {
        Ok(None)
    } else {
        let ty = t[p].token_type;
        if is_variable_assignment(ty) {
            if !has_type(t, p + 1, TokenType::Alphanumeric) {
                Err(err_at(t, p + 1, SyntaxErrorKind::Expected(TokenType::Alphanumeric)))
            } else {
                match spec_datatype(t, p + 2) {
                    Err(e) => Err(e),
                    Ok(d) => {
                        let q = match d {
                            Some((_, r)) => r + 1,
                            None => p + 2,
                        };
                        if !has_type(t, q, TokenType::Assign) {
                            Err(err_at(t, q, SyntaxErrorKind::Expected(TokenType::Assign)))
                        } else {
                            match spec_formula(t, q + 1) {
                                Err(e) => Err(e),
                                Ok((v, r)) => Ok(
                                    Some(
                                        (
                                            Node::VariableDeclaration {
                                                name: t[p + 1].value@,
                                                datatype: dt_name(d),
                                                value: Box::new(v),
                                            },
                                            r,
                                        ),
                                    ),
                                ),
                            }
                        }
                    },
                }
            }
        } else if is_formula_start(ty) {
            match spec_formula(t, p) {
                Err(e) => Err(e),
                Ok((v, r)) => Ok(Some((v, r))),
            }
        } else if ty is Function {
            if !has_type(t, p + 1, TokenType::Alphanumeric) {
                Err(err_at(t, p + 1, SyntaxErrorKind::Expected(TokenType::Alphanumeric)))
            } else {
                match spec_paren(t, p + 2, false) {
                    Err(e) => Err(e),
                    Ok((ps, r)) => match spec_datatype(t, r + 1) {
                        Err(e) => Err(e),
                        Ok(d) => {
                            let end = match d {
                                Some((_, s)) => s,
                                None => r,
                            };
                            Ok(
                                Some(
                                    (
                                        Node::FunctionDeclaration {
                                            name: t[p + 1].value@,
                                            datatype: dt_name(d),
                                            parameters: ps,
                                        },
                                        end,
                                    ),
                                ),
                            )
                        },
                    },
                }
            }
        } else if ty is ExpressionEnd {
            spec_expression(t, p + 1)
        } else {
            Err(err_at(t, p, SyntaxErrorKind::NotInContext(ty)))
        }
    }
}

/// The statements from `p` on, after `acc` were read; each but the last must
/// be followed by `;`.
pub open spec fn spec_statements(t: Seq<Token>, p: int, acc: Seq<Node>) -> Result<Seq<Node>, SyntaxError>
    decreases t.len() - p,
{
    match spec_expression(t, p) {
        Err(e) => Err(e),
        Ok(None) => Ok(acc),
        Ok(Some((node, r))) => {
            let acc2 = acc.push(node);
            if r + 1 < t.len() {
                if !has_type(t, r + 1, TokenType::ExpressionEnd) {
                    Err(err_at(t, r + 1, SyntaxErrorKind::Expected(TokenType::ExpressionEnd)))
                } else if r + 2 < t.len() && r >= p {
                    spec_statements(t, r + 2, acc2)
                } else {
                    Ok(acc2)
                }
            } else {
                Ok(acc2)
            }
        },
    }
}

/// The program that a token sequence spells: its statements, or the first syntax error.
pub open spec fn spec_parse(t: Seq<Token>) -> Result<Seq<Node>, SyntaxError> {
    spec_statements(t, 0, Seq::empty())
}


pub open spec fn node_result(r: Result<(ExpressionNode, usize), SyntaxError>, s: Result<(Node, int), SyntaxError>) -> bool {
    match r {
        Ok((n, q)) => s == Ok::<(Node, int), SyntaxError>((node_view(n), q as int)),
        Err(e) => s == Err::<(Node, int), SyntaxError>(e),
    }
}

pub open spec fn params_result(
    r: Result<(Vec<Parameter>, usize), SyntaxError>,
    s: Result<(Seq<ParameterModel>, int), SyntaxError>,
) -> bool {
    match r {
        Ok((ps, q)) => s == Ok::<(Seq<ParameterModel>, int), SyntaxError>((params_view(ps@), q as int)),
        Err(e) => s == Err::<(Seq<ParameterModel>, int), SyntaxError>(e),
    }
}

proof fn lemma_params_push(s: Seq<Parameter>, x: Parameter)
    ensures
        params_view(s.push(x)) == params_view(s).push(param_view(x)),
{
    assert(params_view(s.push(x)) =~= params_view(s).push(param_view(x)));
}

proof fn lemma_call_view(callee: ExpressionNode, ps: Vec<Parameter>)
    ensures
        node_view(ExpressionNode::Call { callee: Box::new(callee), parameters: ps }) == (Node::Call {
            callee: Box::new(node_view(callee)),
            parameters: params_view(ps@),
        }),
{
    let n = ExpressionNode::Call { callee: Box::new(callee), parameters: ps };
    match node_view(n) {
        Node::Call { callee: c, parameters: q } => {
            assert(q =~= params_view(ps@));
        },
        _ => {},
    }
}

proof fn lemma_function_view(name: String, datatype: Option<String>, ps: Vec<Parameter>)
    ensures
        node_view(ExpressionNode::FunctionDeclaration { name, datatype, parameters: ps }) == (
        Node::FunctionDeclaration { name: name@, datatype: opt_view(datatype), parameters: params_view(ps@) }),
{
    let n = ExpressionNode::FunctionDeclaration { name, datatype, parameters: ps };
    match node_view(n) {
        Node::FunctionDeclaration { name: _, datatype: _, parameters: q } => {
            assert(q =~= params_view(ps@));
        },
        _ => {},
    }
}

/// Wraps prefix operators around an operand, the first written outermost.
fn wrap_prefix_operators(ops: Vec<TokenType>, node: ExpressionNode) -> (r: ExpressionNode)
    ensures
        node_view(r) == wrap_prefix(ops@, node_view(node)),
{
    let ghost target = wrap_prefix(ops@, node_view(node));
    let mut ops = ops;
    let mut node = node;
    while ops.len() > 0
        invariant
            wrap_prefix(ops@, node_view(node)) == target,
        decreases ops@.len(),
    {
        let op = ops.pop().unwrap();
        node = ExpressionNode::UnaryOperator { operator: op, operand: Box::new(node), side: TokenSide::Left };
    }
    node
}

/// Builds a syntax tree from a token sequence.
pub struct Parser {
    tokens: Vec<Token>,
    context: Context,
}

impl Parser {
    pub closed spec fn tokens(&self) -> Seq<Token> {
        self.tokens@
    }

    pub closed spec fn context(&self) -> Context {
        self.context
    }

    pub fn new(tokens: Vec<Token>) -> (r: Self)
        ensures
            r.tokens() == tokens@,
    {
        Parser { context: Context::new(), tokens }
    }

    pub fn get_context(&mut self) -> (r: &mut Context)
        ensures
            final(self).tokens() == old(self).tokens(),
    {
        &mut self.context
    }

    /// Parses the whole token sequence. On a syntax error nothing of what was
    /// read is kept: the error alone is returned, and the context is moved to
    /// the one-based place where it was found.
    pub fn parse(&mut self) -> (r: Result<BodyNode, SyntaxError>)
        ensures
            final(self).tokens() == old(self).tokens(),
            final(self).context().code_source == old(self).context().code_source,
            r is Ok ==> final(self).context() == old(self).context(),
            r matches Err(e) ==> (e.line < u64::MAX ==> final(self).context().line == e.line + 1)
                && (e.start < u64::MAX ==> final(self).context().position == e.start + 1),
            match r {
                Ok(b) => spec_parse(old(self).tokens()) == Ok::<Seq<Node>, SyntaxError>(b@),
                Err(e) => spec_parse(old(self).tokens()) == Err::<Seq<Node>, SyntaxError>(e),
            },
    {
        let r = self.parse_statements();
        if let Err(e) = r {
            self.context.line = e.line.saturating_add(1);
            self.context.position = e.start.saturating_add(1);
        }
        r
    }

    fn parse_statements(&self) -> (r: Result<BodyNode, SyntaxError>)
        ensures
            match r {
                Ok(b) => spec_parse(self.tokens@) == Ok::<Seq<Node>, SyntaxError>(b@),
                Err(e) => spec_parse(self.tokens@) == Err::<Seq<Node>, SyntaxError>(e),
            },
    {
        let n = self.tokens.len();
        let mut root = BodyNode::new();
        let mut p: usize = 0;
        assert(root@ =~= Seq::<Node>::empty());
        loop
            invariant
                n == self.tokens@.len(),
                p <= n,
                spec_statements(self.tokens@, p as int, root@) == spec_parse(self.tokens@),
            decreases n - p,
        {
            match self.parse_expression(p) {
                Err(e) => return Err(e),
                Ok(None) => return Ok(root),
                Ok(Some((node, r))) => {
                    let ghost before = root@;
                    root.nodes.push(node);
                    assert(root@ =~= before.push(node_view(node)));
                    if r + 1 < n {
                        if !self.tokens[r + 1].is_type(TokenType::ExpressionEnd) {
                            return Err(self.error_at(r + 1, SyntaxErrorKind::Expected(TokenType::ExpressionEnd)));
                        }
                        if r + 2 < n {
                            p = r + 2;
                        } else {
                            return Ok(root);
                        }
                    } else {
                        return Ok(root);
                    }
                },
            }
        }
    }

    fn error_at(&self, p: usize, kind: SyntaxErrorKind) -> (e: SyntaxError)
        ensures
            e == err_at(self.tokens@, p as int, kind),
    {
        let n = self.tokens.len();
        if p < n {
            SyntaxError { kind, line: self.tokens[p].line, start: self.tokens[p].start }
        } else if n > 0 {
            SyntaxError { kind, line: self.tokens[n - 1].line, start: self.tokens[n - 1].start }
        } else {
            SyntaxError { kind, line: 0, start: 0 }
        }
    }

    fn has(&self, p: usize, ty: TokenType) -> (r: bool)
        ensures
            r == has_type(self.tokens@, p as int, ty),
    {
        p < self.tokens.len() && self.tokens[p].token_type == ty
    }

    fn parse_datatype(&self, p: usize) -> (r: Result<Option<(String, usize)>, SyntaxError>)
        requires
            p <= self.tokens@.len(),
        ensures
            match r {
                Ok(Some((s, q))) => spec_datatype(self.tokens@, p as int) == Ok::<Option<(Seq<char>, int)>, SyntaxError>(Some((s@, q as int)))
                    && q == p + 1 && q < self.tokens@.len(),
                Ok(None) => spec_datatype(self.tokens@, p as int) == Ok::<Option<(Seq<char>, int)>, SyntaxError>(None),
                Err(e) => spec_datatype(self.tokens@, p as int) == Err::<Option<(Seq<char>, int)>, SyntaxError>(e),
            },
    {
        let n = self.tokens.len();
        if self.has(p, TokenType::Colon) {
            if self.has(p + 1, TokenType::Alphanumeric) {
                Ok(Some((self.tokens[p + 1].value.clone(), p + 1)))
            } else {
                Err(self.error_at(p + 1, SyntaxErrorKind::Expected(TokenType::Alphanumeric)))
            }
        } else {
            Ok(None)
        }
    }

    fn parse_prefix(&self, p: usize, ops: Vec<TokenType>, incdec: bool, not: bool)
        -> (r: Result<(usize, Vec<TokenType>, bool, bool), SyntaxError>)
        requires
            p <= self.tokens@.len(),
        ensures
            match r {
                Ok((q, o, a, b)) => spec_prefix(self.tokens@, p as int, ops@, incdec, not)
                    == Ok::<(int, Seq<TokenType>, bool, bool), SyntaxError>((q as int, o@, a, b))
                    && p <= q < self.tokens@.len(),
                Err(e) => spec_prefix(self.tokens@, p as int, ops@, incdec, not)
                    == Err::<(int, Seq<TokenType>, bool, bool), SyntaxError>(e),
            },
        decreases self.tokens@.len() - p,
    {
        if p >= self.tokens.len() {
            return Err(self.error_at(p, SyntaxErrorKind::EndOfInput));
        }
        let ty = self.tokens[p].token_type;
        if unary_operator(ty) {
            let prohibited = ((ty == TokenType::Increment || ty == TokenType::Decrement) && incdec)
                || (ty == TokenType::Not && not);
            if prohibited {
                return Err(self.error_at(p, SyntaxErrorKind::OperatorAlreadyUsed(ty)));
            }
            let mut ops = ops;
            ops.push(ty);
            self.parse_prefix(
                p + 1,
                ops,
                incdec || ty == TokenType::Increment || ty == TokenType::Decrement,
                not || ty == TokenType::Not,
            )
        } else {
            Ok((p, ops, incdec, not))
        }
    }

    fn parse_formula(&self, p: usize) -> (r: Result<(ExpressionNode, usize), SyntaxError>)
        requires
            p <= self.tokens@.len(),
        ensures
            node_result(r, spec_formula(self.tokens@, p as int)),
            r matches Ok((_, q)) ==> p <= q < self.tokens@.len(),
        decreases self.tokens@.len() - p, 3int,
    {
        let n = self.tokens.len();
        let (q, ops, incdec, not) = match self.parse_prefix(p, Vec::new(), false, false) {
            Ok(x) => x,
            Err(e) => return Err(e),
        };
        let ty = self.tokens[q].token_type;
        let (operand, r) = match ty {
            TokenType::Alphanumeric => match self.parse_identifiers(q) {
                Ok(x) => x,
                Err(e) => return Err(e),
            },
            TokenType::CharArray => (ExpressionNode::Str { text: self.tokens[q].value.clone() }, q),
            TokenType::Number => (ExpressionNode::Number { text: self.tokens[q].value.clone() }, q),
            TokenType::Null => (ExpressionNode::Null, q),
            TokenType::True => (ExpressionNode::Boolean { value: true }, q),
            TokenType::False => (ExpressionNode::Boolean { value: false }, q),
            _ => return Err(self.error_at(q, SyntaxErrorKind::ExpectedFormula)),
        };
        let node = wrap_prefix_operators(ops, operand);
        let (node2, s) = if r + 1 < n && unary_operator(self.tokens[r + 1].token_type) {
            let op = self.tokens[r + 1].token_type;
            let prohibited = ((op == TokenType::Increment || op == TokenType::Decrement) && incdec)
                || (op == TokenType::Not && not);
            if prohibited {
                return Err(self.error_at(r + 1, SyntaxErrorKind::OperatorAlreadyUsed(op)));
            }
            (ExpressionNode::UnaryOperator { operator: op, operand: Box::new(node), side: TokenSide::Right }, r + 1)
        } else {
            (node, r)
        };
        if s + 1 < n && binary_operator(self.tokens[s + 1].token_type) {
            let op = self.tokens[s + 1].token_type;
            match self.parse_formula(s + 2) {
                Err(e) => Err(e),
                Ok((right, e)) => Ok((ExpressionNode::BinaryOperator(BinaryOperatorNode::new(op, node2, right)), e)),
            }
        } else {
            Ok((node2, s))
        }
    }

    fn parse_identifiers(&self, p: usize) -> (r: Result<(ExpressionNode, usize), SyntaxError>)
        requires
            p < self.tokens@.len(),
        ensures
            node_result(r, spec_identifiers(self.tokens@, p as int)),
            r matches Ok((_, q)) ==> p <= q < self.tokens@.len(),
        decreases self.tokens@.len() - p, 1int,
    {
        let n = self.tokens.len();
        let object = ExpressionNode::Object { name: self.tokens[p].value.clone() };
        let (node, q) = if self.has(p + 1, TokenType::LPar) {
            match self.parse_paren(p + 1, true) {
                Ok((ps, r)) => {
                    proof {
                        lemma_call_view(object, ps);
                    }
                    (ExpressionNode::Call { callee: Box::new(object), parameters: ps }, r)
                },
                Err(e) => return Err(e),
            }
        } else {
            (object, p)
        };
        if self.has(q + 1, TokenType::Dot) {
            if q + 2 >= self.tokens.len() {
                return Err(self.error_at(q + 1, SyntaxErrorKind::ChildrenExpected));
            }
            match self.parse_identifiers(q + 2) {
                Err(e) => Err(e),
                Ok((right, r)) => Ok((ExpressionNode::Member { left: Box::new(node), right: Box::new(right) }, r)),
            }
        } else {
            Ok((node, q))
        }
    }

    fn parse_paren(&self, p: usize, is_call: bool) -> (r: Result<(Vec<Parameter>, usize), SyntaxError>)
        requires
            p <= self.tokens@.len(),
        ensures
            params_result(r, spec_paren(self.tokens@, p as int, is_call)),
            r matches Ok((_, q)) ==> p < q < self.tokens@.len(),
        decreases self.tokens@.len() - p, 0int,
    {
        let n = self.tokens.len();
        if !self.has(p, TokenType::LPar) {
            return Err(self.error_at(p, SyntaxErrorKind::Expected(TokenType::LPar)));
        }
        let empty: Vec<Parameter> = Vec::new();
        assert(params_view(empty@) =~= Seq::<ParameterModel>::empty());
        match self.parse_parameters(p + 1, empty, false, is_call) {
            Err(e) => Err(e),
            Ok((ps, q)) => {
                if self.has(q + 1, TokenType::RPar) {
                    Ok((ps, q + 1))
                } else {
                    Err(self.error_at(q + 1, SyntaxErrorKind::Expected(TokenType::RPar)))
                }
            },
        }
    }

    fn parse_parameters(&self, c: usize, args: Vec<Parameter>, kw: bool, is_call: bool)
        -> (r: Result<(Vec<Parameter>, usize), SyntaxError>)
        requires
            1 <= c <= self.tokens@.len(),
        ensures
            params_result(r, spec_params(self.tokens@, c as int, params_view(args@), kw, is_call)),
            r matches Ok((_, q)) ==> c - 1 <= q < self.tokens@.len(),
        decreases self.tokens@.len() - c, 4int,
    {
        let n = self.tokens.len();
        if c >= n {
            return Ok((args, c - 1));
        }
        let c1 = if args.len() > 0 && self.tokens[c].is_type(TokenType::Comma) {
            c + 1
        } else {
            c
        };
        if c1 >= n {
            return Err(self.error_at(c1, SyntaxErrorKind::EndOfInput));
        }
        let ty = self.tokens[c1].token_type;
        let mut args = args;
        let ghost before = args@;
        if is_call && ty == TokenType::Alphanumeric && self.has(c1 + 1, TokenType::Assign) {
            match self.parse_formula(c1 + 2) {
                Err(e) => Err(e),
                Ok((v, r)) => {
                    let x = Parameter::Keyword { name: self.tokens[c1].value.clone(), value: v };
                    args.push(x);
                    proof {
                        lemma_params_push(before, x);
                    }
                    self.parse_parameters(r + 1, args, true, is_call)
                },
            }
        } else if is_call && formula_start(ty) {
            if kw {
                return Err(self.error_at(c1, SyntaxErrorKind::PositionalAfterKeyword));
            }
            match self.parse_formula(c1) {
                Err(e) => Err(e),
                Ok((v, r)) => {
                    let x = Parameter::Positional { value: v };
                    args.push(x);
                    proof {
                        lemma_params_push(before, x);
                    }
                    self.parse_parameters(r + 1, args, kw, is_call)
                },
            }
        } else if !is_call && ty == TokenType::Alphanumeric {
            match self.parse_datatype(c1 + 1) {
                Err(e) => Err(e),
                Ok(None) => Err(self.error_at(c1 + 1, SyntaxErrorKind::ArgumentTypeExpected)),
                Ok(Some((dt, r))) => {
                    let x = Parameter::Typed { name: self.tokens[c1].value.clone(), datatype: dt };
                    args.push(x);
                    proof {
                        lemma_params_push(before, x);
                    }
                    self.parse_parameters(r + 1, args, kw, is_call)
                },
            }
        } else {
            Ok((args, c1 - 1))
        }
    }

    fn parse_expression(&self, p: usize) -> (r: Result<Option<(ExpressionNode, usize)>, SyntaxError>)
        requires
            p <= self.tokens@.len(),
        ensures
            match r {
                Ok(Some((node, q))) => spec_expression(self.tokens@, p as int)
                    == Ok::<Option<(Node, int)>, SyntaxError>(Some((node_view(node), q as int)))
                    && p <= q < self.tokens@.len(),
                Ok(None) => spec_expression(self.tokens@, p as int) == Ok::<Option<(Node, int)>, SyntaxError>(None),
                Err(e) => spec_expression(self.tokens@, p as int) == Err::<Option<(Node, int)>, SyntaxError>(e),
            },
        decreases self.tokens@.len() - p,
    {
        if p >= self.tokens.len() {
            return Ok(None);
        }
        let ty = self.tokens[p].token_type;
        if variable_assignment(ty) {
            if !self.has(p + 1, TokenType::Alphanumeric) {
                return Err(self.error_at(p + 1, SyntaxErrorKind::Expected(TokenType::Alphanumeric)));
            }
            let (datatype, q) = match self.parse_datatype(p + 2) {
                Err(e) => return Err(e),
                Ok(Some((s, r))) => (Some(s), r + 1),
                Ok(None) => (None, p + 2),
            };
            if !self.has(q, TokenType::Assign) {
                return Err(self.error_at(q, SyntaxErrorKind::Expected(TokenType::Assign)));
            }
            match self.parse_formula(q + 1) {
                Err(e) => Err(e),
                Ok((v, r)) => Ok(Some((
                    ExpressionNode::VariableDeclaration {
                        name: self.tokens[p + 1].value.clone(),
                        datatype,
                        value: Box::new(v),
                    },
                    r,
                ))),
            }
        } else if formula_start(ty) {
            match self.parse_formula(p) {
                Err(e) => Err(e),
                Ok((v, r)) => Ok(Some((v, r))),
            }
        } else if ty == TokenType::Function {
            if !self.has(p + 1, TokenType::Alphanumeric) {
                return Err(self.error_at(p + 1, SyntaxErrorKind::Expected(TokenType::Alphanumeric)));
            }
            match self.parse_paren(p + 2, false) {
                Err(e) => Err(e),
                Ok((ps, r)) => {
                    let (datatype, end) = match self.parse_datatype(r + 1) {
                        Err(e) => return Err(e),
                        Ok(Some((s, q))) => (Some(s), q),
                        Ok(None) => (None, r),
                    };
                    let name = self.tokens[p + 1].value.clone();
                    proof {
                        lemma_function_view(name, datatype, ps);
                    }
                    Ok(Some((ExpressionNode::FunctionDeclaration { name, datatype, parameters: ps }, end)))
                },
            }
        } else if ty == TokenType::ExpressionEnd {
            self.parse_expression(p + 1)
        } else {
            Err(self.error_at(p, SyntaxErrorKind::NotInContext(ty)))
        }
    }
}

} // verus!
