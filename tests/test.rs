use blaze::ast::{ExpressionNode, Parameter};
use blaze::diagnostics::{decimal, describe_expected, named_alternatives, Diagnostic};
use blaze::lexer::{LexError, Lexer};
use blaze::parser::{Parser, SyntaxError, SyntaxErrorKind};
use blaze::shell::{analyze_lexically, analyze_syntatically};
use blaze::tokens::{formula_tokens, TokenSide, TokenType};

#[test]
fn test_lexer() {
    let code_to_parse = "if mut while else".to_string();
    let expected_tokens = vec![
        TokenType::If,
        TokenType::Mut,
        TokenType::While,
        TokenType::Else,
    ];

    let code_lexer = Lexer::new(code_to_parse);
    let tokens = code_lexer.analyze().unwrap();

    let actual_token_types: Vec<TokenType> = tokens.iter().map(|token| token.token_type).collect();

    assert_eq!(actual_token_types, expected_tokens);
}

fn parser(code: String) -> Result<bool, LexError> {
    let mut code_lexer = Lexer::new(code);
    code_lexer.get_context().code_source = "Tests".to_string();
    let tokens = code_lexer.analyze()?;

    let mut code_parser = Parser::new(tokens.clone());
    let ast = code_parser.parse();

    Ok(ast.is_ok() && !tokens.is_empty() && !ast.unwrap().nodes.is_empty())
}

#[test]
fn test_parser() {
    assert!(parser("fin country_id = 1".to_string()).unwrap());
    assert!(!parser("fifn country_id = 1".to_string()).unwrap());
    assert!(parser(
        "function get_cheapest_cure(disease_name: str, pharmacy_is_open: bool): link;".to_string()
    )
    .unwrap());
    assert!(!parser("9 * 12 import".to_string()).unwrap());
    assert!(parser(
        "mut best_apples: arr = grocery_store.get_best_product_instances(amount=5).result;"
            .to_string()
    )
    .unwrap());
}

fn parse_text(code: &str) -> Result<Vec<ExpressionNode>, SyntaxError> {
    let tokens = Lexer::new(code.to_string()).analyze().unwrap();
    Parser::new(tokens).parse().map(|b| b.nodes)
}

#[test]
fn each_keyword_lexes_to_its_type() {
    let cases = [
        ("if", TokenType::If),
        ("mut", TokenType::Mut),
        ("while", TokenType::While),
        ("else", TokenType::Else),
        ("function", TokenType::Function),
        ("null", TokenType::Null),
        ("true", TokenType::True),
        ("false", TokenType::False),
        ("fin", TokenType::Fin),
    ];
    for (word, ty) in cases {
        let tokens = Lexer::new(word.to_string()).analyze().unwrap();
        assert_eq!(tokens.len(), 1);
        assert_eq!(tokens[0].token_type, ty);
        assert_eq!(tokens[0].value, word);
        assert_eq!((tokens[0].line, tokens[0].start), (0, 0));
    }
}

#[test]
fn lexer_tracks_lines_and_columns() {
    let tokens = Lexer::new("fin a = \"hi there\";\n  b++ >= 3.25".to_string()).analyze().unwrap();
    let summary: Vec<(TokenType, &str, u64, u64)> = tokens
        .iter()
        .map(|t| (t.token_type, t.value.as_str(), t.line, t.start))
        .collect();
    assert_eq!(
        summary,
        vec![
            (TokenType::Fin, "fin", 0, 0),
            (TokenType::Alphanumeric, "a", 0, 4),
            (TokenType::Assign, "=", 0, 6),
            (TokenType::CharArray, "hi there", 0, 8),
            (TokenType::ExpressionEnd, ";", 0, 18),
            (TokenType::Alphanumeric, "b", 1, 2),
            (TokenType::Increment, "++", 1, 3),
            (TokenType::GreaterEqual, ">=", 1, 6),
            (TokenType::Number, "3.25", 1, 9),
        ]
    );
}

#[test]
fn lexer_rejects_unterminated_string_and_stray_characters() {
    assert_eq!(
        Lexer::new("a = \"open".to_string()).analyze().unwrap_err(),
        LexError { line: 0, start: 4 }
    );
    assert_eq!(
        Lexer::new("x\n  # y".to_string()).analyze().unwrap_err(),
        LexError { line: 1, start: 2 }
    );
    assert_eq!(
        Lexer::new("a & b".to_string()).analyze().unwrap_err(),
        LexError { line: 0, start: 2 }
    );
}

#[test]
fn lexer_on_empty_text_gives_no_tokens() {
    assert!(Lexer::new(String::new()).analyze().unwrap().is_empty());
    assert!(Lexer::new(" \t\n ".to_string()).analyze().unwrap().is_empty());
}

#[test]
fn lexing_twice_gives_the_same_tokens() {
    let text = "mut x: int = -y * (z) != \"s\"; x.y(k=1)";
    let a = analyze_lexically(text.to_string()).unwrap();
    let b = analyze_lexically(text.to_string()).unwrap();
    assert_eq!(a.len(), b.len());
    for (x, y) in a.iter().zip(b.iter()) {
        assert_eq!(
            (x.token_type, &x.value, x.line, x.start),
            (y.token_type, &y.value, y.line, y.start)
        );
    }
}

#[test]
fn declaration_yields_one_variable_declaration() {
    let nodes = parse_text("fin country_id = 1").unwrap();
    assert_eq!(nodes.len(), 1);
    match &nodes[0] {
        ExpressionNode::VariableDeclaration { name, datatype, value } => {
            assert_eq!(name, "country_id");
            assert!(datatype.is_none());
            assert!(matches!(&**value, ExpressionNode::Number { text } if text == "1"));
        }
        other => panic!("unexpected node {:?}", other),
    }
}

#[test]
fn unknown_keyword_fails_whole_parse() {
    let err = parse_text("fifn country_id = 1").unwrap_err();
    assert_eq!(err.kind, SyntaxErrorKind::Expected(TokenType::ExpressionEnd));
    assert_eq!((err.line, err.start), (0, 5));
}

#[test]
fn typed_function_declaration() {
    let nodes =
        parse_text("function get_cheapest_cure(disease_name: str, pharmacy_is_open: bool): link;")
            .unwrap();
    assert_eq!(nodes.len(), 1);
    match &nodes[0] {
        ExpressionNode::FunctionDeclaration { name, datatype, parameters } => {
            assert_eq!(name, "get_cheapest_cure");
            assert_eq!(datatype.as_deref(), Some("link"));
            assert_eq!(parameters.len(), 2);
            assert!(matches!(&parameters[0],
                Parameter::Typed { name, datatype } if name == "disease_name" && datatype == "str"));
            assert!(matches!(&parameters[1],
                Parameter::Typed { name, datatype } if name == "pharmacy_is_open" && datatype == "bool"));
        }
        other => panic!("unexpected node {:?}", other),
    }
}

#[test]
fn function_parameter_without_type_fails() {
    let err = parse_text("function f(a, b: int)").unwrap_err();
    assert_eq!(err.kind, SyntaxErrorKind::ArgumentTypeExpected);
    assert_eq!((err.line, err.start), (0, 12));
}

#[test]
fn trailing_token_after_formula_fails() {
    let err = parse_text("9 * 12 import").unwrap_err();
    assert_eq!(err.kind, SyntaxErrorKind::Expected(TokenType::ExpressionEnd));
    assert_eq!((err.line, err.start), (0, 7));
}

#[test]
fn call_member_keyword_chain() {
    let nodes = parse_text(
        "mut best_apples: arr = grocery_store.get_best_product_instances(amount=5).result;",
    )
    .unwrap();
    assert_eq!(nodes.len(), 1);
    let ExpressionNode::VariableDeclaration { name, datatype, value } = &nodes[0] else {
        panic!("not a declaration");
    };
    assert_eq!(name, "best_apples");
    assert_eq!(datatype.as_deref(), Some("arr"));
    let ExpressionNode::Member { left, right } = &**value else {
        panic!("not a member");
    };
    assert!(matches!(&**left, ExpressionNode::Object { name } if name == "grocery_store"));
    let ExpressionNode::Member { left: call, right: result } = &**right else {
        panic!("not a nested member");
    };
    assert!(matches!(&**result, ExpressionNode::Object { name } if name == "result"));
    let ExpressionNode::Call { callee, parameters } = &**call else {
        panic!("not a call");
    };
    assert!(matches!(&**callee,
        ExpressionNode::Object { name } if name == "get_best_product_instances"));
    assert_eq!(parameters.len(), 1);
    assert!(matches!(&parameters[0],
        Parameter::Keyword { name, value: ExpressionNode::Number { text } }
            if name == "amount" && text == "5"));
}

#[test]
fn repeated_prefix_operator_is_rejected() {
    let err = parse_text("!!x").unwrap_err();
    assert_eq!(err.kind, SyntaxErrorKind::OperatorAlreadyUsed(TokenType::Not));
    assert_eq!((err.line, err.start), (0, 1));
    let err = parse_text("fin a = ++--x").unwrap_err();
    assert_eq!(err.kind, SyntaxErrorKind::OperatorAlreadyUsed(TokenType::Decrement));
    assert_eq!((err.line, err.start), (0, 10));
    let err = parse_text("!x!").unwrap_err();
    assert_eq!(err.kind, SyntaxErrorKind::OperatorAlreadyUsed(TokenType::Not));
    assert_eq!((err.line, err.start), (0, 2));
}

#[test]
fn distinct_prefix_operators_nest_first_outermost() {
    let nodes = parse_text("!++x").unwrap();
    let ExpressionNode::UnaryOperator { operator, operand, side } = &nodes[0] else {
        panic!("not unary");
    };
    assert_eq!((*operator, *side), (TokenType::Not, TokenSide::Left));
    let ExpressionNode::UnaryOperator { operator, operand, side } = &**operand else {
        panic!("not unary");
    };
    assert_eq!((*operator, *side), (TokenType::Increment, TokenSide::Left));
    assert!(matches!(&**operand, ExpressionNode::Object { name } if name == "x"));
}

#[test]
fn postfix_operator_wraps_on_the_right() {
    let nodes = parse_text("x++").unwrap();
    let ExpressionNode::UnaryOperator { operator, operand, side } = &nodes[0] else {
        panic!("not unary");
    };
    assert_eq!((*operator, *side), (TokenType::Increment, TokenSide::Right));
    assert!(matches!(&**operand, ExpressionNode::Object { name } if name == "x"));
}

#[test]
fn positional_after_keyword_is_rejected() {
    let err = parse_text("f(a=1, 2)").unwrap_err();
    assert_eq!(err.kind, SyntaxErrorKind::PositionalAfterKeyword);
    assert_eq!((err.line, err.start), (0, 7));
    let message = err.message("Tests");
    assert!(message.contains("Positional argument follows keyword argument"));
    assert!(message.contains("Tests:1:8"));
}

#[test]
fn binary_operators_associate_to_the_right() {
    let nodes = parse_text("10 - 3 - 2").unwrap();
    let ExpressionNode::BinaryOperator(top) = &nodes[0] else {
        panic!("not binary");
    };
    assert_eq!(top.operator, TokenType::Minus);
    assert!(matches!(&*top.left_operand, ExpressionNode::Number { text } if text == "10"));
    let ExpressionNode::BinaryOperator(inner) = &*top.right_operand else {
        panic!("not right-nested");
    };
    assert!(matches!(&*inner.left_operand, ExpressionNode::Number { text } if text == "3"));
    assert!(matches!(&*inner.right_operand, ExpressionNode::Number { text } if text == "2"));
}

#[test]
fn statements_need_terminators_between_them() {
    let nodes = parse_text("fin a = 1; mut b = \"s\"; null;").unwrap();
    assert_eq!(nodes.len(), 3);
    assert!(parse_text(";").unwrap().is_empty());
    assert!(parse_text("").unwrap().is_empty());
}

#[test]
fn missing_member_after_dot_fails() {
    let err = parse_text("a.").unwrap_err();
    assert_eq!(err.kind, SyntaxErrorKind::ChildrenExpected);
}

#[test]
fn statement_start_not_in_context() {
    let err = parse_text("while").unwrap_err();
    assert_eq!(err.kind, SyntaxErrorKind::NotInContext(TokenType::While));
    assert!(err.message("Shell").contains("Shell:1:1"));
}

#[test]
fn missing_operand_reports_expected_formula() {
    let err = parse_text("fin a = ;").unwrap_err();
    assert_eq!(err.kind, SyntaxErrorKind::ExpectedFormula);
    assert_eq!((err.line, err.start), (0, 8));
    let message = err.message("Tests");
    assert!(message.contains("Syntax Error"));
    assert!(message.contains("or one of 6 other tokens are expected"));
}

#[test]
fn dangling_operator_reports_end_of_input() {
    let err = parse_text("1 +").unwrap_err();
    assert_eq!(err.kind, SyntaxErrorKind::EndOfInput);
    assert_eq!((err.line, err.start), (0, 2));
}

#[test]
fn few_alternatives_are_all_named_in_order() {
    let (named, others) = named_alternatives(vec![TokenType::LPar, TokenType::Comma]);
    assert_eq!(named, vec![TokenType::LPar, TokenType::Comma]);
    assert_eq!(others, 0);
}

#[test]
fn many_alternatives_name_three_and_count_the_rest() {
    let all = formula_tokens();
    let (named, others) = named_alternatives(all.clone());
    assert_eq!(named.len(), 3);
    assert_eq!(others, 6);
    for t in &named {
        assert!(all.contains(t));
    }
    assert!(named[0] != named[1] && named[1] != named[2] && named[0] != named[2]);
}

#[test]
fn shell_pipeline_reports_each_stage() {
    assert_eq!(analyze_syntatically("fin a = 1".to_string()).unwrap().nodes.len(), 1);
    assert!(matches!(
        analyze_syntatically("fin a = @".to_string()),
        Err(Diagnostic::Lex(LexError { line: 0, start: 8 }))
    ));
    assert!(matches!(
        analyze_syntatically("fin = 1".to_string()),
        Err(Diagnostic::Syntax(SyntaxError { kind: SyntaxErrorKind::Expected(TokenType::Alphanumeric), .. }))
    ));
    let message = Diagnostic::Lex(LexError { line: 2, start: 4 }).message("Shell");
    assert!(message.contains("Lexical Error"));
    assert!(message.ends_with("Shell:3:5"));
}

#[test]
fn bare_name_argument_is_positional() {
    let nodes = parse_text("f(x)").unwrap();
    let ExpressionNode::Call { callee, parameters } = &nodes[0] else {
        panic!("not a call");
    };
    assert!(matches!(&**callee, ExpressionNode::Object { name } if name == "f"));
    assert_eq!(parameters.len(), 1);
    assert!(matches!(&parameters[0],
        Parameter::Positional { value: ExpressionNode::Object { name } } if name == "x"));
}

#[test]
fn bare_name_after_keyword_is_rejected() {
    let err = parse_text("f(a = 1, x)").unwrap_err();
    assert_eq!(err.kind, SyntaxErrorKind::PositionalAfterKeyword);
    assert_eq!((err.line, err.start), (0, 9));
    let message = err.message("Tests");
    assert!(message.contains("Positional argument follows keyword argument"));
    assert!(message.ends_with("Tests:1:10"));
}

#[test]
fn positional_number_after_keyword_reports_one_based_place() {
    let err = parse_text("f(a = 1, 2)").unwrap_err();
    assert_eq!(err.kind, SyntaxErrorKind::PositionalAfterKeyword);
    assert!(err.message("Tests").ends_with(":1:10"));
}

#[test]
fn repeated_increment_reports_one_based_place() {
    let err = parse_text("++ ++ x").unwrap_err();
    assert_eq!(err.kind, SyntaxErrorKind::OperatorAlreadyUsed(TokenType::Increment));
    let message = err.message("Tests");
    assert!(message.contains("'Increment' operator is already used"));
    assert!(message.ends_with(":1:4"));
}

#[test]
fn expected_token_message_and_context() {
    let tokens = Lexer::new("fin x 1".to_string()).analyze().unwrap();
    let mut code_parser = Parser::new(tokens);
    let err = code_parser.parse().unwrap_err();
    assert_eq!(err.kind, SyntaxErrorKind::Expected(TokenType::Assign));
    assert!(err.message("Tests").ends_with("'Assign' is expected <-= Tests:1:7"));
    let context = code_parser.get_context();
    assert_eq!((context.line, context.position), (1, 7));
}

#[test]
fn decimal_writes_digits() {
    assert_eq!(decimal(0), "0");
    assert_eq!(decimal(7), "7");
    assert_eq!(decimal(1234567890), "1234567890");
}

#[test]
fn many_alternatives_text_counts_the_rest() {
    let text = describe_expected(formula_tokens());
    assert!(text.starts_with('\''));
    assert!(text.ends_with(", or one of 6 other tokens are"));
    assert_eq!(describe_expected(vec![TokenType::Assign]), "'Assign' is");
    assert_eq!(
        describe_expected(vec![TokenType::If, TokenType::Mut, TokenType::Fin, TokenType::Dot]),
        "If, Mut, Fin, or Dot are"
    );
}
