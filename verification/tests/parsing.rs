use fan_front::lexer::FANGrammarToken;
use fan_front::lexer::FANReserved;
use fan_front::lexer::LexStackItem;
use fan_front::lexer::Lexer;
use fan_front::parser::Expandable;
use fan_front::parser::Expression;
use fan_front::parser::ExpressionType;
use fan_front::parser::ParseError;
use fan_front::parser::Parser;
use fan_front::parser::ProceduralExp;
use fan_front::parser::ReturnableExp;
use fan_front::parser::Statement;

fn lex_one(line: &str) -> Vec<FANGrammarToken> {
    let mut stack: Vec<LexStackItem> = Vec::new();
    let r = Lexer::lex_line(line, &mut stack).expect("line should tokenize");
    assert!(stack.is_empty());
    r
}

/// The driver discipline of `Parser::parse`, kept here so the tests can
/// look at the finished nodes.
fn drive(tokens: Vec<FANGrammarToken>) -> Result<Vec<Expression>, ParseError> {
    let mut nodes: Vec<Expression> = Vec::new();
    for tok in tokens.iter() {
        let accepted = match nodes.last_mut() {
            Some(last) => last.expand(tok)?,
            None => false,
        };
        if !accepted {
            nodes.push(Expression::commit(tok)?);
        }
    }
    Ok(nodes)
}

#[test]
fn if_line_commits_and_opens_nested_block() {
    let toks = lex_one("if signal == '=' {");
    let nodes = drive(toks).expect("the line is well-formed");
    // `if` commits the first node; the name, the operator with its operand,
    // and the block open their own nodes in turn
    assert_eq!(nodes.len(), 4);
    assert!(matches!(
        nodes[0].predict(),
        ExpressionType::Returnable(ReturnableExp::If)
    ));
    assert!(matches!(
        nodes[1].predict(),
        ExpressionType::Returnable(ReturnableExp::Statement(Statement::Name(_)))
    ));
    assert!(matches!(
        nodes[2].predict(),
        ExpressionType::Returnable(ReturnableExp::UnaryOperator(_))
    ));
    // the block opened by `{` is a fresh node of its own, still open
    match nodes[3].predict() {
        ExpressionType::Returnable(ReturnableExp::Statement(Statement::Block(b))) => {
            assert!(!b.is_closed());
        }
        other => panic!("expected a block node, got {:?}", other),
    }
}

#[test]
fn leading_else_is_unexpected() {
    let mut e = Expression::default();
    let r = e.expand(&FANGrammarToken::Reserved(FANReserved::Else));
    assert!(matches!(
        r,
        Err(ParseError::Unexpected(FANGrammarToken::Reserved(
            FANReserved::Else
        )))
    ));
}

#[test]
fn leading_from_is_unexpected() {
    let mut e = Expression::default();
    let r = e.expand(&FANGrammarToken::Reserved(FANReserved::From));
    assert!(matches!(
        r,
        Err(ParseError::Unexpected(FANGrammarToken::Reserved(
            FANReserved::From
        )))
    ));
}

#[test]
fn else_continues_an_open_if() {
    let toks = lex_one("if else");
    let nodes = drive(toks).expect("an else may follow an if");
    assert_eq!(nodes.len(), 1);
    assert!(matches!(
        nodes[0].predict(),
        ExpressionType::Returnable(ReturnableExp::If)
    ));
}

#[test]
fn from_continues_an_open_upload() {
    let toks = lex_one("upload from");
    let nodes = drive(toks).expect("a from may follow an upload");
    assert_eq!(nodes.len(), 1);
    assert!(matches!(nodes[0].predict(), ExpressionType::Import(_)));
}

#[test]
fn leading_closing_bracket_is_unexpected() {
    let r = Parser::parse(lex_one("8 )"));
    assert!(matches!(r, Err(ParseError::Unexpected(_))));
}

#[test]
fn leading_index_bracket_is_unexpected() {
    let r = Parser::parse(lex_one("["));
    assert!(matches!(r, Err(ParseError::Unexpected(_))));
}

#[test]
fn block_fills_children_until_close() {
    let toks = lex_one("{ link x }");
    let nodes = drive(toks).expect("the block is well-formed");
    assert_eq!(nodes.len(), 1);
    match nodes[0].predict() {
        ExpressionType::Returnable(ReturnableExp::Statement(Statement::Block(b))) => {
            assert!(b.is_closed());
        }
        other => panic!("expected a block node, got {:?}", other),
    }
}

#[test]
fn nested_blocks_close_innermost_first() {
    let toks = lex_one("{ { a } b }");
    let nodes = drive(toks).expect("nested blocks are well-formed");
    assert_eq!(nodes.len(), 1);
    match nodes[0].predict() {
        ExpressionType::Returnable(ReturnableExp::Statement(Statement::Block(b))) => {
            assert!(b.is_closed());
        }
        other => panic!("expected a block node, got {:?}", other),
    }
}

#[test]
fn tuple_fills_statements_until_close() {
    let toks = lex_one("(alpha, \"s\")");
    let nodes = drive(toks).expect("the tuple is well-formed");
    assert_eq!(nodes.len(), 1);
    match nodes[0].predict() {
        ExpressionType::Returnable(ReturnableExp::Statement(Statement::Tuple(t))) => {
            assert!(t.is_closed());
        }
        other => panic!("expected a tuple node, got {:?}", other),
    }
}

#[test]
fn tuple_rejects_a_non_statement_element() {
    let r = Parser::parse(lex_one("( + )"));
    assert!(matches!(r, Err(ParseError::Unexpected(_))));
}

#[test]
fn unary_operator_takes_one_operand() {
    let toks = lex_one("- 8 x");
    let nodes = drive(toks).expect("the tokens are well-formed");
    // the minus absorbs the digit as its operand; the trailing name opens a
    // sibling node
    assert_eq!(nodes.len(), 2);
    assert!(matches!(
        nodes[0].predict(),
        ExpressionType::Returnable(ReturnableExp::UnaryOperator(_))
    ));
    assert!(matches!(
        nodes[1].predict(),
        ExpressionType::Returnable(ReturnableExp::Statement(Statement::Name(_)))
    ));
}

#[test]
fn reserved_words_commit_their_families() {
    let toks = lex_one("link for while state automata let NULL");
    let nodes = drive(toks).expect("each reserved word commits a node");
    assert_eq!(nodes.len(), 7);
    assert!(matches!(
        nodes[0].predict(),
        ExpressionType::Procedural(ProceduralExp::Link)
    ));
    assert!(matches!(
        nodes[1].predict(),
        ExpressionType::Procedural(ProceduralExp::For)
    ));
    assert!(matches!(
        nodes[2].predict(),
        ExpressionType::Procedural(ProceduralExp::While)
    ));
    assert!(matches!(nodes[3].predict(), ExpressionType::Definition(_)));
    assert!(matches!(nodes[4].predict(), ExpressionType::Definition(_)));
    assert!(matches!(nodes[5].predict(), ExpressionType::Definition(_)));
    assert!(matches!(
        nodes[6].predict(),
        ExpressionType::Returnable(ReturnableExp::Statement(Statement::Literal(_)))
    ));
}

#[test]
fn parse_accepts_a_whole_state_body() {
    let toks = lex_one("state Add { let sub = 8u64 }");
    assert!(Parser::parse(toks).is_ok());
}

#[test]
fn parse_reports_first_error() {
    let toks = vec![
        FANGrammarToken::Reserved(FANReserved::If),
        FANGrammarToken::Reserved(FANReserved::From),
    ];
    let r = Parser::parse(toks);
    assert!(matches!(
        r,
        Err(ParseError::Unexpected(FANGrammarToken::Reserved(
            FANReserved::From
        )))
    ));
}
