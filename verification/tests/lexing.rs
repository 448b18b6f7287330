use fan_front::lexer::BlockSymbol;
use fan_front::lexer::FANGrammarToken;
use fan_front::lexer::FANReserved;
use fan_front::lexer::LexError;
use fan_front::lexer::LexStackItem;
use fan_front::lexer::LexStackItemType;
use fan_front::lexer::Lexer;
use fan_front::lexer::StringLiteralType;
use fan_front::lexer::TokenFlag;

fn lex_one(line: &str) -> Vec<FANGrammarToken> {
    let mut stack: Vec<LexStackItem> = Vec::new();
    let r = Lexer::lex_line(line, &mut stack).expect("line should tokenize");
    assert!(stack.is_empty(), "no open context may remain");
    r
}

fn lex_lines(lines: &[&str]) -> Result<Vec<Vec<FANGrammarToken>>, LexError> {
    let data: Vec<String> = lines.iter().map(|s| s.to_string()).collect();
    Lexer::lex_buf(&data)
}

fn op_text(t: &FANGrammarToken) -> &str {
    match t {
        FANGrammarToken::Operational(o) => o.lexeme(),
        _ => panic!("expected an operator token, got {:?}", t),
    }
}

#[test]
fn tokenize_test() {
    let data = "automata Mathematica: Mealy<signal>{# define signal name
         state AddAssign<signal: ()> { # no need to use context

            link self -> NULL;
        }

        state Add<signal: char> { # signal is reserved!
            let sub = 8u64 + 1.f32;
            if signal == '=' {
                link self -> AddAssign;
            } else {
                link self -> Null;
            }
        }
    }";
    let lines: Vec<String> = data.split('\n').map(|s| s.to_string()).collect();
    println!("{:?}", Lexer::lex_buf(&lines));
}

#[test]
fn classifies_declaration_line() {
    // the statement-like prefix of `let sub = 8u64 + 1.f32;`
    let toks = lex_one("let sub = 8u64 + 1.f32;");
    assert!(matches!(
        toks[0],
        FANGrammarToken::Reserved(FANReserved::LocVarDeclare)
    ));
    assert!(matches!(&toks[1], FANGrammarToken::Name(n) if n == "sub"));
    assert_eq!(op_text(&toks[2]), "=");
    assert!(matches!(&toks[3], FANGrammarToken::NumericalLexem(x) if x == "8u64"));
    assert_eq!(op_text(&toks[4]), "+");
    // a dot is no identifier character, so `1.f32` splits into a digit
    // literal, a dot operator and a name
    assert!(matches!(&toks[5], FANGrammarToken::Digital(d) if d == "1"));
    assert_eq!(op_text(&toks[6]), ".");
    assert!(matches!(&toks[7], FANGrammarToken::Name(n) if n == "f32"));
    assert_eq!(op_text(&toks[8]), ";");
    assert_eq!(toks.len(), 9);
}

#[test]
fn classifies_condition_line() {
    let toks = lex_one("if signal == '=' {");
    assert!(matches!(toks[0], FANGrammarToken::Reserved(FANReserved::If)));
    assert!(matches!(&toks[1], FANGrammarToken::Name(n) if n == "signal"));
    assert_eq!(op_text(&toks[2]), "==");
    assert!(matches!(toks[3], FANGrammarToken::CharLiteral('=')));
    assert!(matches!(
        toks[4],
        FANGrammarToken::BlockSymbol(BlockSymbol::BlockBracketOpen)
    ));
    assert_eq!(toks.len(), 5);
}

#[test]
fn operator_merge_is_two_wide() {
    let toks = lex_one(">=");
    assert_eq!(toks.len(), 1);
    assert_eq!(op_text(&toks[0]), ">=");

    // a third operator character never joins a finished two-character merge
    let toks = lex_one(">==");
    assert_eq!(toks.len(), 2);
    assert_eq!(op_text(&toks[0]), ">=");
    assert_eq!(op_text(&toks[1]), "=");
}

#[test]
fn break_marker_stops_operator_merge() {
    let toks = lex_one("> =");
    assert_eq!(toks.len(), 2);
    assert_eq!(op_text(&toks[0]), ">");
    assert_eq!(op_text(&toks[1]), "=");
}

#[test]
fn whitespace_runs_equal_single_space() {
    let wide = lex_one("alpha  \t   beta");
    let narrow = lex_one("alpha beta");
    assert_eq!(wide, narrow);
    assert!(wide.iter().all(|t| !matches!(t, FANGrammarToken::TokBrk)));
    assert_eq!(wide.len(), 2);
}

#[test]
fn string_literal_content_round_trips() {
    let toks = lex_one("\"hello world\"");
    assert_eq!(toks.len(), 1);
    assert!(matches!(&toks[0], FANGrammarToken::StringLiteral(s) if s == "hello world"));

    // the opposite delimiter is ordinary content inside a string
    let toks = lex_one("\"it's\"");
    assert!(matches!(&toks[0], FANGrammarToken::StringLiteral(s) if s == "it's"));
}

#[test]
fn char_literal_single_value() {
    let toks = lex_one("'a'");
    assert_eq!(toks.len(), 1);
    assert!(matches!(toks[0], FANGrammarToken::CharLiteral('a')));
}

#[test]
fn char_literal_two_values_fails() {
    let mut stack: Vec<LexStackItem> = Vec::new();
    let r = Lexer::lex_line("'ab'", &mut stack);
    assert!(matches!(r, Err(LexError::InvalidCharLiteralValue)));
}

#[test]
fn empty_char_literal_fails() {
    let mut stack: Vec<LexStackItem> = Vec::new();
    let r = Lexer::lex_line("''", &mut stack);
    assert!(matches!(r, Err(LexError::InvalidCharLiteralValue)));
}

#[test]
fn escaped_delimiter_is_kept_as_escape_unit() {
    // the only escapable character is the literal's own delimiter; the
    // escape marker itself stays in the one-character buffer
    let toks = lex_one("'\\''");
    assert_eq!(toks.len(), 1);
    assert!(matches!(toks[0], FANGrammarToken::CharLiteral('\\')));
}

#[test]
fn string_literal_spans_three_lines() {
    let r = lex_lines(&["\"ab", "cd", "ef\""]).expect("spanning literal is legal");
    assert_eq!(r.len(), 1);
    assert_eq!(r[0].len(), 1);
    assert!(matches!(&r[0][0], FANGrammarToken::StringLiteral(s) if s == "abcdef"));
}

#[test]
fn unterminated_literal_reported_at_end_of_buffer() {
    let r = lex_lines(&["\"ab", "cd"]);
    assert!(matches!(r, Err(LexError::LiteralEndNotFound)));
}

#[test]
fn comment_never_reaches_next_line() {
    let with_comment = lex_lines(&["x # trailing )( \"garbage", "y"]).expect("comment is legal");
    let without = lex_lines(&["x", "y"]).expect("plain names are legal");
    assert_eq!(with_comment, without);
}

#[test]
fn comment_swallows_rest_of_line() {
    let toks = lex_one("link # link self -> NULL;");
    assert_eq!(toks.len(), 1);
    assert!(matches!(
        toks[0],
        FANGrammarToken::Reserved(FANReserved::LinkDeclare)
    ));
}

#[test]
fn unknown_punctuation_is_invalid_operator() {
    let mut stack: Vec<LexStackItem> = Vec::new();
    let r = Lexer::lex_line("a $ b", &mut stack);
    assert!(matches!(r, Err(LexError::InvalidOperatorToken)));
}

#[test]
fn empty_lines_are_dropped_from_buffer_output() {
    let r = lex_lines(&["", "first", "   ", "second"]).expect("buffer is legal");
    assert_eq!(r.len(), 2);
    assert!(matches!(&r[0][0], FANGrammarToken::Name(n) if n == "first"));
    assert!(matches!(&r[1][0], FANGrammarToken::Name(n) if n == "second"));
}

#[test]
fn reserved_word_table_is_exact() {
    assert!(matches!(
        FANReserved::try_from("automata"),
        Some(FANReserved::AutomataDeclare)
    ));
    assert!(matches!(
        FANReserved::try_from("state"),
        Some(FANReserved::StateDeclare)
    ));
    assert!(matches!(
        FANReserved::try_from("let"),
        Some(FANReserved::LocVarDeclare)
    ));
    assert!(matches!(
        FANReserved::try_from("link"),
        Some(FANReserved::LinkDeclare)
    ));
    assert!(matches!(FANReserved::try_from("NULL"), Some(FANReserved::NULL)));
    assert!(matches!(FANReserved::try_from("null"), Some(FANReserved::NULL)));
    assert!(matches!(FANReserved::try_from("Null"), Some(FANReserved::NULL)));
    assert!(matches!(FANReserved::try_from("if"), Some(FANReserved::If)));
    assert!(matches!(FANReserved::try_from("else"), Some(FANReserved::Else)));
    assert!(matches!(FANReserved::try_from("for"), Some(FANReserved::For)));
    assert!(matches!(FANReserved::try_from("while"), Some(FANReserved::While)));
    assert!(matches!(
        FANReserved::try_from("upload"),
        Some(FANReserved::Upload)
    ));
    assert!(matches!(FANReserved::try_from("from"), Some(FANReserved::From)));
    assert!(FANReserved::try_from("automaton").is_none());
    assert!(FANReserved::try_from("Let").is_none());
}

#[test]
fn bracket_table_is_exact() {
    assert!(matches!(
        BlockSymbol::try_from(&'{'),
        Some(BlockSymbol::BlockBracketOpen)
    ));
    assert!(matches!(
        BlockSymbol::try_from(&'}'),
        Some(BlockSymbol::BlockBracketClose)
    ));
    assert!(matches!(
        BlockSymbol::try_from(&'('),
        Some(BlockSymbol::TupleBracketOpen)
    ));
    assert!(matches!(
        BlockSymbol::try_from(&')'),
        Some(BlockSymbol::TupleBracketClose)
    ));
    assert!(matches!(
        BlockSymbol::try_from(&'['),
        Some(BlockSymbol::IndexBracketOpen)
    ));
    assert!(matches!(
        BlockSymbol::try_from(&']'),
        Some(BlockSymbol::IndexBracketClose)
    ));
    assert!(BlockSymbol::try_from(&'<').is_none());
}

#[test]
fn context_openers_are_exact() {
    assert!(matches!(
        LexStackItemType::try_from(&'"'),
        Some(LexStackItemType::StringLiteral(StringLiteralType::String))
    ));
    assert!(matches!(
        LexStackItemType::try_from(&'\''),
        Some(LexStackItemType::StringLiteral(StringLiteralType::Char))
    ));
    assert!(matches!(
        LexStackItemType::try_from(&'#'),
        Some(LexStackItemType::Comment)
    ));
    assert!(LexStackItemType::try_from(&'{').is_none());
}

#[test]
fn identifier_characters() {
    assert!(TokenFlag::is_literal('a'));
    assert!(TokenFlag::is_literal('Z'));
    assert!(TokenFlag::is_literal('7'));
    assert!(TokenFlag::is_literal('_'));
    assert!(!TokenFlag::is_literal('.'));
    assert!(!TokenFlag::is_literal('('));
    assert!(!TokenFlag::is_literal(' '));
}

#[test]
fn operator_expansion_checks_the_table() {
    let toks = lex_one(">");
    match &toks[0] {
        FANGrammarToken::Operational(op) => {
            let wide = op.try_expand("=").expect(">= is in the table");
            assert_eq!(wide.lexeme(), ">=");
            assert!(op.try_expand(">").is_none());
            assert!(wide.try_expand("=").is_none());
        }
        other => panic!("expected an operator, got {:?}", other),
    }
}

#[test]
fn split_line_emits_flagged_raw_tokens() {
    let mut stack: Vec<LexStackItem> = Vec::new();
    let raw = Lexer::split_line("ab 'c'", &mut stack).expect("line splits");
    assert!(stack.is_empty());
    assert_eq!(raw.len(), 3);
    assert!(matches!(raw[0].0, TokenFlag::Literal));
    assert_eq!(raw[0].1, "ab");
    assert!(matches!(raw[1].0, TokenFlag::TokBrk));
    assert!(matches!(
        raw[2].0,
        TokenFlag::StringLiteral(StringLiteralType::Char)
    ));
    assert_eq!(raw[2].1, "c");
}
