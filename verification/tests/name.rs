use rsdb::expr::name::NameExpr;
use rsdb::lexer::Lexer;
use rsdb::mat::LexerMatch;
use rsdb::parser::{LexerParser, SyntaxPattern};
use rsdb::Named;

#[test]
fn name_it_name() {
    assert_eq!(NameExpr::NAMED, "name expression");
}

#[test]
fn name_it_new() {
    assert_eq!(NameExpr::new("4812").value, "4812");
}

#[test]
fn name_it_parse() {
    // lexers is end
    let mut source = SyntaxPattern::new("", vec![]);
    assert!(matches!(
        NameExpr::parse(&source, 0),
        Err(err) if err.cause == "missing name expression"
    ));
    // current lexer is not a name expression
    source = SyntaxPattern::new("", vec![Lexer::SELECT(LexerMatch::new("SELECT", 0, 5))]);
    assert!(matches!(
        NameExpr::parse(&source, 0),
        Err(err) if err.cause == "missing name expression"
    ));
    // current lexer is not a name expression
    source = SyntaxPattern::new("", vec![Lexer::NAME(LexerMatch::new("8d06", 0, 4))]);
    assert!(matches!(
        NameExpr::parse(&source, 0),
        Ok((expr, index)) if expr.value == "8d06" && index == 1
    ));
}
