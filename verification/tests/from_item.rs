use rsdb::expr::name::NameExpr;
use rsdb::frag::from_item::FromItem;
use rsdb::lexer::Lexer;
use rsdb::mat::LexerMatch;
use rsdb::parser::{LexerParser, SyntaxPattern};
use rsdb::{Named, NamedEnum};

#[test]
fn from_item_it_name() {
    assert_eq!(FromItem::NAMED, "from item");
    assert_eq!(FromItem::NAME(NameExpr::new("")).name(), "name expression");
}

#[test]
fn from_item_it_parse() {
    // lexers is end
    let mut source = SyntaxPattern::new("", vec![]);
    assert!(matches!(
        FromItem::parse(&source, 0),
        Err(err) if err.cause == "missing from item"
    ));
    // no from item in lexers
    source = SyntaxPattern::new(
        "SELECT",
        vec![Lexer::SELECT(LexerMatch::new_full_match("SELECT"))],
    );
    assert!(matches!(
        FromItem::parse(&source, 0),
        Err(err) if err.cause == "missing from item"
    ));
    // contain from item -> name expression
    source = SyntaxPattern::new(
        "3210",
        vec![Lexer::NAME(LexerMatch::new_full_match("3210"))],
    );
    assert!(matches!(
        FromItem::parse(&source, 0),
        Ok((item, index)) if matches!(&item, FromItem::NAME(expr) if expr.value == "3210") && index == 1
    ));
}
