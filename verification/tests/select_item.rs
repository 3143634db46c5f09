use rsdb::expr::name::NameExpr;
use rsdb::frag::select_item::SelectItem;
use rsdb::lexer::Lexer;
use rsdb::mat::LexerMatch;
use rsdb::parser::{LexerParser, SyntaxPattern};
use rsdb::{Named, NamedEnum};

#[test]
fn select_item_it_name() {
    assert_eq!(SelectItem::NAMED, "select item");
    assert_eq!(
        SelectItem::NAME(NameExpr::new("")).name(),
        "name expression"
    );
    assert_eq!(SelectItem::STAR.name(), "STAR");
}

#[test]
fn select_item_it_parse() {
    // lexers is end
    let mut source = SyntaxPattern::new("", vec![]);
    assert!(matches!(
        SelectItem::parse(&source, 0),
        Err(err) if err.cause == "missing select item"
    ));
    // no from item in lexers
    source = SyntaxPattern::new(
        "SELECT",
        vec![Lexer::SELECT(LexerMatch::new_full_match("SELECT"))],
    );
    assert!(matches!(
        SelectItem::parse(&source, 0),
        Err(err) if err.cause == "missing select item"
    ));
    // contain from item -> name expression
    source = SyntaxPattern::new(
        "4dfa",
        vec![Lexer::NAME(LexerMatch::new_full_match("4dfa"))],
    );
    assert!(matches!(
        SelectItem::parse(&source, 0),
        Ok((item, index)) if matches!(&item, SelectItem::NAME(expr) if expr.value == "4dfa" && index == 1
    )));
    // contain from item -> name expression
    source = SyntaxPattern::new("*", vec![Lexer::STAR(LexerMatch::new_full_match("*"))]);
    assert!(matches!(
        SelectItem::parse(&source, 0),
        Ok((item, index)) if matches!(item, SelectItem::STAR) && index == 1
    ));
}
