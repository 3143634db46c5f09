use rsdb::expr::items::ItemsExpr;
use rsdb::expr::name::NameExpr;
use rsdb::lexer::Lexer;
use rsdb::mat::LexerMatch;
use rsdb::parser::{LexerParser, SyntaxPattern};
use rsdb::Named;

#[test]
fn items_it_name() {
    assert_eq!(ItemsExpr::<NameExpr>::NAMED, "items");
}

#[test]
fn items_it_new() {
    assert_eq!(
        ItemsExpr::<NameExpr>::new(vec![NameExpr::new("d208")]).items,
        [NameExpr::new("d208")]
    );
}

#[test]
fn it_len_check() {
    let source = SyntaxPattern::new("", vec![]);
    let expr = ItemsExpr::new(vec![NameExpr::new("")]);
    // len greater than min
    assert!(matches!(expr.min_len_check(&source, 0, 0), None));
    // len equal min
    assert!(matches!(expr.min_len_check(&source, 0, 1), None));
    // len less than min
    assert!(matches!(
        expr.min_len_check(&source, 0, 2),
        Some(err) if err.cause == "missing items"
    ));
}

#[test]
fn items_it_parse() {
    // no item
    let mut source = SyntaxPattern::new("", vec![]);
    assert!(matches!(
        ItemsExpr::<NameExpr>::parse(&source, 0),
        Ok((expr, index)) if expr.items == vec![] && index == 0
    ));
    // one items
    source = SyntaxPattern::new(
        "cee1",
        vec![Lexer::NAME(LexerMatch::new_full_match("cee1"))],
    );
    assert!(matches!(
        ItemsExpr::<NameExpr>::parse(&source, 0),
        Ok((expr, index)) if expr.items == vec![NameExpr::new("cee1")] && index == 1
    ));
    // two items
    source = SyntaxPattern::new(
        "57f3, fe80",
        vec![
            Lexer::NAME(LexerMatch::new("57f3, fe80", 0, 4)),
            Lexer::COMMA(LexerMatch::new("57f3, fe80", 4, 5)),
            Lexer::NAME(LexerMatch::new("57f3, fe80", 6, 10)),
        ],
    );
    assert!(matches!(
        ItemsExpr::<NameExpr>::parse(&source, 0),
        Ok((expr, index)) if expr.items == vec![NameExpr::new("57f3"), NameExpr::new("fe80")] && index == 3
    ));
    // no item after the comma
    source = SyntaxPattern::new(
        "410a,",
        vec![
            Lexer::NAME(LexerMatch::new("410a,", 0, 4)),
            Lexer::COMMA(LexerMatch::new("410a,", 4, 5)),
        ],
    );
    assert!(matches!(
        ItemsExpr::<NameExpr>::parse(&source, 0),
        Err(err) if err.cause == "missing items"
    ));
}
