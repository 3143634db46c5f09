use rsdb::expr::name::NameExpr;
use rsdb::frag::from_item::FromItem;
use rsdb::frag::select_item::SelectItem;
use rsdb::parser::parse_stmt;
use rsdb::stmt::stmt::Stmt;

#[test]
fn it_parse_star_statement() {
    let stmt = parse_stmt("SELECT * FROM table1").unwrap();
    let Stmt::SELECT(s) = stmt;
    assert_eq!(s.select_clause.items.items.len(), 1);
    assert!(matches!(s.select_clause.items.items[0].value, SelectItem::STAR));
    assert!(s.select_clause.items.items[0].alias.is_none());
    assert_eq!(s.from_clause.items.items.len(), 1);
    assert_eq!(
        s.from_clause.items.items[0].value,
        FromItem::NAME(NameExpr::new("table1"))
    );
    assert!(s.from_clause.items.items[0].alias.is_none());
}

#[test]
fn it_parse_aliased_statement() {
    let stmt = parse_stmt("select a, b as c from t1 as t").unwrap();
    let Stmt::SELECT(s) = stmt;
    let select_items = &s.select_clause.items.items;
    assert_eq!(select_items.len(), 2);
    assert_eq!(select_items[0].value, SelectItem::NAME(NameExpr::new("a")));
    assert!(select_items[0].alias.is_none());
    assert_eq!(select_items[1].value, SelectItem::NAME(NameExpr::new("b")));
    assert_eq!(select_items[1].alias, Some(NameExpr::new("c")));
    let from_items = &s.from_clause.items.items;
    assert_eq!(from_items.len(), 1);
    assert_eq!(from_items[0].value, FromItem::NAME(NameExpr::new("t1")));
    assert_eq!(from_items[0].alias, Some(NameExpr::new("t")));
}

#[test]
fn it_reject_empty_select_items() {
    let err = parse_stmt("SELECT").unwrap_err();
    assert_eq!(err.cause, "missing items");
    assert_eq!(err.start, 5);
    assert_eq!(err.end, 6);
}

#[test]
fn it_reject_empty_from_items() {
    let err = parse_stmt("SELECT a FROM").unwrap_err();
    assert_eq!(err.cause, "missing items");
    assert_eq!(err.start, 12);
    assert_eq!(err.end, 13);
}

#[test]
fn it_reject_trailing_comma() {
    let err = parse_stmt("SELECT a, FROM t").unwrap_err();
    assert_eq!(err.cause, "missing select item");
    assert_eq!(err.start, 10);
    assert_eq!(err.end, 14);
}

#[test]
fn it_reject_underscore_leading_name() {
    let err = parse_stmt("SELECT a FROM _t").unwrap_err();
    assert_eq!(err.cause, "expected _");
    assert_eq!(err.start, 14);
    assert_eq!(err.end, 15);
}

#[test]
fn it_reject_missing_from_clause() {
    let err = parse_stmt("SELECT a").unwrap_err();
    assert_eq!(err.cause, "missing from clause");
    assert_eq!(err.start, 7);
    assert_eq!(err.end, 8);
}

#[test]
fn it_reject_star_from_item() {
    let err = parse_stmt("SELECT a FROM *").unwrap_err();
    assert_eq!(err.cause, "missing from item");
    assert_eq!(err.start, 14);
    assert_eq!(err.end, 15);
}

#[test]
fn it_reject_statement_without_select() {
    let err = parse_stmt("* FROM t").unwrap_err();
    assert_eq!(err.cause, "expected *");
    assert_eq!(err.start, 0);
    assert_eq!(err.end, 1);
}

#[test]
fn it_reject_empty_statement() {
    let err = parse_stmt("").unwrap_err();
    assert_eq!(err.cause, "missing statement");
    assert_eq!(err.start, 0);
    assert_eq!(err.end, 0);
}

#[test]
fn it_reject_non_ascii_character() {
    // positions count characters, so the offending snowman is one wide
    let err = parse_stmt("SELECT \u{2603}").unwrap_err();
    assert_eq!(err.cause, "expected \u{2603}");
    assert_eq!(err.start, 7);
    assert_eq!(err.end, 8);
}

#[test]
fn it_parse_is_deterministic() {
    let first = parse_stmt("select a, b as c from t1 as t");
    let second = parse_stmt("select a, b as c from t1 as t");
    assert_eq!(first, second);
    let first_err = parse_stmt("SELECT a, FROM t");
    let second_err = parse_stmt("SELECT a, FROM t");
    assert_eq!(first_err, second_err);
}

#[test]
fn it_ignore_tokens_after_statement() {
    let stmt = parse_stmt("SELECT a FROM b extra").unwrap();
    let Stmt::SELECT(s) = stmt;
    assert_eq!(s.from_clause.items.items.len(), 1);
    assert_eq!(
        s.from_clause.items.items[0].value,
        FromItem::NAME(NameExpr::new("b"))
    );
}
