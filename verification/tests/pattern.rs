use rsdb::lexer::Lexer;
use rsdb::pattern::LexerPattern;

#[test]
fn it_patterns() {
    assert!(LexerPattern::PATTERNS
        .iter()
        .any(|item| item == &LexerPattern::PATTERN_SELECT));
    assert!(LexerPattern::PATTERNS
        .iter()
        .any(|item| item == &LexerPattern::PATTERN_FROM));
    assert!(LexerPattern::PATTERNS
        .iter()
        .any(|item| item == &LexerPattern::PATTERN_ALIAS));
    assert!(LexerPattern::PATTERNS
        .iter()
        .any(|item| item == &LexerPattern::PATTERN_STAR));
    assert!(LexerPattern::PATTERNS
        .iter()
        .any(|item| item == &LexerPattern::PATTERN_COMMA));
    assert!(LexerPattern::PATTERNS
        .iter()
        .any(|item| item == &LexerPattern::PATTERN_WHITESPACE));
    assert!(LexerPattern::PATTERNS
        .iter()
        .any(|item| item == &LexerPattern::PATTERN_NAME));
}

#[test]
fn pattern_it_new() {
    let pattern = LexerPattern::new("SELECT * FROM table1");
    assert_eq!(pattern.text, "SELECT * FROM table1");
}

#[test]
fn it_match_pattern() {
    // Lexer::SELECT
    assert!(matches!(
        LexerPattern::new("SELECT").match_pattern(0),
        Some(lexer) if matches!(&lexer, Lexer::SELECT(value) if value.as_str() == "SELECT")
    ));
    assert!(matches!(
        LexerPattern::new("select").match_pattern(0),
        Some(lexer) if matches!(&lexer, Lexer::SELECT(value) if value.as_str() == "select")
    ));
    // Lexer::FROM
    assert!(matches!(
        LexerPattern::new("FROM").match_pattern(0),
        Some(lexer) if matches!(&lexer, Lexer::FROM(value) if value.as_str() == "FROM")
    ));
    assert!(matches!(
        LexerPattern::new("from").match_pattern(0),
        Some(lexer) if matches!(&lexer, Lexer::FROM(value) if value.as_str() == "from")
    ));
    // Lexer::ALIAS
    assert!(matches!(
        LexerPattern::new("AS").match_pattern(0),
        Some(lexer) if matches!(&lexer, Lexer::ALIAS(value) if value.as_str() == "AS")
    ));
    assert!(matches!(
        LexerPattern::new("as").match_pattern(0),
        Some(lexer) if matches!(&lexer, Lexer::ALIAS(value) if value.as_str() == "as")
    ));
    // Lexer::STAR
    assert!(matches!(
        LexerPattern::new("*").match_pattern(0),
        Some(lexer) if matches!(&lexer, Lexer::STAR(value) if value.as_str() == "*")
    ));
    // Lexer::COMMA
    assert!(matches!(
        LexerPattern::new(",").match_pattern(0),
        Some(lexer) if matches!(&lexer, Lexer::COMMA(value) if value.as_str() == ",")
    ));
    // Lexer::WHITESPACE
    assert!(matches!(
        LexerPattern::new(" \r\n\t").match_pattern(0),
        Some(lexer) if matches!(&lexer, Lexer::WHITESPACE(value) if value.as_str() == " \r\n\t")
    ));
    // Lexer::NAME
    assert!(matches!(
        LexerPattern::new("aA1_").match_pattern(0),
        Some(lexer) if matches!(&lexer, Lexer::NAME(value) if value.as_str() == "aA1_")
    ));
    assert!(matches!(
        LexerPattern::new("Aa1_").match_pattern(0),
        Some(lexer) if matches!(&lexer, Lexer::NAME(value) if value.as_str() == "Aa1_")
    ));
    assert!(matches!(LexerPattern::new("_aA1").match_pattern(0), None));
    assert!(matches!(LexerPattern::new("1aA_").match_pattern(0), None));
}

#[test]
fn it_matches() {
    // lower case
    assert!(matches!(
        LexerPattern::new("select * from table_1").matches(),
        Ok(lexers) if
            lexers.len() == 4 &&
            matches!(lexers.get(0), Some(lexer) if matches!(lexer, Lexer::SELECT(value) if value.as_str() == "select")) &&
            matches!(lexers.get(1), Some(lexer) if matches!(lexer, Lexer::STAR(value) if value.as_str() == "*")) &&
            matches!(lexers.get(2), Some(lexer) if matches!(lexer, Lexer::FROM(value) if value.as_str() == "from")) &&
            matches!(lexers.get(3), Some(lexer) if matches!(lexer, Lexer::NAME(value) if value.as_str() == "table_1"))
    ));
    // upper case
    assert!(matches!(
        LexerPattern::new("SELECT * FROM TABLE_1").matches(),
        Ok(lexers) if
            lexers.len() == 4 &&
            matches!(lexers.get(0), Some(lexer) if matches!(lexer, Lexer::SELECT(value) if value.as_str() == "SELECT")) &&
            matches!(lexers.get(1), Some(lexer) if matches!(lexer, Lexer::STAR(value) if value.as_str() == "*")) &&
            matches!(lexers.get(2), Some(lexer) if matches!(lexer, Lexer::FROM(value) if value.as_str() == "FROM")) &&
            matches!(lexers.get(3), Some(lexer) if matches!(lexer, Lexer::NAME(value) if value.as_str() == "TABLE_1"))
    ));
    // err
    assert!(matches!(
        LexerPattern::new("select * from _table1").matches(),
        Err(err) if err.cause == "expected _"
    ));
}
