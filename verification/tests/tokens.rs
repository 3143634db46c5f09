use rsdb::lexer::Lexer;
use rsdb::mat::LexerMatch;
use rsdb::pattern::LexerPattern;
use rsdb::{Is, Values};

#[test]
fn it_longest_match_wins() {
    // a name one character longer than the keyword wins over it
    let lexers = LexerPattern::new("SELECT1").matches().unwrap();
    assert_eq!(lexers.len(), 1);
    assert!(matches!(&lexers[0], Lexer::NAME(value) if value.as_str() == "SELECT1"));
}

#[test]
fn it_keyword_wins_equal_length_name() {
    // at equal length the fixed keyword kind outranks the name kind
    for text in ["AS", "as", "As", "aS"] {
        let lexers = LexerPattern::new(text).matches().unwrap();
        assert_eq!(lexers.len(), 1);
        assert!(matches!(&lexers[0], Lexer::ALIAS(value) if value.as_str() == text));
    }
    let lexers = LexerPattern::new("from").matches().unwrap();
    assert!(matches!(&lexers[0], Lexer::FROM(value) if value.as_str() == "from"));
    let lexers = LexerPattern::new("fromx").matches().unwrap();
    assert!(matches!(&lexers[0], Lexer::NAME(value) if value.as_str() == "fromx"));
}

#[test]
fn it_tokenize_legal_classes_totally() {
    // a text made only of the legal classes always tokenizes, whatever
    // the grammar would say of it
    let lexers = LexerPattern::new("SELECT*FROM,,  name_1").matches().unwrap();
    assert_eq!(lexers.len(), 6);
    // the matched ranges tile the text; only whitespace is dropped
    let spans: Vec<(usize, usize)> = lexers.iter().map(|l| {
        let m = l.value();
        (m.start(), m.end())
    }).collect();
    assert_eq!(spans, vec![(0, 6), (6, 7), (7, 11), (11, 12), (12, 13), (15, 21)]);
}

#[test]
fn it_tokenize_covers_text() {
    let text = "select a , b";
    let lexers = LexerPattern::new(text).matches().unwrap();
    let parts: Vec<&str> = vec!["select", "a", ",", "b"];
    assert_eq!(lexers.len(), parts.len());
    for (lexer, part) in lexers.iter().zip(parts.iter()) {
        assert_eq!(&lexer.value().as_str(), part);
    }
}

#[test]
fn it_whitespace_forms() {
    let lexers = LexerPattern::new("a\u{b}\u{c}\t\r\n b").matches().unwrap();
    assert_eq!(lexers.len(), 2);
    assert!(matches!(&lexers[0], Lexer::NAME(value) if value.as_str() == "a"));
    assert!(matches!(&lexers[1], Lexer::NAME(value) if value.as_str() == "b"));
}

#[test]
fn it_lexer_parse() {
    // lower case
    assert!(matches!(
        Lexer::parse("select * from table_1"),
        Ok(lexers) if
            lexers.len() == 4 &&
            matches!(lexers.get(0), Some(lexer) if matches!(lexer, Lexer::SELECT(value) if value.as_str() == "select")) &&
            matches!(lexers.get(1), Some(lexer) if matches!(lexer, Lexer::STAR(value) if value.as_str() == "*")) &&
            matches!(lexers.get(2), Some(lexer) if matches!(lexer, Lexer::FROM(value) if value.as_str() == "from")) &&
            matches!(lexers.get(3), Some(lexer) if matches!(lexer, Lexer::NAME(value) if value.as_str() == "table_1"))
    ));
    // upper case
    assert!(matches!(
        Lexer::parse("SELECT * FROM TABLE_1"),
        Ok(lexers) if
            lexers.len() == 4 &&
            matches!(lexers.get(0), Some(lexer) if matches!(lexer, Lexer::SELECT(value) if value.as_str() == "SELECT")) &&
            matches!(lexers.get(1), Some(lexer) if matches!(lexer, Lexer::STAR(value) if value.as_str() == "*")) &&
            matches!(lexers.get(2), Some(lexer) if matches!(lexer, Lexer::FROM(value) if value.as_str() == "FROM")) &&
            matches!(lexers.get(3), Some(lexer) if matches!(lexer, Lexer::NAME(value) if value.as_str() == "TABLE_1"))
    ));
    // err
    assert!(matches!(
        Lexer::parse("select * from _table1"),
        Err(err) if err.msg() == "SyntaxError: expected _ [0, 14]"
    ));
}

#[test]
fn it_values() {
    let values = Lexer::values();
    assert_eq!(values.len(), 7);
    assert!(matches!(values[0], Lexer::SELECT(_)));
    assert!(matches!(values[1], Lexer::FROM(_)));
    assert!(matches!(values[2], Lexer::ALIAS(_)));
    assert!(matches!(values[3], Lexer::STAR(_)));
    assert!(matches!(values[4], Lexer::COMMA(_)));
    assert!(matches!(values[5], Lexer::WHITESPACE(_)));
    assert!(matches!(values[6], Lexer::NAME(_)));
}

#[test]
fn it_is() {
    let a = Lexer::SELECT(LexerMatch::new_full_match("SELECT"));
    let b = Lexer::SELECT(LexerMatch::new_full_match("select"));
    let c = Lexer::NAME(LexerMatch::new_full_match("select"));
    assert!(a.is(&b));
    assert!(!a.is(&c));
    assert!(a.is_not(&c));
    assert!(!a.is_not(&b));
}

#[test]
fn it_is_clause() {
    assert!(Lexer::SELECT(LexerMatch::new_full_match("SELECT")).is_clause());
    assert!(Lexer::FROM(LexerMatch::new_full_match("FROM")).is_clause());
    assert!(!Lexer::ALIAS(LexerMatch::new_full_match("AS")).is_clause());
    assert!(!Lexer::NAME(LexerMatch::new_full_match("x")).is_clause());
}

#[test]
fn it_is_value_ignores() {
    assert!(Lexer::SELECT(LexerMatch::new_full_match("SELECT")).is_value_ignores());
    assert!(Lexer::FROM(LexerMatch::new_full_match("FROM")).is_value_ignores());
    assert!(Lexer::STAR(LexerMatch::new_full_match("*")).is_value_ignores());
    assert!(Lexer::COMMA(LexerMatch::new_full_match(",")).is_value_ignores());
    assert!(Lexer::WHITESPACE(LexerMatch::new_full_match(" ")).is_value_ignores());
    assert!(!Lexer::ALIAS(LexerMatch::new_full_match("AS")).is_value_ignores());
    assert!(!Lexer::NAME(LexerMatch::new_full_match("x")).is_value_ignores());
}

#[test]
fn it_match_accessors() {
    let mat = LexerMatch::new("SELECT a", 7, 8);
    assert_eq!(mat.start(), 7);
    assert_eq!(mat.end(), 8);
    assert_eq!(mat.range(), 7..8);
    assert_eq!(mat.text(), "SELECT a");
    assert_eq!(mat.as_str(), "a");
}

#[test]
fn it_match_full_and_eof() {
    let full = LexerMatch::new_full_match("abc");
    assert_eq!((full.start(), full.end()), (0, 3));
    assert_eq!(full.as_str(), "abc");
    let eof = LexerMatch::new_eof("abc");
    assert_eq!((eof.start(), eof.end()), (2, 3));
    assert_eq!(eof.as_str(), "c");
    let empty = LexerMatch::new_eof("");
    assert_eq!((empty.start(), empty.end()), (0, 0));
    assert_eq!(empty.as_str(), "");
}
