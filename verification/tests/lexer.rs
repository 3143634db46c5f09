use rsdb::lexer::Lexer;
use rsdb::mat::LexerMatch;
use rsdb::NamedEnum;

fn new_lexer(name: &str, value: &str) -> Lexer {
    match name {
        "SELECT" => Lexer::SELECT(LexerMatch::new_full_match(value)),
        "FROM" => Lexer::FROM(LexerMatch::new_full_match(value)),
        "AS" => Lexer::ALIAS(LexerMatch::new_full_match(value)),
        "STAR" => Lexer::STAR(LexerMatch::new_full_match(value)),
        "COMMA" => Lexer::COMMA(LexerMatch::new_full_match(value)),
        "WHITESPACE" => Lexer::WHITESPACE(LexerMatch::new_full_match(value)),
        "NAME" => Lexer::NAME(LexerMatch::new_full_match(value)),
        _ => panic!("err lexer"),
    }
}

#[test]
fn lexer_it_name() {
    assert_eq!(new_lexer("SELECT", "").name(), "SELECT");
    assert_eq!(new_lexer("FROM", "").name(), "FROM");
    assert_eq!(new_lexer("AS", "").name(), "AS");
    assert_eq!(new_lexer("STAR", "").name(), "STAR");
    assert_eq!(new_lexer("COMMA", "").name(), "COMMA");
    assert_eq!(new_lexer("WHITESPACE", "").name(), "WHITESPACE");
    assert_eq!(new_lexer("NAME", "").name(), "NAME");
}

#[test]
fn lexer_it_value() {
    assert_eq!(new_lexer("SELECT", "cc45").value().as_str(), "cc45");
    assert_eq!(new_lexer("FROM", "d733").value().as_str(), "d733");
    assert_eq!(new_lexer("AS", "46c6").value().as_str(), "46c6");
    assert_eq!(new_lexer("STAR", "debb").value().as_str(), "debb");
    assert_eq!(new_lexer("COMMA", "41ce").value().as_str(), "41ce");
    assert_eq!(new_lexer("WHITESPACE", "b734").value().as_str(), "b734");
    assert_eq!(new_lexer("NAME", "ee4f").value().as_str(), "ee4f");
}
