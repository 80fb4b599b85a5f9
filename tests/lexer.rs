use renamer::lexer::tokenize_source;
use renamer::token::TokenType;

#[test]
fn tokens_of_a_template() {
    let tokens = tokenize_source(&"a [x >= 1_0 ? 'it''s' : \"q\\\"\"] b".to_string());
    let kinds: Vec<TokenType> = tokens.iter().map(|t| t.kind).collect();
    assert_eq!(
        kinds,
        vec![
            TokenType::Identifier,
            TokenType::Unvariable,
            TokenType::BlockStart,
            TokenType::Identifier,
            TokenType::GreaterThanEqualSign,
            TokenType::Number,
            TokenType::QuestionMark,
            TokenType::String,
            TokenType::String,
            TokenType::Semicolon,
            TokenType::String,
            TokenType::BlockEnd,
            TokenType::Unvariable,
            TokenType::Identifier,
        ]
    );
    assert_eq!(tokens[0].content, "a");
    assert_eq!(tokens[1].content, " ");
    assert_eq!(tokens[5].content, "1_0");
    assert_eq!(tokens[10].content, "q\"");
    assert_eq!(tokens[12].content, " ");
    assert_eq!(tokens[13].content, "b");
    assert_eq!(tokens[4].start, 5);
    assert_eq!(tokens[4].length, 2);
}

#[test]
fn keywords_and_double_operators() {
    let tokens = tokenize_source(&"[number(x) ** string(y) // 2 -- 1 != ?>]".to_string());
    let kinds: Vec<TokenType> = tokens.iter().map(|t| t.kind).collect();
    assert_eq!(
        kinds,
        vec![
            TokenType::BlockStart,
            TokenType::KeyNumber,
            TokenType::ParentL,
            TokenType::Identifier,
            TokenType::ParentR,
            TokenType::Power,
            TokenType::KeyString,
            TokenType::ParentL,
            TokenType::Identifier,
            TokenType::ParentR,
            TokenType::Log,
            TokenType::Number,
            TokenType::DoubleSubtraction,
            TokenType::Number,
            TokenType::NotEqualSign,
            TokenType::QuestionMarkGreaterThan,
            TokenType::BlockEnd,
        ]
    );
}
