use renamer::ast::{Node, NodeFor, NodeIdentifer, NodeNumber};
use renamer::errors::{EvalError, ParseError};
use renamer::interpreter::Interpreter;
use renamer::number::{NNumber, NumError};
use renamer::template::compile;
use renamer::value::ObjectType;

fn text_of(v: ObjectType) -> String {
    match v.into_string() {
        Ok(s) => s.inner_value,
        Err(e) => panic!("conversion failed: {}", e.text()),
    }
}

fn run(template: &str, named: &[(&str, &str)], positional: &[&str]) -> Result<String, EvalError> {
    let node = compile(&template.to_string()).expect("template should parse");
    let named: Vec<(String, String)> = named.iter().map(|(k, v)| (k.to_string(), v.to_string())).collect();
    let positional: Vec<String> = positional.iter().map(|s| s.to_string()).collect();
    let mut interpreter = Interpreter::new();
    interpreter.execute(&named, &positional, &node).map(text_of)
}

fn render(template: &str) -> String {
    match run(template, &[], &[]) {
        Ok(s) => s,
        Err(e) => panic!("evaluation failed: {}", e.text()),
    }
}

#[test]
fn literal_text_round_trips() {
    assert_eq!(render("holiday photo 01.jpg"), "holiday photo 01.jpg");
    assert_eq!(render("a+b=c (d) ] !?"), "a+b=c (d) ] !?");
    assert_eq!(render("1_000 files"), "1_000 files");
}

#[test]
fn empty_template_does_not_parse() {
    assert!(matches!(compile(&String::new()), Err(ParseError::UnexpectedEnd)));
}

#[test]
fn multiplication_binds_tighter_than_addition() {
    assert_eq!(render("[2 + 3 * 4]"), "14");
    assert_eq!(render("[(2 + 3) * 4]"), "20");
}

#[test]
fn string_subtraction_removes_first_or_all() {
    assert_eq!(render("[string(\"hello\") - \"l\"]"), "helo");
    assert_eq!(render("[string(\"hello\") -- \"l\"]"), "heo");
    assert_eq!(render("[\"hello\" - \"z\"]"), "hello");
    assert_eq!(render("[\"aaa\" -- \"aa\"]"), "a");
}

#[test]
fn ternary_does_not_evaluate_the_other_branch() {
    assert_eq!(render("[1 == 1 ? \"yes\" : undefined_var]"), "yes");
    assert_eq!(render("[1 == 2 ? undefined_var : \"no\"]"), "no");
    assert_eq!(render("[1 == 2 ?> \"shown\"]"), "");
}

#[test]
fn scope_indirection_through_positional_index() {
    let r = run("[#idx]", &[("idx", "1")], &["first", "second"]);
    assert_eq!(r.unwrap(), "second");
    let r = run("[#year]", &[("year", "0")], &["2024"]);
    assert_eq!(r.unwrap(), "2024");
}

#[test]
fn scope_indirection_needs_a_positional_alias_for_the_value() {
    let r = run("[#year]", &[("year", "2024")], &["2024"]);
    assert!(matches!(r, Err(EvalError::VariableNotFound(name)) if name == "#year"));
}

#[test]
fn reserved_variables_cannot_be_written() {
    let mut interpreter = Interpreter::new();
    assert!(matches!(
        interpreter.mutate_scope("#count".to_string(), "5".to_string()),
        Err(EvalError::ReservedVariable(k)) if k == "#count"
    ));
    assert!(matches!(
        interpreter.mutate_scope("#0".to_string(), "x".to_string()),
        Err(EvalError::ReservedVariable(_))
    ));
    assert!(interpreter.mutate_scope("name".to_string(), "x".to_string()).is_ok());
}

#[test]
fn count_reflects_previous_evaluations() {
    let node = compile(&"[#count]/[#cap_count]".to_string()).unwrap();
    let mut interpreter = Interpreter::new();
    let named = vec![("a".to_string(), "x".to_string())];
    let positional = vec!["x".to_string(), "y".to_string()];
    assert_eq!(text_of(interpreter.execute(&named, &positional, &node).unwrap()), "0/3");
    assert_eq!(text_of(interpreter.execute(&named, &positional, &node).unwrap()), "1/3");
}

#[test]
fn number_rounds_to_decimal_places() {
    assert_eq!(render("[number(3.14159, 2)]"), "3.14");
    assert_eq!(render("[number(2.5, 0)]"), "3");
    assert_eq!(render("[number(-2.5, 0)]"), "-3");
    assert_eq!(render("[number(1234, (-2))]"), "1200");
    assert_eq!(render("[number(1234, -2)]"), "1232");
    assert_eq!(render("[number(\"7.50\")]"), "7.5");
}

#[test]
fn evaluating_twice_gives_the_same_text() {
    let node = compile(&"[name] - [number(#0) * 2]".to_string()).unwrap();
    let mut interpreter = Interpreter::new();
    interpreter.mutate_scope("name".to_string(), "file".to_string()).unwrap();
    let first = interpreter.evaluate(&node).map(text_of);
    let second = interpreter.evaluate(&node).map(text_of);
    assert!(matches!(first, Err(EvalError::VariableNotFound(_))));
    assert!(matches!(second, Err(EvalError::VariableNotFound(_))));
    let node = compile(&"[name]-[1 + 1]".to_string()).unwrap();
    let a = text_of(interpreter.evaluate(&node).unwrap());
    let b = text_of(interpreter.evaluate(&node).unwrap());
    assert_eq!(a, "file-2");
    assert_eq!(a, b);
}

#[test]
fn captures_fill_the_template() {
    let r = run("[name]_[#1].jpg", &[("name", "photo")], &["photo", "2024"]);
    assert_eq!(r.unwrap(), "photo_2024.jpg");
}

#[test]
fn numbers_render_canonically() {
    assert_eq!(render("[1 / 3]"), "0.3333333333333333");
    assert_eq!(render("[0.1 + 0.2]"), "0.3");
    assert_eq!(render("[-7 % 3]"), "-1");
    assert_eq!(render("[7.5 % 2]"), "1.5");
    assert_eq!(render("[2 ** 10]"), "1024");
    assert_eq!(render("[2 ** -2]"), "0.25");
    assert_eq!(render("[8 // 2]"), "3");
    assert_eq!(render("[1_000 + 1]"), "1001");
    assert_eq!(render("[10 - 12]"), "-2");
}

#[test]
fn double_subtraction_on_numbers_adds() {
    assert_eq!(render("[5 -- 2]"), "7");
}

#[test]
fn text_and_numbers_concatenate() {
    assert_eq!(render("[\"a\" + 1]"), "a1");
    assert_eq!(render("[\"n\" + (1 == 1)]"), "ntrue");
    assert_eq!(render("[1 + \"2\"]"), "3");
}

#[test]
fn comparisons() {
    assert_eq!(render("[2 > 1]"), "true");
    assert_eq!(render("[2 <= 1]"), "false");
    assert_eq!(render("[\"a\" == \"a\"]"), "true");
    assert_eq!(render("[(1 == 1) == 1]"), "true");
}

#[test]
fn evaluation_errors() {
    assert!(matches!(run("[nope]", &[], &[]), Err(EvalError::VariableNotFound(n)) if n == "nope"));
    assert!(matches!(run("[number(\"abc\")]", &[], &[]), Err(EvalError::NotNumeric(s)) if s == "abc"));
    assert!(matches!(run("[2 ? \"a\" : \"b\"]", &[], &[]), Err(EvalError::NotBoolean)));
    assert!(matches!(run("[\"a\" ? 1 : 2]", &[], &[]), Err(EvalError::TextNotBoolean)));
    assert!(matches!(run("[\"a\" < \"b\"]", &[], &[]), Err(EvalError::UnsupportedComparison)));
    assert!(matches!(run("[\"a\" * 2]", &[], &[]), Err(EvalError::UnsupportedOperation)));
    assert!(matches!(run("[(1 == 1) + 1]", &[], &[]), Err(EvalError::UnsupportedOperation)));
    assert!(matches!(run("[1 / 0]", &[], &[]), Err(EvalError::Arithmetic(NumError::DivisionByZero))));
    assert!(matches!(run("[10 ** 30]", &[], &[]), Err(EvalError::Arithmetic(NumError::OutOfRange))));
    assert!(matches!(run("[2 ** 0.5]", &[], &[]), Err(EvalError::Arithmetic(NumError::NotRepresentable))));
    assert!(matches!(run("[7 // 2]", &[], &[]), Err(EvalError::Arithmetic(NumError::NotRepresentable))));
}

#[test]
fn parse_errors() {
    assert!(matches!(compile(&"[1 +".to_string()), Err(ParseError::UnexpectedEnd)));
    assert!(matches!(
        compile(&"[(1]".to_string()),
        Err(ParseError::UnexpectedToken { found: renamer::token::TokenType::BlockEnd, start: 3, length: 1, .. })
    ));
    assert!(matches!(
        compile(&"[1.2.3]".to_string()),
        Err(ParseError::UnexpectedToken { found: renamer::token::TokenType::BlockEnd, start: 6, .. })
    ));
    let tokens = renamer::lexer::tokenize_source(&"1.2.3".to_string());
    let mut parser = renamer::parser::Parser::new(tokens, "1.2.3".to_string());
    assert!(matches!(parser.parse_number(), Err(ParseError::InvalidNumber { start: 0, length: 5 })));
    assert!(matches!(compile(&"a[1] [2 +]".to_string()), Err(ParseError::UnexpectedToken { .. })));
}

#[test]
fn parse_error_message_points_at_the_token() {
    let code = "[(1]".to_string();
    let e = compile(&code).err().unwrap();
    let msg = e.message(&code);
    assert!(msg.starts_with("\u{1b}[31merror\u{1b}[39m: Unexpected (\u{1b}[34mBlockEnd\u{1b}[39m), expected (\u{1b}[34mParentR\u{1b}[39m)"));
    assert!(msg.ends_with("\n\t[(1]\n\t   \u{1b}[31m^\u{1b}[39m"));
}

#[test]
fn loop_node_joins_iterations() {
    let name = || Box::new(Node::Identifier(NodeIdentifer { content: "i".to_string(), use_for_name: true }));
    let num = |n: i64| Box::new(Node::Number(NodeNumber { content: NNumber { num: n, den: 1 } }));
    let node = Node::For(NodeFor {
        identifer: name(),
        from: num(0),
        to: num(3),
        content: Box::new(Node::Identifier(NodeIdentifer::new("i".to_string()))),
    });
    let mut interpreter = Interpreter::new();
    assert_eq!(text_of(interpreter.evaluate(&node).unwrap()), "012");
    let reserved = Node::For(NodeFor {
        identifer: Box::new(Node::Identifier(NodeIdentifer { content: "#i".to_string(), use_for_name: true })),
        from: num(0),
        to: num(2),
        content: Box::new(Node::Identifier(NodeIdentifer::new("x".to_string()))),
    });
    assert!(matches!(interpreter.evaluate(&reserved), Err(EvalError::ReservedVariable(_))));
}

#[test]
fn unicode_letters_and_digits_are_word_characters() {
    assert!(renamer::string_utils::is_identifer('é'));
    assert!(!renamer::string_utils::is_identifer('-'));
    assert!(renamer::string_utils::is_numeric('٣'));
    assert!(!renamer::string_utils::is_numeric('x'));
}

#[test]
fn error_messages() {
    assert_eq!(EvalError::VariableNotFound("x".to_string()).text(), "Couldn't find variable: x");
    assert_eq!(EvalError::Arithmetic(NumError::DivisionByZero).text(), "Division by zero");
    assert_eq!(ParseError::UnexpectedEnd.message(&"[".to_string()), "Unexpected end of input");
}
