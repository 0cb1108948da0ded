use boa::builtins::object::Callable;
use boa::builtins::value::Value;
use boa::exec::Interpreter;
use boa::realm::Realm;
use boa::syntax::ast::{CompareOp, Node};
use boa::syntax::lexer::{lex, lexeme, LexError, Punctuator, Token};
use boa::syntax::parser::{ParseError, Parser};
use boa::{exec, forward, parser_expr};

fn chars(s: &str) -> Vec<char> {
    s.chars().collect()
}

#[test]
fn lexer_reads_every_token() {
    let tokens = lex(&chars("a_1 .b(')', \"x\") [12] => == != === !== {:;,}")).unwrap();
    assert_eq!(
        tokens,
        vec![
            Token::Identifier(0, 3),
            Token::Punctuator(Punctuator::Dot),
            Token::Identifier(5, 6),
            Token::Punctuator(Punctuator::OpenParen),
            Token::Text(8, 9),
            Token::Punctuator(Punctuator::Comma),
            Token::Text(13, 14),
            Token::Punctuator(Punctuator::CloseParen),
            Token::Punctuator(Punctuator::OpenBracket),
            Token::Number(12),
            Token::Punctuator(Punctuator::CloseBracket),
            Token::Punctuator(Punctuator::Arrow),
            Token::Punctuator(Punctuator::Equal),
            Token::Punctuator(Punctuator::NotEqual),
            Token::Punctuator(Punctuator::StrictEqual),
            Token::Punctuator(Punctuator::StrictNotEqual),
            Token::Punctuator(Punctuator::OpenBrace),
            Token::Punctuator(Punctuator::Colon),
            Token::Punctuator(Punctuator::Semicolon),
            Token::Punctuator(Punctuator::Comma),
            Token::Punctuator(Punctuator::CloseBrace),
        ]
    );
    assert_eq!(lex(&chars("")), Ok(vec![]));
    assert_eq!(lex(&chars(" \n\t\r")), Ok(vec![]));
    assert_eq!(lex(&chars("2147483647")), Ok(vec![Token::Number(i32::MAX)]));
    assert_eq!(lexeme(&chars("  x"), 0), Ok((None, 1)));
    assert_eq!(lexeme(&chars("  x"), 2), Ok((Some(Token::Identifier(2, 3)), 3)));
}

#[test]
fn lexer_errors() {
    assert_eq!(lex(&chars("a # b")), Err(LexError::UnexpectedCharacter(2)));
    assert_eq!(lex(&chars("a = b")), Err(LexError::UnexpectedCharacter(2)));
    assert_eq!(lex(&chars("!")), Err(LexError::UnexpectedCharacter(0)));
    assert_eq!(lex(&chars("x 'abc")), Err(LexError::UnterminatedString(2)));
    assert_eq!(lex(&chars("'a\nb'")), Err(LexError::UnterminatedString(0)));
    assert_eq!(lex(&chars("'a\\'b'")), Err(LexError::EscapeSequence(2)));
    assert_eq!(lex(&chars("2147483648")), Err(LexError::NumberTooLarge(0)));
    assert_eq!(
        lex(&chars(" 99999999999999999999999")),
        Err(LexError::NumberTooLarge(1))
    );
    assert_eq!(
        LexError::UnexpectedCharacter(2).message(),
        "unexpected character at position 2"
    );
    assert_eq!(
        LexError::UnterminatedString(10).message(),
        "unterminated string literal at position 10"
    );
    assert_eq!(
        LexError::EscapeSequence(0).message(),
        "escape sequence in a string literal at position 0"
    );
    assert_eq!(
        LexError::NumberTooLarge(7).message(),
        "integer literal is too large at position 7"
    );
}

#[test]
fn parser_builds_the_tree() {
    let node = parser_expr("a.b[0](1, 'x') === null;").unwrap();
    let statements = match node {
        Node::Block(statements) => statements,
        _ => panic!("a program is a block"),
    };
    assert_eq!(statements.len(), 1);
    match &statements[0] {
        Node::Compare(CompareOp::StrictEqual, left, right) => {
            assert!(matches!(**right, Node::Null));
            match &**left {
                Node::Call(callee, arguments) => {
                    assert_eq!(arguments.len(), 2);
                    assert!(matches!(arguments[0], Node::Number(1)));
                    assert!(matches!(&arguments[1], Node::Text(s) if s == "x"));
                    match &**callee {
                        Node::Index(object, key) => {
                            assert!(matches!(**key, Node::Number(0)));
                            match &**object {
                                Node::Field(inner, name) => {
                                    assert_eq!(name, "b");
                                    assert!(matches!(&**inner, Node::Local(n) if n == "a"));
                                }
                                _ => panic!("a.b is a field access"),
                            }
                        }
                        _ => panic!("a.b[0] is an index access"),
                    }
                }
                _ => panic!("the left side is a call"),
            }
        }
        _ => panic!("the statement is a comparison"),
    }
}

#[test]
fn parser_reads_literals_and_arrows() {
    let node = parser_expr("({a: 1, 'b': true, 3: false}); [x => x, (p, q) => {p; q}, () => []]")
        .unwrap();
    let statements = match node {
        Node::Block(statements) => statements,
        _ => panic!("a program is a block"),
    };
    assert_eq!(statements.len(), 2);
    match &statements[0] {
        Node::Object(members) => {
            assert_eq!(members.len(), 3);
            assert_eq!(members[0].0, "a");
            assert_eq!(members[1].0, "b");
            assert!(matches!(members[1].1, Node::Bool(true)));
            assert_eq!(members[2].0, "3");
            assert!(matches!(members[2].1, Node::Bool(false)));
        }
        _ => panic!("braces in parentheses are an object literal"),
    }
    match &statements[1] {
        Node::Array(items) => {
            assert_eq!(items.len(), 3);
            match &items[0] {
                Node::Arrow(parameters, body) => {
                    assert_eq!(parameters, &vec!["x".to_string()]);
                    assert!(matches!(&**body, Node::Local(n) if n == "x"));
                }
                _ => panic!("x => x is an arrow function"),
            }
            match &items[1] {
                Node::Arrow(parameters, body) => {
                    assert_eq!(parameters, &vec!["p".to_string(), "q".to_string()]);
                    assert!(matches!(&**body, Node::Block(s) if s.len() == 2));
                }
                _ => panic!("the second item is an arrow function"),
            }
            match &items[2] {
                Node::Arrow(parameters, body) => {
                    assert!(parameters.is_empty());
                    assert!(matches!(&**body, Node::Array(s) if s.is_empty()));
                }
                _ => panic!("() => [] is an arrow function"),
            }
        }
        _ => panic!("brackets are an array literal"),
    }
}

#[test]
fn parser_errors() {
    let tokens = lex(&chars("a.")).unwrap();
    let source = chars("a.");
    let parser = Parser { src: &source, tokens: &tokens };
    assert!(matches!(parser.parse_all(), Err(ParseError::UnexpectedEnd)));
    assert_eq!(parser_expr("a.").err().unwrap(), "ParsingError: unexpected end of input");
    assert_eq!(parser_expr("(1").err().unwrap(), "ParsingError: unexpected end of input");
    assert_eq!(parser_expr("[1 2]").err().unwrap(), "ParsingError: unexpected token 2");
    assert_eq!(parser_expr("{a 1}").err().unwrap(), "ParsingError: unexpected token 2");
    assert_eq!(parser_expr(")").err().unwrap(), "ParsingError: unexpected token 0");
    assert_eq!(parser_expr("a.1").err().unwrap(), "ParsingError: unexpected token 2");
    assert_eq!(
        parser_expr("'open").err().unwrap(),
        "SyntaxError: unterminated string literal at position 0"
    );
    assert_eq!(ParseError::TooDeep.message(), "program is nested too deeply");
    assert!(matches!(parser.expression(0, 0), Err(ParseError::TooDeep)));
    assert!(matches!(parser.expression(0, 2), Err(ParseError::TooDeep)));
    assert!(matches!(parser.expression(0, 3), Err(ParseError::UnexpectedEnd)));
}

#[test]
fn forward_reports_values_and_errors() {
    let mut engine = Interpreter::new(Realm::create());
    assert_eq!(forward(&mut engine, ""), "undefined");
    assert_eq!(forward(&mut engine, "1; 2; 'three'"), "three");
    assert_eq!(forward(&mut engine, "null"), "null");
    assert_eq!(forward(&mut engine, "undefined"), "undefined");
    assert_eq!(forward(&mut engine, "[1, 2].length"), "2");
    assert_eq!(forward(&mut engine, "({a: {b: 'deep'}}).a.b"), "deep");
    assert_eq!(forward(&mut engine, "({a: 5})['a']"), "5");
    assert_eq!(forward(&mut engine, "['x', 'y'][1]"), "y");
    assert_eq!(forward(&mut engine, "(() => {})"), "[object Function]");
    assert_eq!(forward(&mut engine, "Symbol()"), "Symbol()");
    assert_eq!(forward(&mut engine, "({})"), "[object Object]");
    assert_eq!(
        forward(&mut engine, "missing"),
        "Error: ReferenceError: missing is not defined"
    );
    assert_eq!(forward(&mut engine, "1(2)"), "Error: TypeError: not a function");
    assert_eq!(forward(&mut engine, "(() => 1)()"), "1");
    assert_eq!(forward(&mut engine, "({})()"), "Error: TypeError: not a function");
    assert_eq!(forward(&mut engine, "a ="), "SyntaxError: unexpected character at position 2");
    assert_eq!(forward(&mut engine, "[1,"), "ParsingError: unexpected end of input");
    assert_eq!(forward(&mut engine, "[missing, JSON.parse('[]')]"),
        "Error: ReferenceError: missing is not defined");
}

#[test]
fn comparisons() {
    assert_eq!(exec("1 == 1"), "true");
    assert_eq!(exec("1 === 1"), "true");
    assert_eq!(exec("1 != 1"), "false");
    assert_eq!(exec("1 !== 2"), "true");
    assert_eq!(exec("'a' == 'a'"), "true");
    assert_eq!(exec("'1' == 1"), "false");
    assert_eq!(exec("null == undefined"), "true");
    assert_eq!(exec("null === undefined"), "false");
    assert_eq!(exec("({}) == ({})"), "false");
    assert_eq!(exec("JSON == JSON"), "true");
    assert_eq!(exec("1 == 1 == true"), "true");
    assert_eq!(exec("Symbol() == Symbol()"), "false");
    assert_eq!(exec("JSON.parse('1.0') === 1"), "true");
}

#[test]
fn run_keeps_objects_in_the_heap() {
    let mut engine = Interpreter::new(Realm::create());
    let before = engine.realm.heap.len();
    let node = parser_expr("({a: [1, 2]})").unwrap();
    let scope = engine.realm.global_env;
    let value = match engine.run(&node, scope, 8) {
        Ok(v) => v,
        Err(_) => panic!("the literal has a value"),
    };
    assert_eq!(engine.realm.heap.len(), before + 2);
    assert!(value.is_object());
    assert_eq!(
        value
            .get_field(&engine.realm.heap, "a")
            .get_field(&engine.realm.heap, "length")
            .to_integer(),
        2
    );
    let closure = match engine.run(&parser_expr("(a, b) => a").unwrap(), scope, 8) {
        Ok(Value::Function(id)) => id,
        _ => panic!("an arrow function is a function value"),
    };
    assert!(
        engine.realm.heap.objects[closure].call
            == Some(Callable::Closure(engine.realm.global_env, 0))
    );
    assert_eq!(engine.realm.functions.len(), 1);
    assert_eq!(engine.realm.functions[0].parameters, vec!["a".to_string(), "b".to_string()]);
    assert!(matches!(&engine.realm.functions[0].body, Node::Local(n) if n == "a"));
    assert_eq!(
        Value::Function(closure)
            .get_field(&engine.realm.heap, "length")
            .to_integer(),
        2
    );
    assert!(engine.resolve(&"JSON".to_string(), scope).is_some());
    assert!(engine.resolve(&"nothing".to_string(), scope).is_none());
}

#[test]
fn functions_of_the_script_are_called() {
    let mut engine = Interpreter::new(Realm::create());
    assert_eq!(forward(&mut engine, "(x => x)('a')"), "a");
    assert_eq!(forward(&mut engine, "((a, b) => b)(1)"), "undefined");
    assert_eq!(forward(&mut engine, "((a, b) => b)(1, 2, 3)"), "2");
    assert_eq!(forward(&mut engine, "((a, a) => a)(1, 2)"), "2");
    assert_eq!(forward(&mut engine, "(() => {})()"), "undefined");
    assert_eq!(forward(&mut engine, "(() => {1; 2})()"), "undefined");
    assert_eq!(forward(&mut engine, "(x => y => x)(1)(2)"), "1");
    assert_eq!(forward(&mut engine, "(x => y => y)(1)(2)"), "2");
    assert_eq!(forward(&mut engine, "(JSON => JSON)(3)"), "3");
    assert_eq!(forward(&mut engine, "(f => f(4))(x => [x, x])[1]"), "4");
    assert_eq!(
        forward(&mut engine, "JSON.stringify((x => ({v: x, w: [x]}))(5))"),
        r#"{"v":5,"w":[5]}"#
    );
    assert_eq!(
        forward(&mut engine, "(x => missing)(1)"),
        "Error: ReferenceError: missing is not defined"
    );
    assert_eq!(
        forward(&mut engine, "(f => f(f))(f => f(f))"),
        "Error: RangeError: too much recursion"
    );
    assert_eq!(engine.realm.environment.len(), 1 + 15 + 128);
}

#[test]
fn calls_nest_no_deeper_than_the_fuel() {
    let mut engine = Interpreter::new(Realm::create());
    let scope = engine.realm.global_env;
    let node = parser_expr("(x => (y => y)(x))(7)").unwrap();
    match engine.run(&node, scope, 2) {
        Ok(v) => assert_eq!(v.to_integer(), 7),
        Err(_) => panic!("two nested calls fit in fuel 2"),
    }
    match engine.run(&node, scope, 1) {
        Err(Value::String(message)) => assert_eq!(message, "RangeError: too much recursion"),
        _ => panic!("two nested calls do not fit in fuel 1"),
    }
    match engine.run(&node, scope, 0) {
        Err(Value::String(message)) => assert_eq!(message, "RangeError: too much recursion"),
        _ => panic!("a call does not fit in fuel 0"),
    }
    match engine.run(&parser_expr("JSON.parse('1')").unwrap(), scope, 0) {
        Ok(v) => assert_eq!(v.to_integer(), 1),
        Err(_) => panic!("a call of the runtime needs no fuel"),
    }
}
