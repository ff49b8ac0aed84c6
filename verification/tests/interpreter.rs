use rotten::interpreter::error::{InterpreterError, InterpreterErrorMessage};
use rotten::interpreter::machine::{Action, Event};
use rotten::interpreter::Interpreter;
use rotten::lexer::run;
use rotten::parser::node::{Expression, Statement};
use rotten::parser::Parser;
use rotten::token::{Literal, Token, TokenPosition, TokenType};
use rotten::value::TokenValue;

fn parse(source: &str) -> (Vec<Statement>, usize) {
    let mut tokens = run(source.to_string()).unwrap();
    for token in tokens.iter_mut() {
        if token.kind == TokenType::Number {
            let value: f64 = token.lexeme.parse().unwrap();
            token.value = Some(Literal::Number(value.to_bits()));
        }
    }
    let mut parser = Parser::new(tokens);
    let statements = parser.parse();
    (statements, parser.errors().len())
}

fn answer(action: Action) -> Result<Event, Action> {
    Ok(match action {
        Action::Continue => Event::Proceed,
        Action::Add(a, b) => Event::Number((f64::from_bits(a) + f64::from_bits(b)).to_bits()),
        Action::Subtract(a, b) => Event::Number((f64::from_bits(a) - f64::from_bits(b)).to_bits()),
        Action::Multiply(a, b) => Event::Number((f64::from_bits(a) * f64::from_bits(b)).to_bits()),
        Action::Divide(a, b) => Event::Number((f64::from_bits(a) / f64::from_bits(b)).to_bits()),
        Action::Parse(text) => match text.parse::<f64>() {
            Ok(n) => Event::Number(n.to_bits()),
            Err(_) => Event::NotANumber,
        },
        Action::Render(n) => Event::Text(f64::from_bits(n).to_string()),
        other => return Err(other),
    })
}

fn drive<'a>(
    interpreter: &mut Interpreter<'a>,
    output: &mut Vec<String>,
) -> Result<Option<TokenValue<'a>>, InterpreterError<'a>> {
    let mut event = Event::Proceed;
    loop {
        match answer(interpreter.run(event, 64)) {
            Ok(next) => event = next,
            Err(Action::Print(text)) => {
                output.push(text);
                event = Event::Proceed;
            }
            Err(Action::Finished(result)) => return result,
            Err(_) => unreachable!(),
        }
    }
}

fn evaluate<'a>(
    statements: &'a Vec<Statement>,
    output: &mut Vec<String>,
) -> Result<Option<TokenValue<'a>>, InterpreterError<'a>> {
    let mut interpreter = Interpreter::default();
    interpreter.interpret(statements);
    drive(&mut interpreter, output)
}

fn value_of(source: &str) -> Option<String> {
    let (statements, errors) = parse(source);
    assert_eq!(errors, 0);
    let mut output = Vec::new();
    let result = evaluate(&statements, &mut output).unwrap();
    result.map(|v| format!("{:?}", v))
}

fn message_of(source: &str) -> String {
    let (statements, errors) = parse(source);
    assert_eq!(errors, 0);
    let mut output = Vec::new();
    let error = evaluate(&statements, &mut output).unwrap_err();
    format!("{:?}", error.message)
}

fn printed(source: &str) -> Vec<String> {
    let (statements, errors) = parse(source);
    assert_eq!(errors, 0);
    let mut output = Vec::new();
    evaluate(&statements, &mut output).unwrap();
    output
}

fn num(value: f64) -> Option<String> {
    Some(format!("{:?}", TokenValue::Number(value.to_bits())))
}

fn text(value: &str) -> Option<String> {
    Some(format!("{:?}", TokenValue::String(value.to_string())))
}

fn boolean(value: bool) -> Option<String> {
    Some(format!("{:?}", TokenValue::Bool(value)))
}

fn name(lexeme: &str, kind: TokenType) -> Token {
    Token { kind, value: None, lexeme: lexeme.to_string(), position: TokenPosition { row: 1, column: 1 } }
}

fn variable(lexeme: &str) -> Box<Expression> {
    Box::new(Expression::Variable { name: name(lexeme, TokenType::Identifier) })
}

#[test]
fn plus_joins_text_where_an_operand_is_a_string() {
    assert_eq!(value_of("\"5\" + 3;"), text("53"));
    assert_eq!(value_of("3 + \"5\";"), text("35"));
    assert_eq!(value_of("\"a\" + nil;"), text("anil"));
    assert_eq!(value_of("\"a\" + true;"), text("atrue"));
    assert_eq!(value_of("\"a\" + print;"), text("anative function"));
    assert_eq!(value_of("\"x\" + 0.5;"), text("x0.5"));
}

#[test]
fn plus_adds_numbers() {
    assert_eq!(value_of("5 + 3;"), num(8.0));
    assert_eq!(value_of("true + 3;"), num(4.0));
}

#[test]
fn arithmetic_reads_strings_as_numbers() {
    assert_eq!(value_of("\"5\" - 3;"), num(2.0));
    assert_eq!(value_of("10 * \"2.5\";"), num(25.0));
    assert_eq!(value_of("-\"4\";"), num(-4.0));
    assert!(message_of("\"five\" - 3;").starts_with("UnexpectedValue"));
    assert!(message_of("nil - 3;").starts_with("UnexpectedValue"));
    assert!(message_of("3 * nil;").starts_with("UnexpectedValue"));
}

#[test]
fn division_by_zero_is_an_error() {
    assert_eq!(message_of("1 / 0;"), "DivisionByZero");
    assert_eq!(message_of("1 / false;"), "DivisionByZero");
    assert_eq!(value_of("1.0 / 2.0;"), num(0.5));
}

#[test]
fn comparison_of_numbers() {
    assert_eq!(value_of("1 < 2;"), boolean(true));
    assert_eq!(value_of("2 <= 2;"), boolean(true));
    assert_eq!(value_of("1 > 2;"), boolean(false));
    assert_eq!(value_of("3 >= 4;"), boolean(false));
    assert_eq!(value_of("0 - 1 < 1;"), boolean(true));
    assert_eq!(value_of("0 - 2 < 0 - 1;"), boolean(true));
}

#[test]
fn equality_does_not_convert() {
    assert_eq!(value_of("nil == nil;"), boolean(true));
    assert_eq!(value_of("nil == false;"), boolean(false));
    assert_eq!(value_of("1 == \"1\";"), boolean(false));
    assert_eq!(value_of("1 == true;"), boolean(false));
    assert_eq!(value_of("\"a\" == \"a\";"), boolean(true));
    assert_eq!(value_of("1 != 2;"), boolean(true));
    assert_eq!(value_of("0 == 0 - 0;"), boolean(true));
}

#[test]
fn logical_operators_give_an_operand_as_it_is() {
    assert_eq!(value_of("false or \"x\";"), text("x"));
    assert_eq!(value_of("0 and \"y\";"), num(0.0));
    assert_eq!(value_of("1 and \"y\";"), text("y"));
    assert_eq!(value_of("\"a\" or \"b\";"), text("a"));
}

#[test]
fn logical_operators_do_not_compute_a_right_operand_that_is_not_needed() {
    assert_eq!(printed("0 and print(\"side effect\");"), Vec::<String>::new());
    assert_eq!(printed("1 or print(\"side effect\");"), Vec::<String>::new());
    assert_eq!(printed("1 and print(\"needed\");"), vec!["needed".to_string()]);
    assert_eq!(value_of("var x = 1; true or (x = 2); x;"), num(1.0));
}

#[test]
fn unary_operators() {
    assert_eq!(value_of("!true;"), boolean(false));
    assert_eq!(value_of("!nil;"), boolean(true));
    assert_eq!(value_of("!0;"), boolean(true));
    assert_eq!(value_of("!\"\";"), boolean(true));
    assert_eq!(value_of("!\"a\";"), boolean(false));
    assert_eq!(value_of("-3;"), num(-3.0));
    assert_eq!(value_of("-true;"), num(-1.0));
    assert!(message_of("-nil;").starts_with("UnexpectedValue"));
    assert!(message_of("!print;").starts_with("UnexpectedValue"));
}

#[test]
fn a_definition_in_a_block_does_not_leak() {
    assert_eq!(value_of("var x = 1; { var x = 2; } x;"), num(1.0));
    assert_eq!(value_of("var x = 1; { x = 2; } x;"), num(2.0));
    assert!(message_of("{ var inner = 2; } inner;").starts_with("UndefinedVariable"));
}

#[test]
fn assignment_declares_nothing() {
    assert_eq!(message_of("y = 1;"), "UndefinedVariable { lexeme: \"y\" }");
    assert_eq!(message_of("z;"), "UndefinedVariable { lexeme: \"z\" }");
    assert_eq!(value_of("var y; y = 1;"), num(1.0));
    assert_eq!(value_of("var y; y;"), Some("Nil".to_string()));
}

#[test]
fn functions_are_called_with_as_many_arguments_as_parameters() {
    assert_eq!(value_of("fun add(a, b) { return a + b; } add(2, 3);"), num(5.0));
    assert_eq!(
        message_of("fun add(a, b) { return a + b; } add(2);"),
        "ArgumentMismatch { has: 1, expect: 2 }"
    );
    assert_eq!(message_of("print();"), "ArgumentMismatch { has: 0, expect: 1 }");
    assert_eq!(value_of("fun nothing() { } nothing();"), Some("Nil".to_string()));
}

#[test]
fn return_leaves_blocks_and_loops_of_the_function() {
    assert_eq!(
        value_of("fun f() { while (true) { { return 7; } } return 8; } f();"),
        num(7.0)
    );
    assert_eq!(
        value_of("fun f(n) { if (n < 1) return 0; return n + f(n - 1); } f(4);"),
        num(10.0)
    );
    assert_eq!(value_of("var a = 1; { return 5; } a;"), num(5.0));
}

#[test]
fn a_call_frame_is_closed_when_the_call_is_over() {
    assert!(message_of("fun f(a) { var b = a; } f(1); b;").starts_with("UndefinedVariable"));
    assert!(message_of("fun f(a) { return a; } f(1); a;").starts_with("UndefinedVariable"));
}

#[test]
fn calling_what_is_no_function_is_an_error() {
    assert_eq!(message_of("5();"), "IsNotCallable");
    assert_eq!(message_of("\"text\"();"), "IsNotCallable");
    assert_eq!(message_of("nil(1, 2);"), "IsNotCallable");
}

#[test]
fn print_writes_the_text_of_its_argument() {
    assert_eq!(
        printed(
            "print(true); print(1.5); print(3); print(\"raw\"); print(nil); print(print); \
             class C { } print(C); print(C());"
        ),
        vec!["true", "1.5", "3", "raw", "nil", "native function", "C", "C instance"]
    );
    assert_eq!(value_of("print(1);"), Some("Nil".to_string()));
}

#[test]
fn control_flow() {
    assert_eq!(
        printed("for (var i = 0; i < 3; i = i + 1) print(i);"),
        vec!["0", "1", "2"]
    );
    assert_eq!(printed("var i = 2; while (i) { print(i); i = i - 1; }"), vec!["2", "1"]);
    assert_eq!(printed("if (nil) print(1); else print(2);"), vec!["2"]);
    assert_eq!(printed("if (\"x\") print(1);"), vec!["1"]);
    assert_eq!(value_of("if (true) 1;"), None);
    assert_eq!(value_of("var v = 4;"), num(4.0));
    assert_eq!(value_of("fun f() { }"), None);
}

#[test]
fn a_class_is_called_to_make_an_instance() {
    assert_eq!(value_of("class C { } C() == C();"), boolean(false));
    assert_eq!(value_of("class C { } var i = C(); i == i;"), boolean(true));
    assert_eq!(value_of("class C { } C == C;"), boolean(true));
}

fn class_with_method() -> Vec<Statement> {
    // class C { get() { return this; } }  var i = C();
    let (mut statements, errors) = parse("class C { get() { return this; } } var i = C();");
    assert_eq!(errors, 0);
    // i.get() == i;
    statements.push(Statement::Expression {
        expression: Box::new(Expression::Binary {
            left: Box::new(Expression::Call {
                callee: Box::new(Expression::Get {
                    object: variable("i"),
                    name: name("get", TokenType::Identifier),
                }),
                paren: name(")", TokenType::RightParen),
                arguments: vec![],
            }),
            operator: name("==", TokenType::EqualEqual),
            right: variable("i"),
        }),
    });
    statements
}

#[test]
fn this_is_the_instance_that_the_method_was_taken_from() {
    let statements = class_with_method();
    let mut output = Vec::new();
    let result = evaluate(&statements, &mut output).unwrap();
    assert_eq!(result, Some(TokenValue::Bool(true)));
}

#[test]
fn methods_of_two_instances_do_not_share_this() {
    let (mut statements, _) =
        parse("class C { get() { return this; } } var i = C(); var j = C();");
    let get = |object: &str| Expression::Call {
        callee: Box::new(Expression::Get {
            object: variable(object),
            name: name("get", TokenType::Identifier),
        }),
        paren: name(")", TokenType::RightParen),
        arguments: vec![],
    };
    statements.push(Statement::Expression {
        expression: Box::new(Expression::Binary {
            left: Box::new(get("i")),
            operator: name("==", TokenType::EqualEqual),
            right: Box::new(get("j")),
        }),
    });
    let mut output = Vec::new();
    assert_eq!(evaluate(&statements, &mut output).unwrap(), Some(TokenValue::Bool(false)));
}

fn set(object: &str, field: &str, value: f64) -> Statement {
    Statement::Expression {
        expression: Box::new(Expression::SetProperty {
            object: variable(object),
            name: name(field, TokenType::Identifier),
            value: Box::new(Expression::Literal { value: Literal::Number(value.to_bits()) }),
        }),
    }
}

fn get(object: &str, field: &str) -> Statement {
    Statement::Expression {
        expression: Box::new(Expression::Get {
            object: variable(object),
            name: name(field, TokenType::Identifier),
        }),
    }
}

#[test]
fn fields_need_no_declaration() {
    let (mut statements, _) = parse("class C { } var i = C();");
    statements.push(set("i", "newField", 5.0));
    let mut output = Vec::new();
    assert_eq!(
        evaluate(&statements, &mut output).unwrap(),
        Some(TokenValue::Number(5.0f64.to_bits()))
    );
    statements.push(get("i", "newField"));
    assert_eq!(
        evaluate(&statements, &mut output).unwrap(),
        Some(TokenValue::Number(5.0f64.to_bits()))
    );
}

#[test]
fn a_property_that_is_neither_field_nor_method_is_nil() {
    let (mut statements, _) = parse("class C { } var i = C();");
    statements.push(get("i", "missing"));
    let mut output = Vec::new();
    assert_eq!(evaluate(&statements, &mut output).unwrap(), Some(TokenValue::Nil));
}

#[test]
fn a_field_hides_a_method_of_the_same_name() {
    let (mut statements, _) = parse("class C { get() { return 1; } } var i = C();");
    statements.push(set("i", "get", 9.0));
    statements.push(get("i", "get"));
    let mut output = Vec::new();
    assert_eq!(
        evaluate(&statements, &mut output).unwrap(),
        Some(TokenValue::Number(9.0f64.to_bits()))
    );
}

#[test]
fn a_property_of_what_is_no_instance_is_an_error() {
    let (mut statements, _) = parse("var i = 5;");
    statements.push(get("i", "x"));
    let mut output = Vec::new();
    let error = evaluate(&statements, &mut output).unwrap_err();
    assert_eq!(
        error.message,
        InterpreterErrorMessage::UnexpectedValue {
            is: TokenValue::Number(5.0f64.to_bits()),
            expect: "Instance".to_string()
        }
    );
    let (mut statements, _) = parse("var i = 5;");
    statements.push(set("i", "x", 1.0));
    let error = evaluate(&statements, &mut output).unwrap_err();
    assert!(matches!(error.message, InterpreterErrorMessage::UnexpectedValue { .. }));
}

#[test]
fn methods_are_found_in_the_classes_above() {
    let (mut statements, errors) = parse(
        "class A { hello() { return \"A\"; } name() { return \"a\"; } } \
         class B < A { name() { return \"b\"; } } var i = B();",
    );
    assert_eq!(errors, 0);
    let call = |method: &str| Statement::Expression {
        expression: Box::new(Expression::Call {
            callee: Box::new(Expression::Get {
                object: variable("i"),
                name: name(method, TokenType::Identifier),
            }),
            paren: name(")", TokenType::RightParen),
            arguments: vec![],
        }),
    };
    statements.push(call("hello"));
    let mut output = Vec::new();
    assert_eq!(
        evaluate(&statements, &mut output).unwrap(),
        Some(TokenValue::String("A".to_string()))
    );
    statements.push(call("name"));
    assert_eq!(
        evaluate(&statements, &mut output).unwrap(),
        Some(TokenValue::String("b".to_string()))
    );
}

#[test]
fn super_gives_the_method_of_the_class_above() {
    let (mut statements, errors) = parse(
        "class A { name() { return \"a\"; } } class B < A { name() { return \"b\"; } } \
         var i = B();",
    );
    assert_eq!(errors, 0);
    // Give B a method that calls super.name(): built by hand, as a tree.
    let body = Statement::Block {
        statements: vec![Statement::Return {
            value: Some(Box::new(Expression::Call {
                callee: Box::new(Expression::Super {
                    keyword: name("super", TokenType::Super),
                    method: name("name", TokenType::Identifier),
                }),
                paren: name(")", TokenType::RightParen),
                arguments: vec![],
            })),
        }],
    };
    if let Statement::Class { methods, .. } = &mut statements[1] {
        methods.push(Statement::Function {
            name: name("above", TokenType::Identifier),
            params: vec![],
            body: Box::new(body),
        });
    }
    statements.push(Statement::Expression {
        expression: Box::new(Expression::Call {
            callee: Box::new(Expression::Get {
                object: variable("i"),
                name: name("above", TokenType::Identifier),
            }),
            paren: name(")", TokenType::RightParen),
            arguments: vec![],
        }),
    });
    let mut output = Vec::new();
    assert_eq!(
        evaluate(&statements, &mut output).unwrap(),
        Some(TokenValue::String("a".to_string()))
    );
}

#[test]
fn an_error_closes_every_frame_but_the_first() {
    let (failing, _) = parse("{ { var deep = 1; missing; } }");
    let (after, _) = parse("deep;");
    let mut interpreter = Interpreter::default();
    let mut output = Vec::new();
    interpreter.interpret(&failing);
    assert!(drive(&mut interpreter, &mut output).is_err());
    interpreter.interpret(&after);
    let error = drive(&mut interpreter, &mut output).unwrap_err();
    assert_eq!(
        error.message,
        InterpreterErrorMessage::UndefinedVariable { lexeme: "deep".to_string() }
    );
}

#[test]
fn a_parse_error_does_not_stop_the_statements_behind_it() {
    let (statements, errors) = parse("var = 1; print(\"still here\"); 1 + ; print(\"and here\");");
    assert_eq!(errors, 2);
    let mut output = Vec::new();
    evaluate(&statements, &mut output).unwrap();
    assert_eq!(output, vec!["still here", "and here"]);
}

#[test]
fn error_text_names_position_and_lexeme() {
    let (statements, _) = parse("1 / 0;");
    let mut output = Vec::new();
    let error = evaluate(&statements, &mut output).unwrap_err();
    assert_eq!(error.to_string(), "[1:3] Error: Attempt to divide by zero\n/");
    let (statements, _) = parse("fun f(a) { } f();");
    let error = evaluate(&statements, &mut output).unwrap_err();
    assert_eq!(error.message_to_string(), "Expected 1 arguments but got 0");
    let (statements, _) = parse("-nil;");
    let error = evaluate(&statements, &mut output).unwrap_err();
    assert_eq!(error.message_to_string(), "Unexpected value\nis: nil\nexpect: Number");
    let (statements, _) = parse("x;");
    let error = evaluate(&statements, &mut output).unwrap_err();
    assert_eq!(error.message_to_string(), "Undefined variable 'x'");
}

#[test]
fn one_step_at_a_time() {
    let (statements, _) = parse("1 + 2;");
    let mut interpreter = Interpreter::default();
    interpreter.interpret(&statements);
    let mut event = Event::Proceed;
    let mut asked = Vec::new();
    let result = loop {
        match interpreter.step(event) {
            Action::Finished(result) => break result,
            Action::Add(a, b) => {
                asked.push((f64::from_bits(a), f64::from_bits(b)));
                event = Event::Number((f64::from_bits(a) + f64::from_bits(b)).to_bits());
            }
            Action::Continue => event = Event::Proceed,
            _ => unreachable!(),
        }
    };
    assert_eq!(asked, vec![(1.0, 2.0)]);
    assert_eq!(result.unwrap(), Some(TokenValue::Number(3.0f64.to_bits())));
}

#[test]
fn run_stops_at_the_limit() {
    let (statements, _) = parse("while (true) { }");
    let mut interpreter = Interpreter::default();
    interpreter.interpret(&statements);
    assert_eq!(interpreter.run(Event::Proceed, 1000), Action::Continue);
    assert_eq!(interpreter.run(Event::Proceed, 0), Action::Continue);
}

#[test]
fn an_instance_keeps_the_class_that_it_was_made_of() {
    let (mut statements, errors) =
        parse("class C { m() { return 1; } } var i = C(); C = 5; class C { m() { return 2; } }");
    assert_eq!(errors, 0);
    statements.push(Statement::Expression {
        expression: Box::new(Expression::Call {
            callee: Box::new(Expression::Get {
                object: variable("i"),
                name: name("m", TokenType::Identifier),
            }),
            paren: name(")", TokenType::RightParen),
            arguments: vec![],
        }),
    });
    let mut output = Vec::new();
    assert_eq!(
        evaluate(&statements, &mut output).unwrap(),
        Some(TokenValue::Number(1.0f64.to_bits()))
    );
}

#[test]
fn a_method_of_a_class_must_be_a_function() {
    let (mut statements, _) = parse("class C { }");
    if let Statement::Class { methods, .. } = &mut statements[0] {
        methods.push(Statement::Return { value: None });
    }
    let mut output = Vec::new();
    let error = evaluate(&statements, &mut output).unwrap_err();
    assert_eq!(error.message, InterpreterErrorMessage::IsNotCallable);
}

#[test]
fn the_class_above_must_be_a_class() {
    assert!(message_of("var A = 1; class B < A { }").starts_with("UnexpectedValue"));
    assert!(message_of("class B < A { }").starts_with("UndefinedVariable"));
}

#[test]
fn the_body_of_a_called_function_must_be_a_block() {
    let (mut statements, _) = parse("fun f() { } f();");
    if let Statement::Function { body, .. } = &mut statements[0] {
        *body = Box::new(Statement::Return { value: None });
    }
    let mut output = Vec::new();
    let error = evaluate(&statements, &mut output).unwrap_err();
    assert_eq!(error.message, InterpreterErrorMessage::MissingBlock);
}

#[test]
fn an_operator_that_is_none_is_an_error_of_the_machine() {
    let statements = vec![Statement::Expression {
        expression: Box::new(Expression::Logical {
            left: variable("print"),
            operator: name("+", TokenType::Plus),
            right: variable("print"),
        }),
    }];
    let mut output = Vec::new();
    let error = evaluate(&statements, &mut output).unwrap_err();
    assert_eq!(error.message, InterpreterErrorMessage::Unreachable);
    assert_eq!(error.message_to_string(), "Unreachable");
}

#[test]
fn arguments_are_computed_from_the_left_before_the_call() {
    assert_eq!(
        printed("fun f(a, b) { } f(print(1), print(2));"),
        vec!["1", "2"]
    );
}

#[test]
fn interpreter_messages() {
    let text = |message| InterpreterError { message, token: None }.to_string();
    assert_eq!(text(InterpreterErrorMessage::IsNotCallable), "Error: Is not callable");
    assert_eq!(text(InterpreterErrorMessage::MissingBlock), "Error: Missing code block");
    assert_eq!(
        text(InterpreterErrorMessage::DivisionByZero),
        "Error: Attempt to divide by zero"
    );
    assert_eq!(
        text(InterpreterErrorMessage::ArgumentMismatch { has: 12, expect: 205 }),
        "Error: Expected 205 arguments but got 12"
    );
    assert_eq!(
        text(InterpreterErrorMessage::UnexpectedValue {
            is: TokenValue::Instance(0),
            expect: "Number".to_string()
        }),
        "Error: Unexpected value\nis: instance\nexpect: Number"
    );
    let at = InterpreterError {
        message: InterpreterErrorMessage::UndefinedVariable { lexeme: "x".to_string() },
        token: Some(Token {
            kind: TokenType::Identifier,
            value: None,
            lexeme: "x".to_string(),
            position: TokenPosition { row: 3, column: 14 },
        }),
    };
    assert_eq!(at.to_string(), "[3:14] Error: Undefined variable 'x'\nx");
}
