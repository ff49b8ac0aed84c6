use rotten::interpreter::error::InterpreterErrorMessage;
use rotten::memory::environment::Environment;
use rotten::memory::handler::EnvironmentHandler;
use rotten::number;
use rotten::object::Class;
use rotten::parser::node::Statement;
use rotten::token::{Token, TokenPosition, TokenType};
use rotten::value::{Function, TokenValue};

fn name(lexeme: &str) -> Token {
    Token {
        kind: TokenType::Identifier,
        value: None,
        lexeme: lexeme.to_string(),
        position: TokenPosition { row: 1, column: 1 },
    }
}

fn num(value: f64) -> TokenValue<'static> {
    TokenValue::Number(value.to_bits())
}

#[test]
fn a_frame_holds_each_name_once() {
    let mut frame = Environment::new();
    assert_eq!(frame.get(&name("a")), None);
    frame.define("a".to_string(), num(1.0));
    frame.define("b".to_string(), num(2.0));
    frame.define("a".to_string(), num(3.0));
    assert_eq!(frame.get(&name("a")), Some(num(3.0)));
    assert_eq!(frame.get(&name("b")), Some(num(2.0)));
    assert!(frame.contains(&"a".to_string()));
    assert!(!frame.contains(&"c".to_string()));
}

#[test]
fn a_frame_assigns_only_what_it_holds() {
    let mut frame = Environment::default();
    let error = frame.assign(&name("a"), num(1.0)).unwrap_err();
    assert_eq!(
        error.message,
        InterpreterErrorMessage::UndefinedVariable { lexeme: "a".to_string() }
    );
    assert_eq!(error.token, Some(name("a")));
    assert_eq!(frame.get(&name("a")), None);
    frame.define("a".to_string(), num(1.0));
    assert!(frame.assign(&name("a"), num(2.0)).is_ok());
    assert_eq!(frame.get(&name("a")), Some(num(2.0)));
}

#[test]
fn the_innermost_frame_that_holds_a_name_gives_its_value() {
    let mut stack = EnvironmentHandler::default();
    assert_eq!(stack.depth(), 1);
    stack.define("x".to_string(), num(1.0)).unwrap();
    stack.define("y".to_string(), num(5.0)).unwrap();
    stack.create_environment();
    assert_eq!(stack.get(&name("x")), Some(num(1.0)));
    stack.define("x".to_string(), num(2.0)).unwrap();
    assert_eq!(stack.get(&name("x")), Some(num(2.0)));
    assert_eq!(stack.get(&name("y")), Some(num(5.0)));
    stack.delete_environment().unwrap();
    assert_eq!(stack.get(&name("x")), Some(num(1.0)));
    assert_eq!(stack.depth(), 1);
}

#[test]
fn assignment_changes_the_innermost_frame_that_holds_the_name() {
    let mut stack = EnvironmentHandler::default();
    stack.define("x".to_string(), num(1.0)).unwrap();
    stack.create_environment();
    stack.assign(&name("x"), num(2.0)).unwrap();
    stack.define("x".to_string(), num(3.0)).unwrap();
    stack.assign(&name("x"), num(4.0)).unwrap();
    assert_eq!(stack.get(&name("x")), Some(num(4.0)));
    stack.delete_environment().unwrap();
    assert_eq!(stack.get(&name("x")), Some(num(2.0)));
    let error = stack.assign(&name("never"), num(0.0)).unwrap_err();
    assert_eq!(
        error.message,
        InterpreterErrorMessage::UndefinedVariable { lexeme: "never".to_string() }
    );
    assert_eq!(stack.get(&name("never")), None);
}

#[test]
fn the_first_frame_cannot_be_closed() {
    let mut stack = EnvironmentHandler::default();
    stack.define("x".to_string(), num(1.0)).unwrap();
    let error = stack.delete_environment().unwrap_err();
    assert_eq!(error.message, InterpreterErrorMessage::Unreachable);
    assert_eq!(stack.depth(), 1);
    assert_eq!(stack.get(&name("x")), Some(num(1.0)));
}

#[test]
fn doubles_compare_as_doubles_do() {
    let values = [
        0.0,
        -0.0,
        1.0,
        -1.0,
        0.5,
        1e300,
        -1e300,
        f64::INFINITY,
        f64::NEG_INFINITY,
        f64::NAN,
        f64::MIN_POSITIVE,
        5e-324,
    ];
    for a in values {
        for b in values {
            assert_eq!(number::equal(a.to_bits(), b.to_bits()), a == b, "{} == {}", a, b);
            assert_eq!(number::less(a.to_bits(), b.to_bits()), a < b, "{} < {}", a, b);
        }
        assert_eq!(number::negated(a.to_bits()), (-a).to_bits());
        assert_eq!(number::zero(a.to_bits()), a == 0.0);
        assert_eq!(number::not_a_number(a.to_bits()), a.is_nan());
    }
    assert_eq!(number::from_bool(true), 1.0f64.to_bits());
    assert_eq!(number::from_bool(false), 0.0f64.to_bits());
    assert_eq!(number::ONE, 1.0f64.to_bits());
}

#[test]
fn values_are_equal_within_their_kind() {
    assert!(TokenValue::Nil.equals(&TokenValue::Nil));
    assert!(!TokenValue::Nil.equals(&TokenValue::Bool(false)));
    assert!(!num(0.0).equals(&TokenValue::Bool(false)));
    assert!(num(0.0).equals(&num(-0.0)));
    assert!(!num(f64::NAN).equals(&num(f64::NAN)));
    assert!(TokenValue::String("a".to_string()).equals(&TokenValue::String("a".to_string())));
    assert!(!TokenValue::String("1".to_string()).equals(&num(1.0)));
    assert!(TokenValue::Instance(3).equals(&TokenValue::Instance(3)));
    assert!(!TokenValue::Instance(3).equals(&TokenValue::Instance(4)));
    assert!(!TokenValue::Instance(3).equals(&TokenValue::Class(3)));
    let params = vec![name("text")];
    let body = Statement::Block { statements: vec![] };
    let declared = Function::Declared { params: &params, body: &body, this: None };
    assert!(TokenValue::Function(Function::Print).equals(&TokenValue::Function(declared)));
    let none = vec![];
    let other = Function::Declared { params: &none, body: &body, this: None };
    assert!(!TokenValue::Function(other).equals(&TokenValue::Function(declared)));
}

#[test]
fn truth_values() {
    assert_eq!(TokenValue::Bool(true).truthy(), Some(true));
    assert_eq!(num(0.0).truthy(), Some(false));
    assert_eq!(num(-0.0).truthy(), Some(false));
    assert_eq!(num(2.0).truthy(), Some(true));
    assert_eq!(num(f64::NAN).truthy(), Some(true));
    assert_eq!(TokenValue::String(String::new()).truthy(), Some(false));
    assert_eq!(TokenValue::String("0".to_string()).truthy(), Some(true));
    assert_eq!(TokenValue::Nil.truthy(), Some(false));
    assert_eq!(TokenValue::Function(Function::Print).truthy(), None);
    assert_eq!(TokenValue::Class(0).truthy(), None);
    assert_eq!(TokenValue::Instance(0).truthy(), None);
    assert_eq!(TokenValue::Nil.kind(), "nil");
    assert_eq!(num(1.0).kind(), "number");
}

fn method(lexeme: &str, params: Vec<Token>) -> Statement {
    Statement::Function {
        name: name(lexeme),
        params,
        body: Box::new(Statement::Block { statements: vec![] }),
    }
}

#[test]
fn a_class_gives_its_own_method_before_that_of_the_class_above() {
    let above = vec![method("a", vec![]), method("shared", vec![name("x")])];
    let below = vec![method("shared", vec![]), method("b", vec![]), method("b", vec![name("y")])];
    let above_name = name("Above");
    let below_name = name("Below");
    let classes = vec![
        Class::new(&above_name, None, &above),
        Class::new(&below_name, Some(0), &below),
    ];
    let arity = |class: usize, identifier: &str| {
        Class::get(&classes, class, &identifier.to_string()).map(|f| f.arity())
    };
    assert_eq!(arity(1, "shared"), Some(0));
    assert_eq!(arity(0, "shared"), Some(1));
    assert_eq!(arity(1, "a"), Some(0));
    assert_eq!(arity(1, "b"), Some(1));
    assert_eq!(arity(1, "missing"), None);
    assert_eq!(arity(7, "a"), None);
    let inherited = Class::get_from_super(&classes, 1, &"shared".to_string());
    assert_eq!(inherited.map(|f| f.arity()), Some(1));
    assert_eq!(Class::get_from_super(&classes, 0, &"a".to_string()), None);
    assert_eq!(classes[1].get_own(&"a".to_string()), None);
    let bound = classes[0].get_own(&"a".to_string()).unwrap().bind(4);
    assert!(matches!(bound, Function::Declared { this: Some(4), .. }));
    assert_eq!(Function::Print.parameter_name(0), "text");
}
