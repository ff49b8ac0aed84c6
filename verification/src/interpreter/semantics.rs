//! What each step of the machine does: the meaning of the language.

use crate::interpreter::error::{ErrorView, MessageView};
use crate::interpreter::machine::{ActionView, EventView, MachineView, Task};
use crate::memory::environment::undefined_variable;
use crate::memory::handler::{assigned, defined, lookup, Scopes};
use crate::number::{is_zero, number_equal, number_less, number_negated, number_of_bool};
use crate::object::{all_functions, inherited_method, member, Class, InstanceView};
use crate::parser::node::{Expression, Statement};
use crate::token::{Token, TokenType};
use crate::value::{lexemes, literal_view, truthiness, values_equal, Function, ValueView};
use vstd::prelude::*;

verus! {

/// What a step gives: the machine after it, and what it asks of the driver.
pub type Outcome<'a> = (MachineView<'a>, ActionView<'a>);

/// The machine goes on by itself.
pub open spec fn proceed<'a>(m: MachineView<'a>) -> Outcome<'a> {
    (m, ActionView::Continue)
}

/// The program stops with an error. Nothing is left to do, no value is
/// kept, and every frame but the first is closed.
pub open spec fn halt<'a>(m: MachineView<'a>, message: MessageView<'a>, token: Option<Token>) -> Outcome<
    'a,
> {
    (
        MachineView { scopes: m.scopes.take(1), values: Seq::empty(), tasks: Seq::empty(), ..m },
        ActionView::Finished(Err(ErrorView { message, token })),
    )
}

/// The error for a value of the wrong kind.
pub open spec fn unexpected<'a>(is: ValueView<'a>, expect: Seq<char>) -> MessageView<'a> {
    MessageView::UnexpectedValue { is, expect }
}

/// The machine with one more value on top.
pub open spec fn push_value<'a>(m: MachineView<'a>, value: ValueView<'a>) -> MachineView<'a> {
    MachineView { values: m.values.push(value), ..m }
}

/// The machine with one more task, which is the next.
pub open spec fn push_task<'a>(m: MachineView<'a>, task: Task<'a>) -> MachineView<'a> {
    MachineView { tasks: m.tasks.push(task), ..m }
}

/// The machine without its `count` topmost values.
pub open spec fn drop_values<'a>(m: MachineView<'a>, count: int) -> MachineView<'a> {
    MachineView { values: m.values.take(m.values.len() - count), ..m }
}

/// The frames without the innermost. The first frame stays.
pub open spec fn closed<'a>(scopes: Scopes<'a>) -> Scopes<'a> {
    if scopes.len() > 1 {
        scopes.drop_last()
    } else {
        scopes
    }
}

/// The text of a value that is no number: `true` or `false`, the characters
/// of a string, `nil`, `native function`, the name of a class, and for an
/// instance the name of its class and the word `instance`. A class or an
/// instance that the machine does not hold has no text.
pub open spec fn text_of<'a>(m: MachineView<'a>, value: ValueView<'a>) -> Option<Seq<char>> {
    match value {
        ValueView::Bool(b) => Some(
            if b {
                "true"@
            } else {
                "false"@
            },
        ),
        ValueView::Number(_) => None,
        ValueView::String(s) => Some(s),
        ValueView::Function(_) => Some("native function"@),
        ValueView::Class(c) => if c < m.classes.len() {
            Some(m.classes[c as int].name.lexeme@)
        } else {
            None
        },
        ValueView::Instance(i) => if i < m.instances.len() && m.instances[i as int].class
            < m.classes.len() {
            Some(m.classes[m.instances[i as int].class as int].name.lexeme@ + " instance"@)
        } else {
            None
        },
        ValueView::Nil => Some("nil"@),
    }
}

/// The number that a value counts as without being read from text: a
/// number is itself, `true` is one and `false` is zero.
pub open spec fn numeric<'a>(value: ValueView<'a>) -> Option<u64> {
    match value {
        ValueView::Bool(b) => Some(number_of_bool(b)),
        ValueView::Number(n) => Some(n),
        _ => None,
    }
}

/// A frame after each name was defined as the value at its place, in order.
pub open spec fn bound<'a>(
    frame: Map<Seq<char>, ValueView<'a>>,
    names: Seq<Seq<char>>,
    values: Seq<ValueView<'a>>,
) -> Map<Seq<char>, ValueView<'a>>
    decreases names.len(),
{
    if names.len() == 0 || values.len() != names.len() {
        frame
    } else {
        bound(frame, names.drop_last(), values.drop_last()).insert(names.last(), values.last())
    }
}

/// The frame that a call begins with: `this`, where the function is bound
/// to an instance.
pub open spec fn call_frame<'a>(this: Option<usize>) -> Map<Seq<char>, ValueView<'a>> {
    match this {
        Some(instance) => Map::empty().insert("this"@, ValueView::Instance(instance)),
        None => Map::empty(),
    }
}

/// What reading the property `name` of the instance numbered `instance`
/// gives: the field of that name; else the method that its class gives to
/// the name, bound to the instance; else `nil`.
pub open spec fn property<'a>(m: MachineView<'a>, instance: usize, name: Seq<char>) -> ValueView<
    'a,
> {
    match member(m.instances[instance as int], instance, m.classes, name) {
        Some(value) => value,
        None => ValueView::Nil,
    }
}

/// What `super` gives for `name` in a method of the instance numbered
/// `instance`: the method that the classes above its class give to the
/// name, bound to the instance; else `nil`.
pub open spec fn inherited<'a>(m: MachineView<'a>, instance: usize, name: Seq<char>) -> ValueView<
    'a,
> {
    match inherited_method(m.classes, m.instances[instance as int].class as int, name) {
        Some(f) => ValueView::Function(f.bound_to(instance)),
        None => ValueView::Nil,
    }
}

/// The machine with the field `name` of the instance numbered `instance`
/// set to `value`.
pub open spec fn with_field<'a>(
    m: MachineView<'a>,
    instance: usize,
    name: Seq<char>,
    value: ValueView<'a>,
) -> MachineView<'a> {
    let held = m.instances[instance as int];
    MachineView {
        instances: m.instances.update(
            instance as int,
            InstanceView { class: held.class, fields: held.fields.insert(name, value) },
        ),
        ..m
    }
}

/// Begins an expression.
pub open spec fn evaluate<'a>(m: MachineView<'a>, expression: &'a Expression) -> Outcome<'a> {
    match expression {
        Expression::Literal { value } => proceed(push_value(m, literal_view(*value))),
        Expression::Grouping { expression } => proceed(push_task(m, Task::Evaluate(&**expression))),
        Expression::Variable { name } => variable(m, name),
        Expression::This { keyword } => variable(m, keyword),
        Expression::Assign { name, value } => proceed(
            push_task(push_task(m, Task::Assign(name)), Task::Evaluate(&**value)),
        ),
        Expression::Unary { operator, right } => proceed(
            push_task(push_task(m, Task::Unary(operator)), Task::Evaluate(&**right)),
        ),
        Expression::Binary { left, operator, right } => proceed(
            push_task(
                push_task(push_task(m, Task::Binary(operator)), Task::Evaluate(&**right)),
                Task::Evaluate(&**left),
            ),
        ),
        Expression::Logical { left, operator, right } => proceed(
            push_task(
                push_task(m, Task::Logical { operator, right: &**right }),
                Task::Evaluate(&**left),
            ),
        ),
        Expression::Call { callee, paren, arguments } => proceed(
            push_task(
                push_task(
                    push_task(m, Task::Invoke { paren, count: arguments.len() }),
                    Task::Arguments { arguments, next: 0 },
                ),
                Task::Evaluate(&**callee),
            ),
        ),
        Expression::Get { object, name } => proceed(
            push_task(push_task(m, Task::Get(name)), Task::Evaluate(&**object)),
        ),
        Expression::SetProperty { object, name, value } => proceed(
            push_task(
                push_task(
                    push_task(push_task(m, Task::SetProperty(name)), Task::Evaluate(&**value)),
                    Task::RequireInstance(name),
                ),
                Task::Evaluate(&**object),
            ),
        ),
        Expression::Super { keyword, method } => match lookup(m.scopes, "this"@) {
            Some(ValueView::Instance(i)) => if i < m.instances.len() {
                proceed(push_value(m, inherited(m, i, method.lexeme@)))
            } else {
                halt(m, MessageView::Unreachable, Some(*keyword))
            },
            Some(other) => halt(m, unexpected(other, "Instance"@), Some(*keyword)),
            None => halt(m, undefined_variable(*keyword).message, Some(*keyword)),
        },
    }
}

/// Reads a variable: the value that the innermost frame holding the name
/// gives it. A name that no frame holds is an error.
pub open spec fn variable<'a>(m: MachineView<'a>, name: &'a Token) -> Outcome<'a> {
    match lookup(m.scopes, name.lexeme@) {
        Some(value) => proceed(push_value(m, value)),
        None => halt(m, undefined_variable(*name).message, Some(*name)),
    }
}

/// Assigns the value on top to a variable, and leaves the value there.
/// Assignment declares nothing: a name that no frame holds is an error.
pub open spec fn assign<'a>(m: MachineView<'a>, name: &'a Token) -> Outcome<'a> {
    if m.values.len() == 0 {
        halt(m, MessageView::Unreachable, Some(*name))
    } else {
        match assigned(m.scopes, name.lexeme@, m.values.last()) {
            Some(scopes) => proceed(MachineView { scopes, ..m }),
            None => halt(m, undefined_variable(*name).message, Some(*name)),
        }
    }
}

/// Applies a unary operator. `!` gives the opposite of the truth value that
/// the operand counts as. `-` gives the negative of a number; a truth value
/// counts as one or zero, and a string is first read as a number.
pub open spec fn unary<'a>(m: MachineView<'a>, operator: &'a Token) -> Outcome<'a> {
    if m.values.len() == 0 {
        halt(m, MessageView::Unreachable, Some(*operator))
    } else {
        let operand = m.values.last();
        let rest = drop_values(m, 1);
        match operator.kind {
            TokenType::Bang => match truthiness(operand) {
                Some(b) => proceed(push_value(rest, ValueView::Bool(!b))),
                None => halt(m, unexpected(operand, "Bool"@), Some(*operator)),
            },
            TokenType::Minus => match operand {
                ValueView::String(s) => (
                    push_task(
                        push_task(m, Task::Unary(operator)),
                        Task::Parsed { depth: 0, operator },
                    ),
                    ActionView::Parse(s),
                ),
                _ => match numeric(operand) {
                    Some(n) => proceed(push_value(rest, ValueView::Number(number_negated(n)))),
                    None => halt(m, unexpected(operand, "Number"@), Some(*operator)),
                },
            },
            _ => halt(m, MessageView::Unreachable, Some(*operator)),
        }
    }
}

/// Applies a binary operator to the two values on top, the right operand
/// topmost. `==` and `!=` compare the values as they are. `+` joins the
/// texts of the operands where either is a string. Every other case is
/// arithmetic on numbers.
pub open spec fn binary<'a>(m: MachineView<'a>, operator: &'a Token) -> Outcome<'a> {
    if m.values.len() < 2 {
        halt(m, MessageView::Unreachable, Some(*operator))
    } else {
        let left = m.values[m.values.len() - 2];
        let right = m.values.last();
        let rest = drop_values(m, 2);
        match operator.kind {
            TokenType::EqualEqual => proceed(
                push_value(rest, ValueView::Bool(values_equal(left, right))),
            ),
            TokenType::BangEqual => proceed(
                push_value(rest, ValueView::Bool(!values_equal(left, right))),
            ),
            TokenType::Plus => if left is String || right is String {
                join(m, operator, left, right)
            } else {
                arithmetic(m, operator, left, right)
            },
            TokenType::Minus
            | TokenType::Slash
            | TokenType::Star
            | TokenType::Greater
            | TokenType::GreaterEqual
            | TokenType::Less
            | TokenType::LessEqual => arithmetic(m, operator, left, right),
            _ => halt(m, MessageView::Unreachable, Some(*operator)),
        }
    }
}

/// Joins the texts of two values, of which one is a string. A number is
/// first written as text, and takes the place of the operand: the operator
/// is then applied anew.
pub open spec fn join<'a>(
    m: MachineView<'a>,
    operator: &'a Token,
    left: ValueView<'a>,
    right: ValueView<'a>,
) -> Outcome<'a> {
    match (left, right) {
        (ValueView::Number(n), _) => (
            push_task(push_task(m, Task::Binary(operator)), Task::Rendered { depth: 1 }),
            ActionView::Render(n),
        ),
        (_, ValueView::Number(n)) => (
            push_task(push_task(m, Task::Binary(operator)), Task::Rendered { depth: 0 }),
            ActionView::Render(n),
        ),
        _ => match (text_of(m, left), text_of(m, right)) {
            (Some(a), Some(b)) => proceed(push_value(drop_values(m, 2), ValueView::String(a + b))),
            _ => halt(m, MessageView::Unreachable, Some(*operator)),
        },
    }
}

/// Arithmetic on two values, the left one first: a string is read as a
/// number and takes the place of the operand, whereupon the operator is
/// applied anew; a truth value counts as one or zero; any other value that
/// is no number is an error.
pub open spec fn arithmetic<'a>(
    m: MachineView<'a>,
    operator: &'a Token,
    left: ValueView<'a>,
    right: ValueView<'a>,
) -> Outcome<'a> {
    match left {
        ValueView::String(s) => (
            push_task(push_task(m, Task::Binary(operator)), Task::Parsed { depth: 1, operator }),
            ActionView::Parse(s),
        ),
        _ => match numeric(left) {
            None => halt(m, unexpected(left, "Number"@), Some(*operator)),
            Some(a) => match right {
                ValueView::String(s) => (
                    push_task(
                        push_task(m, Task::Binary(operator)),
                        Task::Parsed { depth: 0, operator },
                    ),
                    ActionView::Parse(s),
                ),
                _ => match numeric(right) {
                    None => halt(m, unexpected(right, "Number"@), Some(*operator)),
                    Some(b) => calculate(m, operator, a, b),
                },
            },
        },
    }
}

/// Arithmetic on two numbers. A comparison is decided at once. A sum, a
/// difference, a product and a quotient are asked of the driver; a division
/// by zero is an error and is not asked.
pub open spec fn calculate<'a>(m: MachineView<'a>, operator: &'a Token, a: u64, b: u64) -> Outcome<
    'a,
> {
    let rest = drop_values(m, 2);
    let waiting = push_task(rest, Task::Computed);
    match operator.kind {
        TokenType::Plus => (waiting, ActionView::Add(a, b)),
        TokenType::Minus => (waiting, ActionView::Subtract(a, b)),
        TokenType::Star => (waiting, ActionView::Multiply(a, b)),
        TokenType::Slash => if is_zero(b) {
            halt(m, MessageView::DivisionByZero, Some(*operator))
        } else {
            (waiting, ActionView::Divide(a, b))
        },
        TokenType::Greater => proceed(push_value(rest, ValueView::Bool(number_less(b, a)))),
        TokenType::GreaterEqual => proceed(
            push_value(rest, ValueView::Bool(number_less(b, a) || number_equal(a, b))),
        ),
        TokenType::Less => proceed(push_value(rest, ValueView::Bool(number_less(a, b)))),
        TokenType::LessEqual => proceed(
            push_value(rest, ValueView::Bool(number_less(a, b) || number_equal(a, b))),
        ),
        _ => halt(m, MessageView::Unreachable, Some(*operator)),
    }
}

/// Decides `and` and `or` by the left operand, which is on top. Where it
/// decides the result, it stays as it is and the right operand is not
/// computed. Otherwise it is dropped and the right operand is computed in
/// its place.
pub open spec fn logical<'a>(m: MachineView<'a>, operator: &'a Token, right: &'a Expression) -> Outcome<
    'a,
> {
    if m.values.len() == 0 {
        halt(m, MessageView::Unreachable, Some(*operator))
    } else if operator.kind != TokenType::Or && operator.kind != TokenType::And {
        halt(m, MessageView::Unreachable, Some(*operator))
    } else {
        let left = m.values.last();
        match truthiness(left) {
            None => halt(m, unexpected(left, "Bool"@), Some(*operator)),
            Some(b) => if b == (operator.kind == TokenType::Or) {
                proceed(m)
            } else {
                proceed(push_task(drop_values(m, 1), Task::Evaluate(right)))
            },
        }
    }
}

/// Calls the value that lies below the `count` arguments on top.
pub open spec fn invoke<'a>(m: MachineView<'a>, paren: &'a Token, count: usize) -> Outcome<'a> {
    if m.values.len() <= count {
        halt(m, MessageView::Unreachable, Some(*paren))
    } else {
        let callee = m.values[m.values.len() - count - 1];
        let arguments = m.values.subrange(m.values.len() - count, m.values.len() as int);
        let rest = drop_values(m, count + 1);
        match callee {
            ValueView::Function(function) => if function.parameter_names().len() != count {
                halt(
                    m,
                    MessageView::ArgumentMismatch {
                        has: count,
                        expect: function.parameter_names().len() as usize,
                    },
                    Some(*paren),
                )
            } else {
                match function {
                    Function::Print => print(m, paren),
                    Function::Declared { params, body, this } => match body {
                        Statement::Block { .. } => proceed(
                            push_task(
                                push_task(
                                    MachineView {
                                        scopes: rest.scopes.push(
                                            bound(call_frame(this), lexemes(params@), arguments),
                                        ),
                                        ..rest
                                    },
                                    Task::LeaveCall,
                                ),
                                Task::Execute(body),
                            ),
                        ),
                        _ => halt(m, MessageView::MissingBlock, Some(*paren)),
                    },
                }
            },
            ValueView::Class(class) => if class < m.classes.len() {
                proceed(
                    push_value(
                        MachineView {
                            instances: rest.instances.push(
                                InstanceView { class, fields: Map::empty() },
                            ),
                            ..rest
                        },
                        ValueView::Instance(m.instances.len() as usize),
                    ),
                )
            } else {
                halt(m, MessageView::Unreachable, Some(*paren))
            },
            _ => halt(m, MessageView::IsNotCallable, Some(*paren)),
        }
    }
}

/// Calls `print` with the one argument on top: its text is printed as a
/// line. A number is first written as text, and takes the place of the
/// argument: the call is then made anew.
pub open spec fn print<'a>(m: MachineView<'a>, paren: &'a Token) -> Outcome<'a> {
    match m.values.last() {
        ValueView::Number(n) => (
            push_task(
                push_task(m, Task::Invoke { paren, count: 1 }),
                Task::Rendered { depth: 0 },
            ),
            ActionView::Render(n),
        ),
        argument => match text_of(m, argument) {
            Some(text) => (push_task(drop_values(m, 2), Task::Printed), ActionView::Print(text)),
            None => halt(m, MessageView::Unreachable, Some(*paren)),
        },
    }
}

/// Reads a property of the value on top, which must be an instance.
pub open spec fn get<'a>(m: MachineView<'a>, name: &'a Token) -> Outcome<'a> {
    if m.values.len() == 0 {
        halt(m, MessageView::Unreachable, Some(*name))
    } else {
        match m.values.last() {
            ValueView::Instance(i) => if i < m.instances.len() {
                proceed(push_value(drop_values(m, 1), property(m, i, name.lexeme@)))
            } else {
                halt(m, MessageView::Unreachable, Some(*name))
            },
            other => halt(m, unexpected(other, "Instance"@), Some(*name)),
        }
    }
}

/// Makes sure that the value on top is an instance.
pub open spec fn require_instance<'a>(m: MachineView<'a>, name: &'a Token) -> Outcome<'a> {
    if m.values.len() == 0 {
        halt(m, MessageView::Unreachable, Some(*name))
    } else {
        match m.values.last() {
            ValueView::Instance(i) => if i < m.instances.len() {
                proceed(m)
            } else {
                halt(m, MessageView::Unreachable, Some(*name))
            },
            other => halt(m, unexpected(other, "Instance"@), Some(*name)),
        }
    }
}

/// Writes the value on top into a field of the instance below it, and
/// leaves the value in place of both. The field need not exist before, and
/// a method of the same name is not touched.
pub open spec fn set_property<'a>(m: MachineView<'a>, name: &'a Token) -> Outcome<'a> {
    if m.values.len() < 2 {
        halt(m, MessageView::Unreachable, Some(*name))
    } else {
        let value = m.values.last();
        match m.values[m.values.len() - 2] {
            ValueView::Instance(i) => if i < m.instances.len() {
                proceed(push_value(drop_values(with_field(m, i, name.lexeme@, value), 2), value))
            } else {
                halt(m, MessageView::Unreachable, Some(*name))
            },
            other => halt(m, unexpected(other, "Instance"@), Some(*name)),
        }
    }
}

/// Begins a statement.
pub open spec fn execute<'a>(m: MachineView<'a>, statement: &'a Statement) -> Outcome<'a> {
    match statement {
        Statement::Expression { expression } => proceed(
            push_task(push_task(m, Task::Keep), Task::Evaluate(&**expression)),
        ),
        Statement::Var { name, initializer } => match initializer {
            Some(expression) => proceed(
                push_task(push_task(m, Task::Define(name)), Task::Evaluate(&**expression)),
            ),
            None => proceed(
                MachineView {
                    scopes: defined(m.scopes, name.lexeme@, ValueView::Nil),
                    last: Some(ValueView::Nil),
                    ..m
                },
            ),
        },
        Statement::Block { statements } => proceed(
            push_task(
                push_task(
                    MachineView { scopes: m.scopes.push(Map::empty()), ..m },
                    Task::LeaveScope,
                ),
                Task::Sequence { statements, next: 0 },
            ),
        ),
        Statement::If { condition, then_branch, else_branch } => proceed(
            push_task(
                push_task(m, Task::Branch { then_branch: &**then_branch, else_branch }),
                Task::Evaluate(&**condition),
            ),
        ),
        Statement::While { condition, body } => proceed(
            push_task(
                push_task(m, Task::Loop { condition: &**condition, body: &**body }),
                Task::Evaluate(&**condition),
            ),
        ),
        Statement::Function { name, params, body } => proceed(
            MachineView {
                scopes: defined(
                    m.scopes,
                    name.lexeme@,
                    ValueView::Function(Function::Declared { params, body: &**body, this: None }),
                ),
                last: None,
                ..m
            },
        ),
        Statement::Class { name, superclass, methods } => {
            let declared = MachineView {
                scopes: defined(m.scopes, name.lexeme@, ValueView::Nil),
                ..m
            };
            match superclass {
                Some(expression) => proceed(
                    push_task(
                        push_task(declared, Task::MakeClass { name, methods }),
                        Task::Evaluate(&**expression),
                    ),
                ),
                None => make_class(declared, name, None, methods),
            }
        },
        Statement::Return { value } => match value {
            Some(expression) => proceed(
                push_task(push_task(m, Task::Return), Task::Evaluate(&**expression)),
            ),
            None => proceed(push_task(push_value(m, ValueView::Nil), Task::Return)),
        },
    }
}

/// Runs the statement at `next` of a list, and then the rest.
pub open spec fn sequence<'a>(m: MachineView<'a>, statements: &'a Vec<Statement>, next: usize) -> Outcome<
    'a,
> {
    if next < statements@.len() {
        proceed(
            push_task(
                push_task(m, Task::Sequence { statements, next: (next + 1) as usize }),
                Task::Execute(&statements@[next as int]),
            ),
        )
    } else {
        proceed(m)
    }
}

/// Computes the argument at `next` of a list, and then the rest.
pub open spec fn arguments<'a>(m: MachineView<'a>, list: &'a Vec<Expression>, next: usize) -> Outcome<
    'a,
> {
    if next < list@.len() {
        proceed(
            push_task(
                push_task(m, Task::Arguments { arguments: list, next: (next + 1) as usize }),
                Task::Evaluate(&list@[next as int]),
            ),
        )
    } else {
        proceed(m)
    }
}

/// Makes a class and assigns it to the name that was defined for it.
/// Every method must be a function.
pub open spec fn make_class<'a>(
    m: MachineView<'a>,
    name: &'a Token,
    superclass: Option<usize>,
    methods: &'a Vec<Statement>,
) -> Outcome<'a> {
    if !all_functions(methods@) {
        halt(m, MessageView::IsNotCallable, Some(*name))
    } else {
        let class = ValueView::Class(m.classes.len() as usize);
        match assigned(m.scopes, name.lexeme@, class) {
            Some(scopes) => proceed(
                MachineView {
                    scopes,
                    classes: m.classes.push(Class { name, superclass, methods }),
                    last: Some(class),
                    ..m
                },
            ),
            None => halt(m, undefined_variable(*name).message, Some(*name)),
        }
    }
}

/// Makes a class below the class on top.
pub open spec fn make_subclass<'a>(
    m: MachineView<'a>,
    name: &'a Token,
    methods: &'a Vec<Statement>,
) -> Outcome<'a> {
    if m.values.len() == 0 {
        halt(m, MessageView::Unreachable, Some(*name))
    } else {
        match m.values.last() {
            ValueView::Class(c) => if c < m.classes.len() {
                make_class(drop_values(m, 1), name, Some(c), methods)
            } else {
                halt(m, MessageView::Unreachable, Some(*name))
            },
            other => halt(m, unexpected(other, "Class"@), Some(*name)),
        }
    }
}

/// Takes the value on top as the result of the statement.
pub open spec fn keep<'a>(m: MachineView<'a>) -> Outcome<'a> {
    if m.values.len() == 0 {
        halt(m, MessageView::Unreachable, None)
    } else {
        proceed(MachineView { last: Some(m.values.last()), ..drop_values(m, 1) })
    }
}

/// Defines a variable in the innermost frame with the value on top.
pub open spec fn define<'a>(m: MachineView<'a>, name: &'a Token) -> Outcome<'a> {
    if m.values.len() == 0 {
        halt(m, MessageView::Unreachable, Some(*name))
    } else {
        proceed(
            MachineView {
                scopes: defined(m.scopes, name.lexeme@, m.values.last()),
                last: Some(m.values.last()),
                ..drop_values(m, 1)
            },
        )
    }
}

/// Chooses the branch of an `if` by the truth value that the condition on
/// top counts as.
pub open spec fn branch<'a>(
    m: MachineView<'a>,
    then_branch: &'a Statement,
    else_branch: &'a Option<Box<Statement>>,
) -> Outcome<'a> {
    if m.values.len() == 0 {
        halt(m, MessageView::Unreachable, None)
    } else {
        let rest = drop_values(m, 1);
        match truthiness(m.values.last()) {
            None => halt(m, unexpected(m.values.last(), "Bool"@), None),
            Some(true) => proceed(push_task(push_task(rest, Task::Forget), Task::Execute(then_branch))),
            Some(false) => match else_branch {
                Some(statement) => proceed(
                    push_task(push_task(rest, Task::Forget), Task::Execute(&**statement)),
                ),
                None => proceed(MachineView { last: None, ..rest }),
            },
        }
    }
}

/// Goes round a `while` loop once more if the condition on top counts as
/// true: the body is run, then the condition is computed anew.
pub open spec fn repeat<'a>(m: MachineView<'a>, condition: &'a Expression, body: &'a Statement) -> Outcome<
    'a,
> {
    if m.values.len() == 0 {
        halt(m, MessageView::Unreachable, None)
    } else {
        let rest = drop_values(m, 1);
        match truthiness(m.values.last()) {
            None => halt(m, unexpected(m.values.last(), "Bool"@), None),
            Some(true) => proceed(
                push_task(
                    push_task(
                        push_task(rest, Task::Loop { condition, body }),
                        Task::Evaluate(condition),
                    ),
                    Task::Execute(body),
                ),
            ),
            Some(false) => proceed(MachineView { last: None, ..rest }),
        }
    }
}

/// Closes the frame of a block. To close the first frame is an error.
pub open spec fn leave_scope<'a>(m: MachineView<'a>) -> Outcome<'a> {
    if m.scopes.len() <= 1 {
        halt(m, MessageView::Unreachable, None)
    } else {
        proceed(MachineView { scopes: m.scopes.drop_last(), last: None, ..m })
    }
}

/// Closes the frame of a call that ran to the end of its body: the call
/// gives `nil`.
pub open spec fn leave_call<'a>(m: MachineView<'a>) -> Outcome<'a> {
    if m.scopes.len() <= 1 {
        halt(m, MessageView::Unreachable, None)
    } else {
        proceed(push_value(MachineView { scopes: m.scopes.drop_last(), ..m }, ValueView::Nil))
    }
}

/// The machine after the tasks of the running call were given up: every
/// task down to the nearest end of a call, that one included, is gone, and
/// for each block among them, and for the call, a frame is closed.
pub open spec fn unwound<'a>(m: MachineView<'a>) -> MachineView<'a>
    decreases m.tasks.len(),
{
    if m.tasks.len() == 0 {
        m
    } else {
        let rest = MachineView { tasks: m.tasks.drop_last(), ..m };
        match m.tasks.last() {
            Task::LeaveCall => MachineView { scopes: closed(m.scopes), ..rest },
            Task::LeaveScope => unwound(MachineView { scopes: closed(m.scopes), ..rest }),
            _ => unwound(rest),
        }
    }
}

/// Returns the value on top. Inside a call the value becomes the value of
/// the call: blocks and loops of the function in between are left. Outside
/// of any call the program ends, with the value as its result.
pub open spec fn give_back<'a>(m: MachineView<'a>) -> Outcome<'a> {
    if m.values.len() == 0 {
        halt(m, MessageView::Unreachable, None)
    } else if m.tasks.contains(Task::LeaveCall) {
        proceed(unwound(m))
    } else {
        proceed(MachineView { last: Some(m.values.last()), ..drop_values(unwound(m), 1) })
    }
}

/// Takes the number that the driver read from the text `depth` below the
/// top, and puts it in the place of the text. Text that is no number is an
/// error.
pub open spec fn parsed<'a>(
    m: MachineView<'a>,
    depth: usize,
    operator: &'a Token,
    event: EventView,
) -> Outcome<'a> {
    if m.values.len() <= depth {
        halt(m, MessageView::Unreachable, Some(*operator))
    } else {
        let place = m.values.len() - 1 - depth;
        match event {
            EventView::Number(n) => proceed(
                MachineView { values: m.values.update(place, ValueView::Number(n)), ..m },
            ),
            EventView::NotANumber => halt(
                m,
                unexpected(m.values[place], "Number"@),
                Some(*operator),
            ),
            _ => halt(m, MessageView::Unreachable, Some(*operator)),
        }
    }
}

/// Takes the text that the driver wrote for the number `depth` below the
/// top, and puts it in the place of the number.
pub open spec fn rendered<'a>(m: MachineView<'a>, depth: usize, event: EventView) -> Outcome<'a> {
    if m.values.len() <= depth {
        halt(m, MessageView::Unreachable, None)
    } else {
        match event {
            EventView::Text(s) => proceed(
                MachineView {
                    values: m.values.update(m.values.len() - 1 - depth, ValueView::String(s)),
                    ..m
                },
            ),
            _ => halt(m, MessageView::Unreachable, None),
        }
    }
}

/// Takes the number that the driver computed.
pub open spec fn computed<'a>(m: MachineView<'a>, event: EventView) -> Outcome<'a> {
    match event {
        EventView::Number(n) => proceed(push_value(m, ValueView::Number(n))),
        _ => halt(m, MessageView::Unreachable, None),
    }
}

/// One step: the next task is taken off and done. With nothing left to do
/// the program is over, and its result is that of the statement that
/// finished last.
pub open spec fn step<'a>(m: MachineView<'a>, event: EventView) -> Outcome<'a> {
    if m.tasks.len() == 0 {
        (m, ActionView::Finished(Ok(m.last)))
    } else {
        let rest = MachineView { tasks: m.tasks.drop_last(), ..m };
        match m.tasks.last() {
            Task::Sequence { statements, next } => sequence(rest, statements, next),
            Task::Execute(statement) => execute(rest, statement),
            Task::Keep => keep(rest),
            Task::Define(name) => define(rest, name),
            Task::Branch { then_branch, else_branch } => branch(rest, then_branch, else_branch),
            Task::Forget => proceed(MachineView { last: None, ..rest }),
            Task::Loop { condition, body } => repeat(rest, condition, body),
            Task::LeaveScope => leave_scope(rest),
            Task::LeaveCall => leave_call(rest),
            Task::MakeClass { name, methods } => make_subclass(rest, name, methods),
            Task::Return => give_back(rest),
            Task::Evaluate(expression) => evaluate(rest, expression),
            Task::Arguments { arguments: list, next } => arguments(rest, list, next),
            Task::Assign(name) => assign(rest, name),
            Task::Unary(operator) => unary(rest, operator),
            Task::Binary(operator) => binary(rest, operator),
            Task::Logical { operator, right } => logical(rest, operator, right),
            Task::Invoke { paren, count } => invoke(rest, paren, count),
            Task::Get(name) => get(rest, name),
            Task::RequireInstance(name) => require_instance(rest, name),
            Task::SetProperty(name) => set_property(rest, name),
            Task::Parsed { depth, operator } => parsed(rest, depth, operator, event),
            Task::Rendered { depth } => rendered(rest, depth, event),
            Task::Computed => computed(rest, event),
            Task::Printed => proceed(push_value(rest, ValueView::Nil)),
        }
    }
}

/// Steps until the machine asks for something or the program is over, but
/// no more than `limit` steps: where the limit is reached first, the
/// result is `Continue`.
pub open spec fn run<'a>(m: MachineView<'a>, event: EventView, limit: nat) -> Outcome<'a>
    decreases limit,
{
    if limit == 0 {
        proceed(m)
    } else {
        let (next, action) = step(m, event);
        if action is Continue {
            run(next, EventView::Proceed, (limit - 1) as nat)
        } else {
            (next, action)
        }
    }
}

/// The machine when it is given a program: the statements are all that is
/// left to do, no value is kept, and no statement has finished yet.
pub open spec fn loaded<'a>(m: MachineView<'a>, statements: &'a Vec<Statement>) -> MachineView<'a> {
    MachineView {
        values: Seq::empty(),
        tasks: seq![Task::Sequence { statements, next: 0 }],
        last: None,
        ..m
    }
}

} // verus!
