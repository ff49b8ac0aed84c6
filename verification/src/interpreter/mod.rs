//! The evaluator: a machine that runs a program step by step.

pub mod error;
pub mod laws;
pub mod machine;
pub mod semantics;

use crate::interpreter::error::{InterpreterError, InterpreterErrorMessage, MessageView};
use crate::interpreter::machine::{optional_value_view, Action, Event, MachineView, Task};
use crate::memory::environment::undefined_variable;
use crate::memory::handler::{defined, EnvironmentHandler};
use crate::number;
use crate::object::{instances_view, Class, Instance, InstanceView};
use crate::parser::node::{Expression, Statement};
use crate::token::{Token, TokenType};
use crate::value::{lexemes, values_view, Function, TokenValue, ValueView};
use vstd::prelude::*;
use vstd::string::*;

verus! {

/// The machine. It owns the frames, the classes and the instances of the
/// program that it runs, and reads the program where the caller holds it.
#[derive(Debug)]
pub struct Interpreter<'a> {
    environment: EnvironmentHandler<'a>,
    classes: Vec<Class<'a>>,
    instances: Vec<Instance<'a>>,
    values: Vec<TokenValue<'a>>,
    tasks: Vec<Task<'a>>,
    last: Option<TokenValue<'a>>,
}

impl<'a> View for Interpreter<'a> {
    type V = MachineView<'a>;

    closed spec fn view(&self) -> MachineView<'a> {
        MachineView {
            scopes: self.environment@,
            classes: self.classes@,
            instances: instances_view(self.instances@),
            values: values_view(self.values@),
            tasks: self.tasks@,
            last: optional_value_view(self.last),
        }
    }
}

/// The frame that holds what is built in: `print`.
pub open spec fn globals<'a>() -> Map<Seq<char>, ValueView<'a>> {
    Map::empty().insert("print"@, ValueView::Function(Function::Print))
}

/// The machine before any program was given to it.
pub open spec fn initial<'a>() -> MachineView<'a> {
    MachineView {
        scopes: seq![globals()],
        classes: Seq::empty(),
        instances: Seq::empty(),
        values: Seq::empty(),
        tasks: Seq::empty(),
        last: None,
    }
}

impl<'a> Default for Interpreter<'a> {
    fn default() -> (r: Self)
        ensures
            r.wf(),
            r@ == initial(),
    {
        let mut environment = EnvironmentHandler::default();
        let _ = environment.define(String::from_str("print"), TokenValue::Function(Function::Print));
        let r = Interpreter {
            environment,
            classes: Vec::new(),
            instances: Vec::new(),
            values: Vec::new(),
            tasks: Vec::new(),
            last: None,
        };
        proof {
            assert(r@.scopes =~= initial().scopes);
            assert(r@.instances =~= initial().instances);
            assert(r@.values =~= initial().values);
        }
        r
    }
}

impl<'a> Interpreter<'a> {
    /// The frames are in order, there is at least one, and the fields of
    /// each instance are in order.
    pub closed spec fn wf(&self) -> bool {
        &&& self.environment.wf()
        &&& forall|i: int| 0 <= i < self.instances@.len() ==> self.instances@[i].fields.wf()
    }

    /// A machine in order has a frame.
    pub proof fn lemma_has_frame(&self)
        requires
            self.wf(),
        ensures
            self@.scopes.len() >= 1,
    {
        self.environment.lemma_never_empty();
    }

    fn push_value(&mut self, value: TokenValue<'a>)
        requires
            old(self).wf(),
        ensures
            final(self).wf(),
            final(self)@ == semantics::push_value(old(self)@, value@),
    {
        self.values.push(value);
        proof {
            assert(final(self)@.values =~= old(self)@.values.push(value@));
        }
    }

    fn push_task(&mut self, task: Task<'a>)
        requires
            old(self).wf(),
        ensures
            final(self).wf(),
            final(self)@ == semantics::push_task(old(self)@, task),
    {
        self.tasks.push(task);
    }

    fn drop_values(&mut self, count: usize)
        requires
            old(self).wf(),
            count <= old(self)@.values.len(),
        ensures
            final(self).wf(),
            final(self)@ == semantics::drop_values(old(self)@, count as int),
    {
        let mut i: usize = 0;
        proof {
            assert(self.values@ =~= old(self).values@.take(old(self).values@.len() - 0));
        }
        while i < count
            invariant
                self.wf(),
                i <= count <= old(self).values@.len(),
                self.values@ == old(self).values@.take(old(self).values@.len() - i),
                self.environment == old(self).environment,
                self.classes == old(self).classes,
                self.instances == old(self).instances,
                self.tasks == old(self).tasks,
                self.last == old(self).last,
            decreases count - i,
        {
            self.values.pop();
            i += 1;
            proof {
                assert(self.values@ =~= old(self).values@.take(old(self).values@.len() - i));
            }
        }
        proof {
            assert(final(self)@.values =~= old(self)@.values.take(
                old(self)@.values.len() - count,
            ));
        }
    }

    fn halt(&mut self, message: InterpreterErrorMessage<'a>, token: Option<Token>) -> (r: Action<
        'a,
    >)
        requires
            old(self).wf(),
        ensures
            final(self).wf(),
            (final(self)@, r@) == semantics::halt(old(self)@, message@, token),
    {
        proof {
            self.lemma_has_frame();
            assert(self@.scopes =~= old(self)@.scopes.take(self@.scopes.len() as int));
        }
        while self.environment.depth() > 1
            invariant
                self.wf(),
                1 <= self@.scopes.len() <= old(self)@.scopes.len(),
                self@ == (MachineView {
                    scopes: old(self)@.scopes.take(self@.scopes.len() as int),
                    ..old(self)@
                }),
            decreases self@.scopes.len(),
        {
            let _ = self.environment.delete_environment();
            proof {
                assert(self@.scopes =~= old(self)@.scopes.take(self@.scopes.len() as int));
            }
        }
        self.values = Vec::new();
        self.tasks = Vec::new();
        proof {
            assert(final(self)@.values =~= Seq::empty());
            assert(final(self)@.tasks =~= Seq::empty());
        }
        Action::Finished(Err(InterpreterError { message, token }))
    }

    fn unreachable(&mut self, token: &'a Token) -> (r: Action<'a>)
        requires
            old(self).wf(),
        ensures
            final(self).wf(),
            (final(self)@, r@) == semantics::halt(
                old(self)@,
                MessageView::Unreachable,
                Some(*token),
            ),
    {
        self.halt(InterpreterErrorMessage::Unreachable, Some(token.clone()))
    }

    fn unexpected(&mut self, depth: usize, expect: &str, token: Option<Token>) -> (r: Action<'a>)
        requires
            old(self).wf(),
            depth < old(self)@.values.len(),
        ensures
            final(self).wf(),
            (final(self)@, r@) == semantics::halt(
                old(self)@,
                semantics::unexpected(
                    old(self)@.values[old(self)@.values.len() - 1 - depth],
                    expect@,
                ),
                token,
            ),
    {
        let is = self.values[self.values.len() - 1 - depth].clone();
        self.halt(
            InterpreterErrorMessage::UnexpectedValue { is, expect: String::from_str(expect) },
            token,
        )
    }

    fn undefined(&mut self, name: &'a Token) -> (r: Action<'a>)
        requires
            old(self).wf(),
        ensures
            final(self).wf(),
            (final(self)@, r@) == semantics::halt(
                old(self)@,
                undefined_variable(*name).message,
                Some(*name),
            ),
    {
        self.halt(
            InterpreterErrorMessage::UndefinedVariable { lexeme: name.lexeme.clone() },
            Some(name.clone()),
        )
    }

    /// The text of a value that is no number, as `print` writes it. The
    /// text of a number is for the driver to write.
    pub fn text_of(&self, value: &TokenValue<'a>) -> (r: Option<String>)
        requires
            self.wf(),
        ensures
            match r {
                Some(s) => semantics::text_of(self@, value@) == Some(s@),
                None => semantics::text_of(self@, value@) is None,
            },
    {
        match value {
            TokenValue::Bool(b) => Some(
                if *b {
                    String::from_str("true")
                } else {
                    String::from_str("false")
                },
            ),
            TokenValue::Number(_) => None,
            TokenValue::String(s) => Some(s.clone()),
            TokenValue::Function(_) => Some(String::from_str("native function")),
            TokenValue::Class(c) => if *c < self.classes.len() {
                Some(self.classes[*c].name.lexeme.clone())
            } else {
                None
            },
            TokenValue::Instance(i) => if *i < self.instances.len() && self.instances[*i].class
                < self.classes.len() {
                let name = self.classes[self.instances[*i].class].name.lexeme.clone();
                Some(name.concat(" instance"))
            } else {
                None
            },
            TokenValue::Nil => Some(String::from_str("nil")),
        }
    }

    /// Reads a variable.
    fn visit_variable(&mut self, name: &'a Token) -> (r: Action<'a>)
        requires
            old(self).wf(),
        ensures
            final(self).wf(),
            (final(self)@, r@) == semantics::variable(old(self)@, name),
    {
        match self.environment.get(name) {
            Some(value) => {
                self.push_value(value);
                Action::Continue
            },
            None => self.undefined(name),
        }
    }

    /// Assigns the value on top to a variable.
    fn visit_assign(&mut self, name: &'a Token) -> (r: Action<'a>)
        requires
            old(self).wf(),
        ensures
            final(self).wf(),
            (final(self)@, r@) == semantics::assign(old(self)@, name),
    {
        let n = self.values.len();
        if n == 0 {
            return self.unreachable(name);
        }
        let value = self.values[n - 1].clone();
        match self.environment.assign(name, value) {
            Ok(_) => Action::Continue,
            Err(_) => self.undefined(name),
        }
    }
}

/// The number that a value counts as without being read from text.
pub fn numeric<'a>(value: &TokenValue<'a>) -> (r: Option<u64>)
    ensures
        r == semantics::numeric(value@),
{
    match value {
        TokenValue::Bool(b) => Some(number::from_bool(*b)),
        TokenValue::Number(n) => Some(*n),
        _ => None,
    }
}

impl<'a> Interpreter<'a> {
    /// Applies a unary operator to the value on top.
    fn visit_unary(&mut self, operator: &'a Token) -> (r: Action<'a>)
        requires
            old(self).wf(),
        ensures
            final(self).wf(),
            (final(self)@, r@) == semantics::unary(old(self)@, operator),
    {
        let n = self.values.len();
        if n == 0 {
            return self.unreachable(operator);
        }
        match operator.kind {
            TokenType::Bang => match self.values[n - 1].truthy() {
                Some(b) => {
                    self.drop_values(1);
                    self.push_value(TokenValue::Bool(!b));
                    Action::Continue
                },
                None => self.unexpected(0, "Bool", Some(operator.clone())),
            },
            TokenType::Minus => {
                if let TokenValue::String(s) = &self.values[n - 1] {
                    let text = s.clone();
                    self.push_task(Task::Unary(operator));
                    self.push_task(Task::Parsed { depth: 0, operator });
                    return Action::Parse(text);
                }
                match numeric(&self.values[n - 1]) {
                    Some(number) => {
                        self.drop_values(1);
                        self.push_value(TokenValue::Number(number::negated(number)));
                        Action::Continue
                    },
                    None => self.unexpected(0, "Number", Some(operator.clone())),
                }
            },
            _ => self.unreachable(operator),
        }
    }

    /// Applies a binary operator to the two values on top.
    fn visit_binary(&mut self, operator: &'a Token) -> (r: Action<'a>)
        requires
            old(self).wf(),
        ensures
            final(self).wf(),
            (final(self)@, r@) == semantics::binary(old(self)@, operator),
    {
        let n = self.values.len();
        if n < 2 {
            return self.unreachable(operator);
        }
        match operator.kind {
            TokenType::EqualEqual => {
                let same = self.values[n - 2].equals(&self.values[n - 1]);
                self.drop_values(2);
                self.push_value(TokenValue::Bool(same));
                Action::Continue
            },
            TokenType::BangEqual => {
                let same = self.values[n - 2].equals(&self.values[n - 1]);
                self.drop_values(2);
                self.push_value(TokenValue::Bool(!same));
                Action::Continue
            },
            TokenType::Plus => {
                let left_is_string = match &self.values[n - 2] {
                    TokenValue::String(_) => true,
                    _ => false,
                };
                let right_is_string = match &self.values[n - 1] {
                    TokenValue::String(_) => true,
                    _ => false,
                };
                if left_is_string || right_is_string {
                    self.join(operator)
                } else {
                    self.arithmetic(operator)
                }
            },
            TokenType::Minus
            | TokenType::Slash
            | TokenType::Star
            | TokenType::Greater
            | TokenType::GreaterEqual
            | TokenType::Less
            | TokenType::LessEqual => self.arithmetic(operator),
            _ => self.unreachable(operator),
        }
    }

    fn join(&mut self, operator: &'a Token) -> (r: Action<'a>)
        requires
            old(self).wf(),
            old(self)@.values.len() >= 2,
        ensures
            final(self).wf(),
            (final(self)@, r@) == semantics::join(
                old(self)@,
                operator,
                old(self)@.values[old(self)@.values.len() - 2],
                old(self)@.values.last(),
            ),
    {
        let n = self.values.len();
        if let TokenValue::Number(number) = &self.values[n - 2] {
            let number = *number;
            self.push_task(Task::Binary(operator));
            self.push_task(Task::Rendered { depth: 1 });
            return Action::Render(number);
        }
        if let TokenValue::Number(number) = &self.values[n - 1] {
            let number = *number;
            self.push_task(Task::Binary(operator));
            self.push_task(Task::Rendered { depth: 0 });
            return Action::Render(number);
        }
        let left = self.text_of(&self.values[n - 2]);
        let right = self.text_of(&self.values[n - 1]);
        match (left, right) {
            (Some(a), Some(b)) => {
                self.drop_values(2);
                self.push_value(TokenValue::String(a.concat(b.as_str())));
                Action::Continue
            },
            _ => self.unreachable(operator),
        }
    }

    fn arithmetic(&mut self, operator: &'a Token) -> (r: Action<'a>)
        requires
            old(self).wf(),
            old(self)@.values.len() >= 2,
        ensures
            final(self).wf(),
            (final(self)@, r@) == semantics::arithmetic(
                old(self)@,
                operator,
                old(self)@.values[old(self)@.values.len() - 2],
                old(self)@.values.last(),
            ),
    {
        let n = self.values.len();
        if let TokenValue::String(s) = &self.values[n - 2] {
            let text = s.clone();
            self.push_task(Task::Binary(operator));
            self.push_task(Task::Parsed { depth: 1, operator });
            return Action::Parse(text);
        }
        let a = match numeric(&self.values[n - 2]) {
            Some(a) => a,
            None => {
                return self.unexpected(1, "Number", Some(operator.clone()));
            },
        };
        if let TokenValue::String(s) = &self.values[n - 1] {
            let text = s.clone();
            self.push_task(Task::Binary(operator));
            self.push_task(Task::Parsed { depth: 0, operator });
            return Action::Parse(text);
        }
        let b = match numeric(&self.values[n - 1]) {
            Some(b) => b,
            None => {
                return self.unexpected(0, "Number", Some(operator.clone()));
            },
        };
        self.calculate(operator, a, b)
    }

    fn calculate(&mut self, operator: &'a Token, a: u64, b: u64) -> (r: Action<'a>)
        requires
            old(self).wf(),
            old(self)@.values.len() >= 2,
        ensures
            final(self).wf(),
            (final(self)@, r@) == semantics::calculate(old(self)@, operator, a, b),
    {
        match operator.kind {
            TokenType::Plus => {
                self.drop_values(2);
                self.push_task(Task::Computed);
                Action::Add(a, b)
            },
            TokenType::Minus => {
                self.drop_values(2);
                self.push_task(Task::Computed);
                Action::Subtract(a, b)
            },
            TokenType::Star => {
                self.drop_values(2);
                self.push_task(Task::Computed);
                Action::Multiply(a, b)
            },
            TokenType::Slash => {
                if number::zero(b) {
                    self.halt(InterpreterErrorMessage::DivisionByZero, Some(operator.clone()))
                } else {
                    self.drop_values(2);
                    self.push_task(Task::Computed);
                    Action::Divide(a, b)
                }
            },
            TokenType::Greater => {
                self.drop_values(2);
                self.push_value(TokenValue::Bool(number::less(b, a)));
                Action::Continue
            },
            TokenType::GreaterEqual => {
                self.drop_values(2);
                self.push_value(
                    TokenValue::Bool(number::less(b, a) || number::equal(a, b)),
                );
                Action::Continue
            },
            TokenType::Less => {
                self.drop_values(2);
                self.push_value(TokenValue::Bool(number::less(a, b)));
                Action::Continue
            },
            TokenType::LessEqual => {
                self.drop_values(2);
                self.push_value(
                    TokenValue::Bool(number::less(a, b) || number::equal(a, b)),
                );
                Action::Continue
            },
            _ => self.unreachable(operator),
        }
    }

    /// Decides `and` and `or` by the left operand.
    fn visit_logical(&mut self, operator: &'a Token, right: &'a Expression) -> (r: Action<'a>)
        requires
            old(self).wf(),
        ensures
            final(self).wf(),
            (final(self)@, r@) == semantics::logical(old(self)@, operator, right),
    {
        let n = self.values.len();
        if n == 0 {
            return self.unreachable(operator);
        }
        let is_or = operator.kind == TokenType::Or;
        if !is_or && operator.kind != TokenType::And {
            return self.unreachable(operator);
        }
        match self.values[n - 1].truthy() {
            None => self.unexpected(0, "Bool", Some(operator.clone())),
            Some(b) => {
                if b != is_or {
                    self.drop_values(1);
                    self.push_task(Task::Evaluate(right));
                }
                Action::Continue
            },
        }
    }
}

impl<'a> Interpreter<'a> {
    /// Calls the value that lies below the `count` arguments on top.
    fn visit_call(&mut self, paren: &'a Token, count: usize) -> (r: Action<'a>)
        requires
            old(self).wf(),
        ensures
            final(self).wf(),
            (final(self)@, r@) == semantics::invoke(old(self)@, paren, count),
    {
        let n = self.values.len();
        if n <= count {
            return self.unreachable(paren);
        }
        match &self.values[n - count - 1] {
            TokenValue::Function(function) => {
                let function: Function<'a> = *function;
                let expect = function.arity();
                if expect != count {
                    return self.halt(
                        InterpreterErrorMessage::ArgumentMismatch { has: count, expect },
                        Some(paren.clone()),
                    );
                }
                match function {
                    Function::Print => self.print(paren),
                    Function::Declared { params, body, this } => self.call_function(
                        paren,
                        params,
                        body,
                        this,
                    ),
                }
            },
            TokenValue::Class(class) => {
                let class = *class;
                if class < self.classes.len() {
                    let instance = self.instances.len();
                    self.drop_values(count + 1);
                    self.instances.push(Instance::new(class));
                    proof {
                        assert(self@.instances =~= old(self)@.instances.push(
                            InstanceView { class, fields: Map::empty() },
                        ));
                    }
                    self.push_value(TokenValue::Instance(instance));
                    Action::Continue
                } else {
                    self.unreachable(paren)
                }
            },
            _ => self.halt(InterpreterErrorMessage::IsNotCallable, Some(paren.clone())),
        }
    }

    fn print(&mut self, paren: &'a Token) -> (r: Action<'a>)
        requires
            old(self).wf(),
            old(self)@.values.len() >= 2,
        ensures
            final(self).wf(),
            (final(self)@, r@) == semantics::print(old(self)@, paren),
    {
        let n = self.values.len();
        if let TokenValue::Number(number) = &self.values[n - 1] {
            let number = *number;
            self.push_task(Task::Invoke { paren, count: 1 });
            self.push_task(Task::Rendered { depth: 0 });
            return Action::Render(number);
        }
        match self.text_of(&self.values[n - 1]) {
            Some(text) => {
                self.drop_values(2);
                self.push_task(Task::Printed);
                Action::Print(text)
            },
            None => self.unreachable(paren),
        }
    }

    /// Calls a declared function with the arguments on top: a frame is
    /// opened, `this` and the parameters are defined in it, and the body is
    /// the next thing to run.
    fn call_function(
        &mut self,
        paren: &'a Token,
        params: &'a Vec<Token>,
        body: &'a Statement,
        this: Option<usize>,
    ) -> (r: Action<'a>)
        requires
            old(self).wf(),
            old(self)@.values.len() > params@.len(),
        ensures
            final(self).wf(),
            (final(self)@, r@) == (match body {
                Statement::Block { .. } => semantics::proceed(
                    semantics::push_task(
                        semantics::push_task(
                            MachineView {
                                scopes: old(self)@.scopes.push(
                                    semantics::bound(
                                        semantics::call_frame(this),
                                        lexemes(params@),
                                        old(self)@.values.subrange(
                                            old(self)@.values.len() - params@.len(),
                                            old(self)@.values.len() as int,
                                        ),
                                    ),
                                ),
                                ..semantics::drop_values(old(self)@, params@.len() as int + 1)
                            },
                            Task::LeaveCall,
                        ),
                        Task::Execute(body),
                    ),
                ),
                _ => semantics::halt(
                    old(self)@,
                    MessageView::MissingBlock,
                    Some(*paren),
                ),
            }),
    {
        match body {
            Statement::Block { .. } => {},
            _ => {
                return self.halt(InterpreterErrorMessage::MissingBlock, Some(paren.clone()));
            },
        }
        let count = params.len();
        let total = self.values.len();
        let base = total - count;
        let ghost names = lexemes(params@);
        let ghost arguments = old(self)@.values.subrange(
            base as int,
            old(self)@.values.len() as int,
        );
        self.environment.create_environment();
        if let Some(instance) = this {
            let _ = self.environment.define(
                String::from_str("this"),
                TokenValue::Instance(instance),
            );
        }
        proof {
            assert(self@.scopes =~= old(self)@.scopes.push(semantics::call_frame(this)));
            assert(names.take(0).len() == 0);
        }
        let mut k: usize = 0;
        while k < count
            invariant
                self.wf(),
                k <= count,
                count == params@.len(),
                base + count == total,
                total == self.values@.len(),
                names == lexemes(params@),
                arguments == old(self)@.values.subrange(
                    base as int,
                    old(self)@.values.len() as int,
                ),
                self@ == (MachineView {
                    scopes: old(self)@.scopes.push(
                        semantics::bound(
                            semantics::call_frame(this),
                            names.take(k as int),
                            arguments.take(k as int),
                        ),
                    ),
                    ..old(self)@
                }),
            decreases count - k,
        {
            let value = self.values[base + k].clone();
            let _ = self.environment.define(params[k].lexeme.clone(), value);
            proof {
                let next = k + 1;
                assert(names.take(next).drop_last() =~= names.take(k as int));
                assert(arguments.take(next).drop_last() =~= arguments.take(k as int));
                assert(names.take(next).last() == params@[k as int].lexeme@);
                assert(arguments.take(next).last() == value@);
                assert(self@.scopes =~= old(self)@.scopes.push(
                    semantics::bound(
                        semantics::call_frame(this),
                        names.take(next),
                        arguments.take(next),
                    ),
                ));
            }
            k += 1;
        }
        proof {
            assert(names.take(count as int) =~= names);
            assert(arguments.take(count as int) =~= arguments);
        }
        self.drop_values(count + 1);
        self.push_task(Task::LeaveCall);
        self.push_task(Task::Execute(body));
        Action::Continue
    }

    /// Reads a property of the value on top.
    fn visit_get(&mut self, name: &'a Token) -> (r: Action<'a>)
        requires
            old(self).wf(),
        ensures
            final(self).wf(),
            (final(self)@, r@) == semantics::get(old(self)@, name),
    {
        let n = self.values.len();
        if n == 0 {
            return self.unreachable(name);
        }
        match &self.values[n - 1] {
            TokenValue::Instance(instance) => {
                let instance = *instance;
                if instance >= self.instances.len() {
                    return self.unreachable(name);
                }
                let value = match self.instances[instance].get(instance, &self.classes, name) {
                    Some(value) => value,
                    None => TokenValue::Nil,
                };
                self.drop_values(1);
                self.push_value(value);
                Action::Continue
            },
            _ => self.unexpected(0, "Instance", Some(name.clone())),
        }
    }

    fn require_instance(&mut self, name: &'a Token) -> (r: Action<'a>)
        requires
            old(self).wf(),
        ensures
            final(self).wf(),
            (final(self)@, r@) == semantics::require_instance(old(self)@, name),
    {
        let n = self.values.len();
        if n == 0 {
            return self.unreachable(name);
        }
        match &self.values[n - 1] {
            TokenValue::Instance(instance) => {
                if *instance < self.instances.len() {
                    Action::Continue
                } else {
                    self.unreachable(name)
                }
            },
            _ => self.unexpected(0, "Instance", Some(name.clone())),
        }
    }

    /// Writes the value on top into a field of the instance below it.
    fn visit_set(&mut self, name: &'a Token) -> (r: Action<'a>)
        requires
            old(self).wf(),
        ensures
            final(self).wf(),
            (final(self)@, r@) == semantics::set_property(old(self)@, name),
    {
        let n = self.values.len();
        if n < 2 {
            return self.unreachable(name);
        }
        match &self.values[n - 2] {
            TokenValue::Instance(instance) => {
                let instance = *instance;
                if instance >= self.instances.len() {
                    return self.unreachable(name);
                }
                let value = self.values[n - 1].clone();
                self.instances[instance].fields.define(name.lexeme.clone(), value.clone());
                proof {
                    assert(self@.instances =~= semantics::with_field(
                        old(self)@,
                        instance,
                        name.lexeme@,
                        value@,
                    ).instances);
                }
                self.drop_values(2);
                self.push_value(value);
                Action::Continue
            },
            _ => self.unexpected(1, "Instance", Some(name.clone())),
        }
    }

    /// What `super` gives for a method name.
    fn visit_super(&mut self, keyword: &'a Token, method: &'a Token) -> (r: Action<'a>)
        requires
            old(self).wf(),
        ensures
            final(self).wf(),
            (final(self)@, r@) == semantics::evaluate(
                old(self)@,
                &(Expression::Super { keyword: *keyword, method: *method }),
            ),
    {
        match self.environment.value_of(&String::from_str("this")) {
            Some(TokenValue::Instance(instance)) => {
                if instance >= self.instances.len() {
                    return self.unreachable(keyword);
                }
                let value = match Class::get_from_super(
                    &self.classes,
                    self.instances[instance].class,
                    &method.lexeme,
                ) {
                    Some(found) => TokenValue::Function(found.bind(instance)),
                    None => TokenValue::Nil,
                };
                self.push_value(value);
                Action::Continue
            },
            Some(other) => self.halt(
                InterpreterErrorMessage::UnexpectedValue {
                    is: other,
                    expect: String::from_str("Instance"),
                },
                Some(keyword.clone()),
            ),
            None => self.undefined(keyword),
        }
    }

    /// Begins an expression: a literal and a variable give their value at
    /// once; every other expression first has its parts computed.
    fn evaluate(&mut self, expression: &'a Expression) -> (r: Action<'a>)
        requires
            old(self).wf(),
        ensures
            final(self).wf(),
            (final(self)@, r@) == semantics::evaluate(old(self)@, expression),
    {
        match expression {
            Expression::Literal { value } => {
                self.push_value(TokenValue::from_literal(value));
                Action::Continue
            },
            Expression::Grouping { expression } => {
                self.push_task(Task::Evaluate(&**expression));
                Action::Continue
            },
            Expression::Variable { name } => self.visit_variable(name),
            Expression::This { keyword } => self.visit_variable(keyword),
            Expression::Assign { name, value } => {
                self.push_task(Task::Assign(name));
                self.push_task(Task::Evaluate(&**value));
                Action::Continue
            },
            Expression::Unary { operator, right } => {
                self.push_task(Task::Unary(operator));
                self.push_task(Task::Evaluate(&**right));
                Action::Continue
            },
            Expression::Binary { left, operator, right } => {
                self.push_task(Task::Binary(operator));
                self.push_task(Task::Evaluate(&**right));
                self.push_task(Task::Evaluate(&**left));
                Action::Continue
            },
            Expression::Logical { left, operator, right } => {
                self.push_task(Task::Logical { operator, right: &**right });
                self.push_task(Task::Evaluate(&**left));
                Action::Continue
            },
            Expression::Call { callee, paren, arguments } => {
                self.push_task(Task::Invoke { paren, count: arguments.len() });
                self.push_task(Task::Arguments { arguments, next: 0 });
                self.push_task(Task::Evaluate(&**callee));
                Action::Continue
            },
            Expression::Get { object, name } => {
                self.push_task(Task::Get(name));
                self.push_task(Task::Evaluate(&**object));
                Action::Continue
            },
            Expression::SetProperty { object, name, value } => {
                self.push_task(Task::SetProperty(name));
                self.push_task(Task::Evaluate(&**value));
                self.push_task(Task::RequireInstance(name));
                self.push_task(Task::Evaluate(&**object));
                Action::Continue
            },
            Expression::Super { keyword, method } => self.visit_super(keyword, method),
        }
    }
}

/// A sequence holds a thing if its last element is the thing or the
/// sequence without it holds the thing.
proof fn lemma_contains_last<T>(s: Seq<T>, x: T)
    requires
        s.len() > 0,
    ensures
        s.contains(x) == (s.last() == x || s.drop_last().contains(x)),
{
    if s.contains(x) {
        let i = choose|i: int| 0 <= i < s.len() && s[i] == x;
        if i < s.len() - 1 {
            assert(s.drop_last()[i] == x);
        }
    }
    if s.drop_last().contains(x) {
        let i = choose|i: int| 0 <= i < s.drop_last().len() && s.drop_last()[i] == x;
        assert(s[i] == x);
    }
    if s.last() == x {
        assert(s[s.len() - 1] == x);
    }
}

impl<'a> Interpreter<'a> {
    fn set_last(&mut self, value: Option<TokenValue<'a>>)
        requires
            old(self).wf(),
        ensures
            final(self).wf(),
            final(self)@ == (MachineView { last: optional_value_view(value), ..old(self)@ }),
    {
        self.last = value;
    }

    fn close_frame(&mut self)
        requires
            old(self).wf(),
        ensures
            final(self).wf(),
            final(self)@ == (MachineView {
                scopes: semantics::closed(old(self)@.scopes),
                ..old(self)@
            }),
    {
        if self.environment.depth() > 1 {
            let _ = self.environment.delete_environment();
        }
    }

    /// Runs the statement at `next` of a list, and then the rest.
    fn sequence(&mut self, statements: &'a Vec<Statement>, next: usize) -> (r: Action<'a>)
        requires
            old(self).wf(),
        ensures
            final(self).wf(),
            (final(self)@, r@) == semantics::sequence(old(self)@, statements, next),
    {
        if next < statements.len() {
            self.push_task(Task::Sequence { statements, next: next + 1 });
            self.push_task(Task::Execute(&statements[next]));
        }
        Action::Continue
    }

    /// Computes the argument at `next` of a list, and then the rest.
    fn arguments(&mut self, list: &'a Vec<Expression>, next: usize) -> (r: Action<'a>)
        requires
            old(self).wf(),
        ensures
            final(self).wf(),
            (final(self)@, r@) == semantics::arguments(old(self)@, list, next),
    {
        if next < list.len() {
            self.push_task(Task::Arguments { arguments: list, next: next + 1 });
            self.push_task(Task::Evaluate(&list[next]));
        }
        Action::Continue
    }

    /// Builds the function that a declaration stands for, bound to no
    /// instance.
    pub fn create_function(params: &'a Vec<Token>, body: &'a Statement) -> (r: Function<'a>)
        ensures
            r == (Function::Declared { params, body, this: None }),
    {
        Function::Declared { params, body, this: None }
    }

    /// Defines the function of a declaration under its name.
    fn visit_function(&mut self, name: &'a Token, params: &'a Vec<Token>, body: &'a Statement)
        requires
            old(self).wf(),
        ensures
            final(self).wf(),
            final(self)@ == (MachineView {
                scopes: defined(
                    old(self)@.scopes,
                    name.lexeme@,
                    ValueView::Function(Function::Declared { params, body, this: None }),
                ),
                last: None,
                ..old(self)@
            }),
    {
        let function = Interpreter::create_function(params, body);
        let _ = self.environment.define(name.lexeme.clone(), TokenValue::Function(function));
        self.set_last(None);
    }

    /// Makes a class and assigns it to its name.
    fn visit_class(
        &mut self,
        name: &'a Token,
        superclass: Option<usize>,
        methods: &'a Vec<Statement>,
    ) -> (r: Action<'a>)
        requires
            old(self).wf(),
        ensures
            final(self).wf(),
            (final(self)@, r@) == semantics::make_class(old(self)@, name, superclass, methods),
    {
        let mut i: usize = 0;
        while i < methods.len()
            invariant
                self.wf(),
                *self == *old(self),
                i <= methods@.len(),
                forall|j: int| 0 <= j < i ==> (#[trigger] methods@[j]) is Function,
            decreases methods@.len() - i,
        {
            match &methods[i] {
                Statement::Function { .. } => {},
                _ => {
                    return self.halt(InterpreterErrorMessage::IsNotCallable, Some(name.clone()));
                },
            }
            i += 1;
        }
        let class = self.classes.len();
        match self.environment.assign(name, TokenValue::Class(class)) {
            Ok(_) => {
                self.classes.push(Class::new(name, superclass, methods));
                self.set_last(Some(TokenValue::Class(class)));
                Action::Continue
            },
            Err(_) => self.undefined(name),
        }
    }

    fn make_subclass(&mut self, name: &'a Token, methods: &'a Vec<Statement>) -> (r: Action<'a>)
        requires
            old(self).wf(),
        ensures
            final(self).wf(),
            (final(self)@, r@) == semantics::make_subclass(old(self)@, name, methods),
    {
        let n = self.values.len();
        if n == 0 {
            return self.unreachable(name);
        }
        match &self.values[n - 1] {
            TokenValue::Class(class) => {
                let class = *class;
                if class < self.classes.len() {
                    self.drop_values(1);
                    self.visit_class(name, Some(class), methods)
                } else {
                    self.unreachable(name)
                }
            },
            _ => self.unexpected(0, "Class", Some(name.clone())),
        }
    }

    /// Takes the value on top as the result of an expression statement.
    fn visit_expression(&mut self) -> (r: Action<'a>)
        requires
            old(self).wf(),
        ensures
            final(self).wf(),
            (final(self)@, r@) == semantics::keep(old(self)@),
    {
        match self.values.pop() {
            Some(value) => {
                proof {
                    assert(self@.values =~= old(self)@.values.take(old(self)@.values.len() - 1));
                }
                self.set_last(Some(value));
                Action::Continue
            },
            None => self.halt(InterpreterErrorMessage::Unreachable, None),
        }
    }

    /// Defines a variable in the innermost frame with the value on top.
    fn visit_var(&mut self, name: &'a Token) -> (r: Action<'a>)
        requires
            old(self).wf(),
        ensures
            final(self).wf(),
            (final(self)@, r@) == semantics::define(old(self)@, name),
    {
        match self.values.pop() {
            Some(value) => {
                proof {
                    assert(self@.values =~= old(self)@.values.take(old(self)@.values.len() - 1));
                }
                let _ = self.environment.define(name.lexeme.clone(), value.clone());
                self.set_last(Some(value));
                Action::Continue
            },
            None => self.unreachable(name),
        }
    }

    /// Chooses the branch of an `if`.
    fn visit_if(
        &mut self,
        then_branch: &'a Statement,
        else_branch: &'a Option<Box<Statement>>,
    ) -> (r: Action<'a>)
        requires
            old(self).wf(),
        ensures
            final(self).wf(),
            (final(self)@, r@) == semantics::branch(old(self)@, then_branch, else_branch),
    {
        let n = self.values.len();
        if n == 0 {
            return self.halt(InterpreterErrorMessage::Unreachable, None);
        }
        match self.values[n - 1].truthy() {
            None => self.unexpected(0, "Bool", None),
            Some(true) => {
                self.drop_values(1);
                self.push_task(Task::Forget);
                self.push_task(Task::Execute(then_branch));
                Action::Continue
            },
            Some(false) => {
                self.drop_values(1);
                match else_branch {
                    Some(statement) => {
                        self.push_task(Task::Forget);
                        self.push_task(Task::Execute(&**statement));
                    },
                    None => {
                        self.set_last(None);
                    },
                }
                Action::Continue
            },
        }
    }

    /// Goes round a `while` loop once more, or leaves it.
    fn visit_while(&mut self, condition: &'a Expression, body: &'a Statement) -> (r: Action<'a>)
        requires
            old(self).wf(),
        ensures
            final(self).wf(),
            (final(self)@, r@) == semantics::repeat(old(self)@, condition, body),
    {
        let n = self.values.len();
        if n == 0 {
            return self.halt(InterpreterErrorMessage::Unreachable, None);
        }
        match self.values[n - 1].truthy() {
            None => self.unexpected(0, "Bool", None),
            Some(true) => {
                self.drop_values(1);
                self.push_task(Task::Loop { condition, body });
                self.push_task(Task::Evaluate(condition));
                self.push_task(Task::Execute(body));
                Action::Continue
            },
            Some(false) => {
                self.drop_values(1);
                self.set_last(None);
                Action::Continue
            },
        }
    }

    /// Opens the frame of a block and makes its statements the next thing
    /// to run; the frame is closed when they are done.
    fn visit_block(&mut self, statements: &'a Vec<Statement>)
        requires
            old(self).wf(),
        ensures
            final(self).wf(),
            final(self)@ == semantics::push_task(
                semantics::push_task(
                    MachineView { scopes: old(self)@.scopes.push(Map::empty()), ..old(self)@ },
                    Task::LeaveScope,
                ),
                Task::Sequence { statements, next: 0 },
            ),
    {
        self.environment.create_environment();
        self.push_task(Task::LeaveScope);
        self.push_task(Task::Sequence { statements, next: 0 });
    }

    fn leave_scope(&mut self) -> (r: Action<'a>)
        requires
            old(self).wf(),
        ensures
            final(self).wf(),
            (final(self)@, r@) == semantics::leave_scope(old(self)@),
    {
        match self.environment.delete_environment() {
            Ok(_) => {
                self.set_last(None);
                Action::Continue
            },
            Err(_) => self.halt(InterpreterErrorMessage::Unreachable, None),
        }
    }

    fn leave_call(&mut self) -> (r: Action<'a>)
        requires
            old(self).wf(),
        ensures
            final(self).wf(),
            (final(self)@, r@) == semantics::leave_call(old(self)@),
    {
        match self.environment.delete_environment() {
            Ok(_) => {
                self.push_value(TokenValue::Nil);
                Action::Continue
            },
            Err(_) => self.halt(InterpreterErrorMessage::Unreachable, None),
        }
    }

    /// Returns the value on top from the call that is running, or ends the
    /// program with it where no call is running.
    fn visit_return(&mut self) -> (r: Action<'a>)
        requires
            old(self).wf(),
        ensures
            final(self).wf(),
            (final(self)@, r@) == semantics::give_back(old(self)@),
    {
        if self.values.len() == 0 {
            return self.halt(InterpreterErrorMessage::Unreachable, None);
        }
        let mut found = false;
        while !found && self.tasks.len() > 0
            invariant
                self.wf(),
                self@.values == old(self)@.values,
                self@.last == old(self)@.last,
                old(self)@.tasks.contains(Task::LeaveCall) == (found || self@.tasks.contains(
                    Task::LeaveCall,
                )),
                semantics::unwound(old(self)@) == (if found {
                    self@
                } else {
                    semantics::unwound(self@)
                }),
            decreases self@.tasks.len() + (if found { 0int } else { 1int }),
        {
            proof {
                lemma_contains_last(self@.tasks, Task::LeaveCall);
            }
            let task = self.tasks.pop();
            match task {
                Some(Task::LeaveCall) => {
                    self.close_frame();
                    found = true;
                },
                Some(Task::LeaveScope) => {
                    self.close_frame();
                },
                _ => {},
            }
        }
        if !found {
            proof {
                assert(!self@.tasks.contains(Task::LeaveCall));
            }
            let value = self.values.pop();
            proof {
                assert(self@.values =~= old(self)@.values.take(old(self)@.values.len() - 1));
            }
            self.set_last(value);
        }
        Action::Continue
    }

    /// Begins a statement.
    fn execute(&mut self, statement: &'a Statement) -> (r: Action<'a>)
        requires
            old(self).wf(),
        ensures
            final(self).wf(),
            (final(self)@, r@) == semantics::execute(old(self)@, statement),
    {
        match statement {
            Statement::Expression { expression } => {
                self.push_task(Task::Keep);
                self.push_task(Task::Evaluate(&**expression));
                Action::Continue
            },
            Statement::Var { name, initializer } => {
                match initializer {
                    Some(expression) => {
                        self.push_task(Task::Define(name));
                        self.push_task(Task::Evaluate(&**expression));
                    },
                    None => {
                        let _ = self.environment.define(name.lexeme.clone(), TokenValue::Nil);
                        self.set_last(Some(TokenValue::Nil));
                    },
                }
                Action::Continue
            },
            Statement::Block { statements } => {
                self.visit_block(statements);
                Action::Continue
            },
            Statement::If { condition, then_branch, else_branch } => {
                self.push_task(Task::Branch { then_branch: &**then_branch, else_branch });
                self.push_task(Task::Evaluate(&**condition));
                Action::Continue
            },
            Statement::While { condition, body } => {
                self.push_task(Task::Loop { condition: &**condition, body: &**body });
                self.push_task(Task::Evaluate(&**condition));
                Action::Continue
            },
            Statement::Function { name, params, body } => {
                self.visit_function(name, params, &**body);
                Action::Continue
            },
            Statement::Class { name, superclass, methods } => {
                let _ = self.environment.define(name.lexeme.clone(), TokenValue::Nil);
                match superclass {
                    Some(expression) => {
                        self.push_task(Task::MakeClass { name, methods });
                        self.push_task(Task::Evaluate(&**expression));
                        Action::Continue
                    },
                    None => self.visit_class(name, None, methods),
                }
            },
            Statement::Return { value } => {
                match value {
                    Some(expression) => {
                        self.push_task(Task::Return);
                        self.push_task(Task::Evaluate(&**expression));
                    },
                    None => {
                        self.push_value(TokenValue::Nil);
                        self.push_task(Task::Return);
                    },
                }
                Action::Continue
            },
        }
    }

    fn set_value(&mut self, depth: usize, value: TokenValue<'a>)
        requires
            old(self).wf(),
            depth < old(self)@.values.len(),
        ensures
            final(self).wf(),
            final(self)@ == (MachineView {
                values: old(self)@.values.update(old(self)@.values.len() - 1 - depth, value@),
                ..old(self)@
            }),
    {
        let place = self.values.len() - 1 - depth;
        self.values.set(place, value);
        proof {
            assert(final(self)@.values =~= old(self)@.values.update(place as int, value@));
        }
    }

    /// Takes the answer to a text that was to be read as a number.
    fn parsed(&mut self, depth: usize, operator: &'a Token, event: Event) -> (r: Action<'a>)
        requires
            old(self).wf(),
        ensures
            final(self).wf(),
            (final(self)@, r@) == semantics::parsed(old(self)@, depth, operator, event@),
    {
        if self.values.len() <= depth {
            return self.unreachable(operator);
        }
        match event {
            Event::Number(number) => {
                self.set_value(depth, TokenValue::Number(number));
                Action::Continue
            },
            Event::NotANumber => self.unexpected(depth, "Number", Some(operator.clone())),
            _ => self.unreachable(operator),
        }
    }

    /// Takes the text that was written for a number.
    fn rendered(&mut self, depth: usize, event: Event) -> (r: Action<'a>)
        requires
            old(self).wf(),
        ensures
            final(self).wf(),
            (final(self)@, r@) == semantics::rendered(old(self)@, depth, event@),
    {
        if self.values.len() <= depth {
            return self.halt(InterpreterErrorMessage::Unreachable, None);
        }
        match event {
            Event::Text(text) => {
                self.set_value(depth, TokenValue::String(text));
                Action::Continue
            },
            _ => self.halt(InterpreterErrorMessage::Unreachable, None),
        }
    }

    /// Takes the number that was computed.
    fn computed(&mut self, event: Event) -> (r: Action<'a>)
        requires
            old(self).wf(),
        ensures
            final(self).wf(),
            (final(self)@, r@) == semantics::computed(old(self)@, event@),
    {
        match event {
            Event::Number(number) => {
                self.push_value(TokenValue::Number(number));
                Action::Continue
            },
            _ => self.halt(InterpreterErrorMessage::Unreachable, None),
        }
    }

    /// Gives the machine a program to run. Nothing of it is run yet: `step`
    /// and `run` do that.
    pub fn interpret(&mut self, statements: &'a Vec<Statement>)
        requires
            old(self).wf(),
        ensures
            final(self).wf(),
            final(self)@ == semantics::loaded(old(self)@, statements),
    {
        self.values = Vec::new();
        self.tasks = Vec::new();
        self.tasks.push(Task::Sequence { statements, next: 0 });
        self.last = None;
        proof {
            assert(final(self)@.values =~= Seq::empty());
            assert(final(self)@.tasks =~= seq![Task::Sequence { statements, next: 0 }]);
        }
    }

    /// Takes one step. `event` is the answer to what the step before asked
    /// for, or `Event::Proceed` where it asked for nothing.
    pub fn step(&mut self, event: Event) -> (r: Action<'a>)
        requires
            old(self).wf(),
        ensures
            final(self).wf(),
            (final(self)@, r@) == semantics::step(old(self)@, event@),
    {
        let task = match self.tasks.pop() {
            Some(task) => task,
            None => {
                let result = match &self.last {
                    Some(value) => Some(value.clone()),
                    None => None,
                };
                return Action::Finished(Ok(result));
            },
        };
        match task {
            Task::Sequence { statements, next } => self.sequence(statements, next),
            Task::Execute(statement) => self.execute(statement),
            Task::Keep => self.visit_expression(),
            Task::Define(name) => self.visit_var(name),
            Task::Branch { then_branch, else_branch } => self.visit_if(then_branch, else_branch),
            Task::Forget => {
                self.set_last(None);
                Action::Continue
            },
            Task::Loop { condition, body } => self.visit_while(condition, body),
            Task::LeaveScope => self.leave_scope(),
            Task::LeaveCall => self.leave_call(),
            Task::MakeClass { name, methods } => self.make_subclass(name, methods),
            Task::Return => self.visit_return(),
            Task::Evaluate(expression) => self.evaluate(expression),
            Task::Arguments { arguments, next } => self.arguments(arguments, next),
            Task::Assign(name) => self.visit_assign(name),
            Task::Unary(operator) => self.visit_unary(operator),
            Task::Binary(operator) => self.visit_binary(operator),
            Task::Logical { operator, right } => self.visit_logical(operator, right),
            Task::Invoke { paren, count } => self.visit_call(paren, count),
            Task::Get(name) => self.visit_get(name),
            Task::RequireInstance(name) => self.require_instance(name),
            Task::SetProperty(name) => self.visit_set(name),
            Task::Parsed { depth, operator } => self.parsed(depth, operator, event),
            Task::Rendered { depth } => self.rendered(depth, event),
            Task::Computed => self.computed(event),
            Task::Printed => {
                self.push_value(TokenValue::Nil);
                Action::Continue
            },
        }
    }

    /// Steps until the machine asks for something or the program is over,
    /// but no more than `limit` steps.
    pub fn run(&mut self, event: Event, limit: usize) -> (r: Action<'a>)
        requires
            old(self).wf(),
        ensures
            final(self).wf(),
            (final(self)@, r@) == semantics::run(old(self)@, event@, limit as nat),
    {
        let mut pending = event;
        let mut left: usize = limit;
        while left > 0
            invariant
                self.wf(),
                semantics::run(old(self)@, event@, limit as nat) == semantics::run(
                    self@,
                    pending@,
                    left as nat,
                ),
            decreases left,
        {
            let ghost before = self@;
            let ghost given = pending@;
            let action = self.step(pending);
            match action {
                Action::Continue => {},
                _ => {
                    proof {
                        assert(!(action@ is Continue));
                        assert(semantics::run(before, given, left as nat) == (self@, action@));
                    }
                    return action;
                },
            }
            pending = Event::Proceed;
            left -= 1;
        }
        Action::Continue
    }
}

} // verus!
