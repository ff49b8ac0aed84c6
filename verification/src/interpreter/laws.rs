//! Laws of the language, proved of the steps of the machine.

use crate::interpreter::error::MessageView;
use crate::interpreter::machine::{ActionView, EventView, MachineView, Task};
use crate::interpreter::semantics::{
    bound, call_frame, closed, drop_values, halt, numeric, proceed, property, push_task,
    push_value, step, text_of, unexpected, unwound, with_field,
};
use crate::memory::handler::{assigned, defined, lookup, Scopes};
use crate::number::is_zero;
use crate::object::method_of;
use crate::parser::node::{Expression, Statement};
use crate::token::{Token, TokenType};
use crate::value::{truthiness, values_equal, Function, ValueView};
use vstd::prelude::*;

verus! {

/// The machine `m` without its next task.
pub open spec fn taken<'a>(m: MachineView<'a>) -> MachineView<'a> {
    MachineView { tasks: m.tasks.drop_last(), ..m }
}

/// Whether the next task of `m` is to apply the binary operator `operator`
/// to `left` and `right`.
pub open spec fn applies<'a>(
    m: MachineView<'a>,
    operator: &'a Token,
    left: ValueView<'a>,
    right: ValueView<'a>,
) -> bool {
    &&& m.tasks.len() > 0
    &&& m.tasks.last() == Task::Binary(operator)
    &&& m.values.len() >= 2
    &&& m.values[m.values.len() - 2] == left
    &&& m.values.last() == right
}

/// `+` of two strings is the one joined to the other.
pub proof fn law_plus_joins_strings<'a>(
    m: MachineView<'a>,
    operator: &'a Token,
    left: Seq<char>,
    right: Seq<char>,
    event: EventView,
)
    requires
        applies(m, operator, ValueView::String(left), ValueView::String(right)),
        operator.kind == TokenType::Plus,
    ensures
        step(m, event) == proceed(
            push_value(drop_values(taken(m), 2), ValueView::String(left + right)),
        ),
{
}

/// `+` of a string and a value that is no number is the string joined to
/// the text of the value, whatever the kind of the value: joining wins
/// over arithmetic wherever an operand is a string.
pub proof fn law_plus_joins_text<'a>(
    m: MachineView<'a>,
    operator: &'a Token,
    left: Seq<char>,
    right: ValueView<'a>,
    event: EventView,
)
    requires
        applies(m, operator, ValueView::String(left), right),
        operator.kind == TokenType::Plus,
        text_of(m, right) is Some,
    ensures
        step(m, event) == proceed(
            push_value(
                drop_values(taken(m), 2),
                ValueView::String(left + text_of(m, right)->0),
            ),
        ),
{
    assert(text_of(taken(m), right) == text_of(m, right));
}

/// `+` of a string and a number: the text of the number is asked for, and
/// with the answer the result is the string joined to that text.
pub proof fn law_plus_joins_number<'a>(
    m: MachineView<'a>,
    operator: &'a Token,
    left: Seq<char>,
    right: u64,
    text: Seq<char>,
    event: EventView,
)
    requires
        applies(m, operator, ValueView::String(left), ValueView::Number(right)),
        operator.kind == TokenType::Plus,
    ensures
        step(m, event).1 == ActionView::Render(right),
        step(step(m, event).0, EventView::Text(text)).1 == ActionView::Continue,
        step(step(step(m, event).0, EventView::Text(text)).0, EventView::Proceed) == proceed(
            push_value(drop_values(taken(m), 2), ValueView::String(left + text)),
        ),
{
    let asked = step(m, event).0;
    assert(asked.tasks == taken(m).tasks.push(Task::Binary(operator)).push(
        Task::Rendered { depth: 0 },
    ));
    assert(asked.tasks.drop_last() =~= taken(m).tasks.push(Task::Binary(operator)));
    let answered = step(asked, EventView::Text(text)).0;
    assert(answered.values == m.values.update(m.values.len() - 1, ValueView::String(text)));
    assert(answered.tasks.drop_last() =~= taken(m).tasks);
    assert(drop_values(taken(answered), 2).values =~= drop_values(taken(m), 2).values);
}

/// `+` of two numbers is their sum: the sum is asked for, and the answer
/// is the result.
pub proof fn law_plus_adds_numbers<'a>(
    m: MachineView<'a>,
    operator: &'a Token,
    left: u64,
    right: u64,
    sum: u64,
    event: EventView,
)
    requires
        applies(m, operator, ValueView::Number(left), ValueView::Number(right)),
        operator.kind == TokenType::Plus,
    ensures
        step(m, event).1 == ActionView::Add(left, right),
        step(step(m, event).0, EventView::Number(sum)) == proceed(
            push_value(drop_values(taken(m), 2), ValueView::Number(sum)),
        ),
{
    let asked = step(m, event).0;
    assert(asked.tasks.drop_last() =~= taken(m).tasks);
}

/// A division by zero is an error, whatever the dividend: no quotient is
/// asked for.
pub proof fn law_division_by_zero<'a>(
    m: MachineView<'a>,
    operator: &'a Token,
    left: ValueView<'a>,
    right: ValueView<'a>,
    event: EventView,
)
    requires
        applies(m, operator, left, right),
        operator.kind == TokenType::Slash,
        numeric(left) is Some,
        numeric(right) is Some,
        is_zero(numeric(right)->0),
    ensures
        step(m, event) == halt(taken(m), MessageView::DivisionByZero, Some(*operator)),
{
}

/// `==` gives whether the two values are equal as they are, and `!=`
/// whether they are not; nothing is asked of the driver.
pub proof fn law_equality_compares_values<'a>(
    m: MachineView<'a>,
    operator: &'a Token,
    left: ValueView<'a>,
    right: ValueView<'a>,
    event: EventView,
)
    requires
        applies(m, operator, left, right),
        operator.kind == TokenType::EqualEqual || operator.kind == TokenType::BangEqual,
    ensures
        step(m, event) == proceed(
            push_value(
                drop_values(taken(m), 2),
                ValueView::Bool(
                    values_equal(left, right) == (operator.kind
                        == TokenType::EqualEqual),
                ),
            ),
        ),
{
}

/// Whether the next task of `m` is to decide `operator` by `left`, with
/// `right` as the other operand.
pub open spec fn decides<'a>(
    m: MachineView<'a>,
    operator: &'a Token,
    right: &'a Expression,
    left: ValueView<'a>,
) -> bool {
    &&& m.tasks.len() > 0
    &&& m.tasks.last() == Task::Logical { operator, right }
    &&& m.values.len() >= 1
    &&& m.values.last() == left
}

/// Where the left operand of `or` counts as true, or that of `and` as
/// false, it is the result as it is, and the right operand is not
/// computed: no task is added, and nothing but the task is taken away.
pub proof fn law_short_circuit<'a>(
    m: MachineView<'a>,
    operator: &'a Token,
    right: &'a Expression,
    left: ValueView<'a>,
    event: EventView,
)
    requires
        decides(m, operator, right, left),
        (operator.kind == TokenType::Or && truthiness(left) == Some(true)) || (operator.kind
            == TokenType::And && truthiness(left) == Some(false)),
    ensures
        step(m, event) == proceed(taken(m)),
        step(m, event).0.values.last() == left,
{
}

/// Where the left operand does not decide, it is dropped and the right
/// operand is computed in its place.
pub proof fn law_right_operand<'a>(
    m: MachineView<'a>,
    operator: &'a Token,
    right: &'a Expression,
    left: ValueView<'a>,
    event: EventView,
)
    requires
        decides(m, operator, right, left),
        (operator.kind == TokenType::Or && truthiness(left) == Some(false)) || (operator.kind
            == TokenType::And && truthiness(left) == Some(true)),
    ensures
        step(m, event) == proceed(push_task(drop_values(taken(m), 1), Task::Evaluate(right))),
{
}

/// Whether the next task of `m` is to call `callee` with `count`
/// arguments.
pub open spec fn calls<'a>(
    m: MachineView<'a>,
    paren: &'a Token,
    count: usize,
    callee: ValueView<'a>,
) -> bool {
    &&& m.tasks.len() > 0
    &&& m.tasks.last() == Task::Invoke { paren, count }
    &&& m.values.len() > count
    &&& m.values[m.values.len() - count - 1] == callee
}

/// A call of a function with more or fewer arguments than it has
/// parameters is an error that names both numbers.
pub proof fn law_argument_mismatch<'a>(
    m: MachineView<'a>,
    paren: &'a Token,
    count: usize,
    function: Function<'a>,
    event: EventView,
)
    requires
        calls(m, paren, count, ValueView::Function(function)),
        function.parameter_names().len() != count,
    ensures
        step(m, event) == halt(
            taken(m),
            MessageView::ArgumentMismatch {
                has: count,
                expect: function.parameter_names().len() as usize,
            },
            Some(*paren),
        ),
{
}

/// A call of a value that is neither function nor class is an error.
pub proof fn law_not_callable<'a>(
    m: MachineView<'a>,
    paren: &'a Token,
    count: usize,
    callee: ValueView<'a>,
    event: EventView,
)
    requires
        calls(m, paren, count, callee),
        !(callee is Function),
        !(callee is Class),
    ensures
        step(m, event) == halt(taken(m), MessageView::IsNotCallable, Some(*paren)),
{
}

/// To read a property of a value that is no instance is an error that
/// holds the value.
pub proof fn law_property_needs_instance<'a>(
    m: MachineView<'a>,
    name: &'a Token,
    object: ValueView<'a>,
    event: EventView,
)
    requires
        m.tasks.len() > 0,
        m.tasks.last() == Task::Get(name),
        m.values.len() > 0,
        m.values.last() == object,
        !(object is Instance),
    ensures
        step(m, event) == halt(taken(m), unexpected(object, "Instance"@), Some(*name)),
{
}

/// A method that is read off an instance is bound to that instance, and
/// in a call of it `this` is that instance, unless a parameter is called
/// `this`.
pub proof fn law_method_is_bound<'a>(
    m: MachineView<'a>,
    instance: usize,
    name: Seq<char>,
    method: Function<'a>,
    arguments: Seq<ValueView<'a>>,
)
    requires
        instance < m.instances.len(),
        !m.instances[instance as int].fields.dom().contains(name),
        method_of(m.classes, m.instances[instance as int].class as int, name) == Some(method),
        method is Declared,
        arguments.len() == method.parameter_names().len(),
        !method.parameter_names().contains("this"@),
    ensures
        property(m, instance, name) == ValueView::Function(method.bound_to(instance)),
        method.bound_to(instance)->this == Some(instance),
        method.bound_to(instance).parameter_names() == method.parameter_names(),
        bound(call_frame(Some(instance)), method.parameter_names(), arguments).dom().contains(
            "this"@,
        ),
        bound(call_frame(Some(instance)), method.parameter_names(), arguments)["this"@]
            == ValueView::Instance(instance),
{
    lemma_bound_keeps(call_frame(Some(instance)), method.parameter_names(), arguments, "this"@);
}

/// Defining parameters leaves a name alone that is no parameter.
pub proof fn lemma_bound_keeps<'a>(
    frame: Map<Seq<char>, ValueView<'a>>,
    names: Seq<Seq<char>>,
    values: Seq<ValueView<'a>>,
    name: Seq<char>,
)
    requires
        !names.contains(name),
    ensures
        bound(frame, names, values).dom().contains(name) == frame.dom().contains(name),
        frame.dom().contains(name) ==> bound(frame, names, values)[name] == frame[name],
    decreases names.len(),
{
    if names.len() == 0 || values.len() != names.len() {
    } else {
        assert(names.last() == names[names.len() - 1]);
        assert forall|i: int| 0 <= i < names.drop_last().len() implies names.drop_last()[i]
            != name by {
            assert(names[i] == names.drop_last()[i]);
        }
        lemma_bound_keeps(frame, names.drop_last(), values.drop_last(), name);
    }
}

/// A field that was written is what reading it gives, whether or not the
/// instance had the field before; the fields of other names, and the other
/// instances, are as they were.
pub proof fn law_field_written_is_read<'a>(
    m: MachineView<'a>,
    instance: usize,
    name: Seq<char>,
    value: ValueView<'a>,
    other: Seq<char>,
)
    requires
        instance < m.instances.len(),
    ensures
        property(with_field(m, instance, name, value), instance, name) == value,
        other != name ==> property(with_field(m, instance, name, value), instance, other)
            == property(m, instance, other),
        forall|i: int|
            0 <= i < m.instances.len() && i != instance ==> with_field(
                m,
                instance,
                name,
                value,
            ).instances[i] == m.instances[i],
{
}

/// Assignment finds a variable exactly where reading finds one.
pub proof fn law_assignment_declares_nothing<'a>(
    scopes: Scopes<'a>,
    name: Seq<char>,
    value: ValueView<'a>,
)
    ensures
        assigned(scopes, name, value) is None <==> lookup(scopes, name) is None,
        assigned(scopes, name, value) is Some ==> assigned(scopes, name, value)->0.len()
            == scopes.len() && lookup(assigned(scopes, name, value)->0, name) == Some(value),
    decreases scopes.len(),
{
    if scopes.len() > 0 && !scopes.last().dom().contains(name) {
        law_assignment_declares_nothing(scopes.drop_last(), name, value);
        match assigned(scopes.drop_last(), name, value) {
            Some(below) => {
                assert(below.push(scopes.last()).drop_last() =~= below);
            },
            None => {},
        }
    }
}

/// To assign to a name that no frame holds is an error that names it.
pub proof fn law_assignment_of_undefined<'a>(m: MachineView<'a>, name: &'a Token, event: EventView)
    requires
        m.tasks.len() > 0,
        m.tasks.last() == Task::Assign(name),
        m.values.len() > 0,
        lookup(m.scopes, name.lexeme@) is None,
    ensures
        step(m, event) == halt(
            taken(m),
            MessageView::UndefinedVariable { lexeme: name.lexeme@ },
            Some(*name),
        ),
{
    law_assignment_declares_nothing(m.scopes, name.lexeme@, m.values.last());
}

/// A machine with nothing left to do stays as it is, and says that the
/// program is over.
pub proof fn law_finished_stays_finished<'a>(m: MachineView<'a>, event: EventView)
    requires
        m.tasks.len() == 0,
    ensures
        step(m, event) == (m, ActionView::Finished(Ok(m.last))),
{
}

/// An error ends the program and releases what it held: nothing is left
/// to do, no value is kept, and of the frames only the first is open.
pub proof fn law_error_releases_frames<'a>(
    m: MachineView<'a>,
    message: MessageView<'a>,
    token: Option<Token>,
)
    requires
        m.scopes.len() >= 1,
    ensures
        halt(m, message, token).0.scopes == seq![m.scopes[0]],
        halt(m, message, token).0.tasks.len() == 0,
        halt(m, message, token).0.values.len() == 0,
        halt(m, message, token).1 is Finished,
{
    assert(m.scopes.take(1) =~= seq![m.scopes[0]]);
}

/// A block opens a frame and closes it again: after a block without
/// statements the frames are as before, and the block has no result.
pub proof fn law_block_closes_its_frame<'a>(
    m: MachineView<'a>,
    block: &'a Statement,
    event: EventView,
)
    requires
        m.tasks.len() > 0,
        m.tasks.last() == Task::Execute(block),
        m.scopes.len() >= 1,
        block matches Statement::Block { statements } && statements@.len() == 0,
    ensures
        ({
            let opened = step(m, event).0;
            let inside = step(opened, EventView::Proceed).0;
            &&& opened.scopes == m.scopes.push(Map::empty())
            &&& step(inside, EventView::Proceed) == proceed(
                MachineView { last: None, ..taken(m) },
            )
        }),
{
    let opened = step(m, event).0;
    let statements = block->statements;
    assert(opened.tasks == taken(m).tasks.push(Task::LeaveScope).push(
        Task::Sequence { statements: &statements, next: 0 },
    ));
    assert(opened.tasks.drop_last() =~= taken(m).tasks.push(Task::LeaveScope));
    let inside = step(opened, EventView::Proceed).0;
    assert(inside.tasks.drop_last() =~= taken(m).tasks);
    assert(inside.scopes.drop_last() =~= m.scopes);
}

/// `return` in the block that is the body of a function ends the call:
/// the tasks of the body are given up, the frame of the block and the
/// frame of the call are closed, and the value stays on top as the value
/// of the call.
pub proof fn law_return_ends_the_call<'a>(
    m: MachineView<'a>,
    caller: Seq<Task<'a>>,
    rest: Task<'a>,
    event: EventView,
)
    requires
        m.tasks == caller.push(Task::LeaveCall).push(Task::LeaveScope).push(rest).push(
            Task::Return,
        ),
        rest is Sequence,
        m.values.len() > 0,
        m.scopes.len() >= 3,
    ensures
        step(m, event) == proceed(
            MachineView { tasks: caller, scopes: m.scopes.take(m.scopes.len() - 2), ..m },
        ),
{
    let body = taken(m);
    assert(body.tasks == caller.push(Task::LeaveCall).push(Task::LeaveScope).push(rest));
    assert(body.tasks.contains(Task::LeaveCall)) by {
        assert(body.tasks[caller.len() as int] == Task::LeaveCall);
    }
    let first = MachineView { tasks: body.tasks.drop_last(), ..body };
    assert(first.tasks =~= caller.push(Task::LeaveCall).push(Task::LeaveScope));
    let second = MachineView {
        tasks: first.tasks.drop_last(),
        scopes: closed(first.scopes),
        ..first
    };
    assert(second.tasks =~= caller.push(Task::LeaveCall));
    assert(second.tasks.drop_last() =~= caller);
    assert(second.scopes.drop_last() =~= m.scopes.take(m.scopes.len() - 2));
    reveal_with_fuel(unwound, 4);
    assert(unwound(body) == MachineView {
        tasks: caller,
        scopes: m.scopes.take(m.scopes.len() - 2),
        ..m
    });
}

/// Outside of any call, `return` ends the program: nothing is left to do,
/// and the value is the result.
pub proof fn law_return_ends_the_program<'a>(
    m: MachineView<'a>,
    rest: Task<'a>,
    event: EventView,
)
    requires
        m.tasks == seq![rest, Task::Return],
        rest is Sequence,
        m.values.len() > 0,
    ensures
        step(m, event).0.tasks.len() == 0,
        step(m, event).0.last == Some(m.values.last()),
        step(step(m, event).0, EventView::Proceed).1 == ActionView::Finished(
            Ok(Some(m.values.last())),
        ),
{
    let body = taken(m);
    assert(body.tasks =~= seq![rest]);
    assert(!body.tasks.contains(Task::LeaveCall));
    assert(body.tasks.drop_last() =~= Seq::empty());
    reveal_with_fuel(unwound, 3);
}

/// Giving up the tasks of a call closes frames and nothing else, and the
/// first frame stays open.
pub proof fn lemma_unwound_keeps<'a>(m: MachineView<'a>)
    requires
        m.scopes.len() >= 1,
    ensures
        unwound(m).scopes.len() >= 1,
        unwound(m).scopes.len() <= m.scopes.len(),
        unwound(m).classes == m.classes,
        unwound(m).instances == m.instances,
        unwound(m).values == m.values,
        unwound(m).last == m.last,
    decreases m.tasks.len(),
{
    if m.tasks.len() > 0 {
        let rest = MachineView { tasks: m.tasks.drop_last(), ..m };
        match m.tasks.last() {
            Task::LeaveCall => {},
            Task::LeaveScope => {
                lemma_unwound_keeps(MachineView { scopes: closed(m.scopes), ..rest });
            },
            _ => {
                lemma_unwound_keeps(rest);
            },
        }
    }
}

/// The first frame is never closed: whatever the step, a machine with a
/// frame has a frame after it.
pub proof fn law_a_frame_stays_open<'a>(m: MachineView<'a>, event: EventView)
    requires
        m.scopes.len() >= 1,
    ensures
        step(m, event).0.scopes.len() >= 1,
{
    if m.tasks.len() > 0 {
        let rest = taken(m);
        match m.tasks.last() {
            Task::Return => {
                lemma_unwound_keeps(rest);
            },
            Task::Assign(name) => {
                if rest.values.len() > 0 {
                    law_assignment_declares_nothing(
                        rest.scopes,
                        name.lexeme@,
                        rest.values.last(),
                    );
                }
            },
            Task::Execute(statement) => {
                match statement {
                    Statement::Class { name, superclass, methods } => {
                        let declared = defined(
                            rest.scopes,
                            name.lexeme@,
                            ValueView::Nil,
                        );
                        law_assignment_declares_nothing(
                            declared,
                            name.lexeme@,
                            ValueView::Class(rest.classes.len() as usize),
                        );
                    },
                    _ => {},
                }
            },
            Task::MakeClass { name, methods } => {
                law_assignment_declares_nothing(
                    rest.scopes,
                    name.lexeme@,
                    ValueView::Class(rest.classes.len() as usize),
                );
            },
            _ => {},
        }
    }
}

/// A class does not change once it is made, and an instance stays of the
/// class that it was made of: a step may add classes and instances, and
/// leaves those that there are in their places.
pub proof fn law_classes_are_kept<'a>(m: MachineView<'a>, event: EventView)
    ensures
        step(m, event).0.classes.len() >= m.classes.len(),
        forall|i: int|
            0 <= i < m.classes.len() ==> (#[trigger] step(m, event).0.classes[i]) == m.classes[i],
        step(m, event).0.instances.len() >= m.instances.len(),
        forall|i: int|
            0 <= i < m.instances.len() ==> (#[trigger] step(m, event).0.instances[i]).class
                == m.instances[i].class,
{
    if m.tasks.len() > 0 {
        let rest = taken(m);
        match m.tasks.last() {
            Task::Return => {
                if rest.scopes.len() >= 1 {
                    lemma_unwound_keeps(rest);
                } else {
                    lemma_unwound_keeps_objects(rest);
                }
            },
            _ => {},
        }
    }
}

proof fn lemma_unwound_keeps_objects<'a>(m: MachineView<'a>)
    ensures
        unwound(m).classes == m.classes,
        unwound(m).instances == m.instances,
    decreases m.tasks.len(),
{
    if m.tasks.len() > 0 {
        let rest = MachineView { tasks: m.tasks.drop_last(), ..m };
        match m.tasks.last() {
            Task::LeaveCall => {},
            Task::LeaveScope => {
                lemma_unwound_keeps_objects(MachineView { scopes: closed(m.scopes), ..rest });
            },
            _ => {
                lemma_unwound_keeps_objects(rest);
            },
        }
    }
}

} // verus!
