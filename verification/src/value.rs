//! The values that a program computes with.

use crate::number::{equal, number_equal, zero, is_zero};
use crate::parser::node::Statement;
use crate::token::{Literal, Token};
use vstd::prelude::*;
use vstd::string::*;

verus! {

/// A callable value: the built-in `print`, or a function or method that the
/// program declares. A declared function holds its parameters and its body
/// where the program text holds them; a method that was taken from an
/// instance also holds that instance, by its number.
#[derive(Debug, Clone, Copy, PartialEq)]
pub enum Function<'a> {
    Print,
    Declared { params: &'a Vec<Token>, body: &'a Statement, this: Option<usize> },
}

/// A value. A number is the bit pattern of a double; a class and an instance
/// are named by the number under which the interpreter keeps them.
#[derive(Debug, PartialEq)]
pub enum TokenValue<'a> {
    Bool(bool),
    Number(u64),
    String(String),
    Function(Function<'a>),
    Class(usize),
    Instance(usize),
    Nil,
}

/// The view of a value: a string is the sequence of its characters.
pub enum ValueView<'a> {
    Bool(bool),
    Number(u64),
    String(Seq<char>),
    Function(Function<'a>),
    Class(usize),
    Instance(usize),
    Nil,
}

impl<'a> View for TokenValue<'a> {
    type V = ValueView<'a>;

    open spec fn view(&self) -> ValueView<'a> {
        match self {
            TokenValue::Bool(b) => ValueView::Bool(*b),
            TokenValue::Number(n) => ValueView::Number(*n),
            TokenValue::String(s) => ValueView::String(s@),
            TokenValue::Function(f) => ValueView::Function(*f),
            TokenValue::Class(c) => ValueView::Class(*c),
            TokenValue::Instance(i) => ValueView::Instance(*i),
            TokenValue::Nil => ValueView::Nil,
        }
    }
}

/// The view of each value of a list, in order.
pub open spec fn values_view<'a>(list: Seq<TokenValue<'a>>) -> Seq<ValueView<'a>> {
    Seq::new(list.len(), |i: int| list[i]@)
}

/// The value that a literal of the program text stands for.
pub open spec fn literal_view<'a>(literal: Literal) -> ValueView<'a> {
    match literal {
        Literal::Bool(b) => ValueView::Bool(b),
        Literal::Number(n) => ValueView::Number(n),
        Literal::String(s) => ValueView::String(s@),
        Literal::Nil => ValueView::Nil,
    }
}

/// The text of each token of a list, in order.
pub open spec fn lexemes(tokens: Seq<Token>) -> Seq<Seq<char>> {
    Seq::new(tokens.len(), |i: int| tokens[i].lexeme@)
}

impl<'a> Function<'a> {
    /// The names of the parameters, in order. `print` has one, `text`.
    pub open spec fn parameter_names(self) -> Seq<Seq<char>> {
        match self {
            Function::Print => seq!["text"@],
            Function::Declared { params, .. } => lexemes(params@),
        }
    }

    /// The same function, bound to the instance `instance`.
    pub open spec fn bound_to(self, instance: usize) -> Function<'a> {
        match self {
            Function::Print => Function::Print,
            Function::Declared { params, body, .. } => Function::Declared {
                params,
                body,
                this: Some(instance),
            },
        }
    }

    /// How many arguments a call must bring.
    pub fn arity(&self) -> (n: usize)
        ensures
            n == self.parameter_names().len(),
    {
        match self {
            Function::Print => 1,
            Function::Declared { params, .. } => params.len(),
        }
    }

    /// The name of the parameter at `index`.
    pub fn parameter_name(&self, index: usize) -> (r: String)
        requires
            index < self.parameter_names().len(),
        ensures
            r@ == self.parameter_names()[index as int],
    {
        match self {
            Function::Print => String::from_str("text"),
            Function::Declared { params, .. } => params[index].lexeme.clone(),
        }
    }

    /// Whether the two functions have the same parameter names.
    pub fn same_parameters(&self, other: &Function<'a>) -> (r: bool)
        ensures
            r == (self.parameter_names() == other.parameter_names()),
    {
        let n = self.arity();
        if n != other.arity() {
            return false;
        }
        let mut i: usize = 0;
        while i < n
            invariant
                i <= n,
                n == self.parameter_names().len(),
                n == other.parameter_names().len(),
                forall|j: int|
                    0 <= j < i ==> self.parameter_names()[j] == other.parameter_names()[j],
            decreases n - i,
        {
            if self.parameter_name(i) != other.parameter_name(i) {
                return false;
            }
            i += 1;
        }
        proof {
            assert(self.parameter_names() =~= other.parameter_names());
        }
        true
    }

    /// A copy of this function with its `this` set to `instance`.
    pub fn bind(&self, instance: usize) -> (r: Function<'a>)
        ensures
            r == self.bound_to(instance),
    {
        match self {
            Function::Print => Function::Print,
            Function::Declared { params, body, .. } => Function::Declared {
                params: *params,
                body: *body,
                this: Some(instance),
            },
        }
    }
}

/// Equality of values, as `==` of the language decides it. Values of
/// different kinds are never equal. Numbers are equal as doubles are,
/// strings when they hold the same characters, functions when their
/// parameters have the same names, and a class or an instance only to
/// itself.
pub open spec fn values_equal(a: ValueView, b: ValueView) -> bool {
    match (a, b) {
        (ValueView::Bool(x), ValueView::Bool(y)) => x == y,
        (ValueView::Number(x), ValueView::Number(y)) => number_equal(x, y),
        (ValueView::String(x), ValueView::String(y)) => x == y,
        (ValueView::Nil, ValueView::Nil) => true,
        (ValueView::Function(x), ValueView::Function(y)) => x.parameter_names()
            == y.parameter_names(),
        (ValueView::Class(x), ValueView::Class(y)) => x == y,
        (ValueView::Instance(x), ValueView::Instance(y)) => x == y,
        _ => false,
    }
}

/// What a value counts as where a truth value is asked for: a truth value
/// is itself, a number is true unless it is zero, a string unless it is
/// empty, and `nil` is false. A function, a class and an instance have no
/// truth value.
pub open spec fn truthiness(v: ValueView) -> Option<bool> {
    match v {
        ValueView::Bool(b) => Some(b),
        ValueView::Number(n) => Some(!is_zero(n)),
        ValueView::String(s) => Some(s.len() > 0),
        ValueView::Nil => Some(false),
        _ => None,
    }
}

/// The word for the kind of a value, as diagnostics write it.
pub open spec fn kind_name(v: ValueView) -> Seq<char> {
    match v {
        ValueView::Bool(_) => "bool"@,
        ValueView::Number(_) => "number"@,
        ValueView::String(_) => "string"@,
        ValueView::Function(_) => "function"@,
        ValueView::Class(_) => "class"@,
        ValueView::Instance(_) => "instance"@,
        ValueView::Nil => "nil"@,
    }
}

impl<'a> Clone for TokenValue<'a> {
    fn clone(&self) -> (r: Self)
        ensures
            r == *self,
    {
        match self {
            TokenValue::Bool(b) => TokenValue::Bool(*b),
            TokenValue::Number(n) => TokenValue::Number(*n),
            TokenValue::String(s) => TokenValue::String(s.clone()),
            TokenValue::Function(f) => TokenValue::Function(*f),
            TokenValue::Class(c) => TokenValue::Class(*c),
            TokenValue::Instance(i) => TokenValue::Instance(*i),
            TokenValue::Nil => TokenValue::Nil,
        }
    }
}

impl<'a> TokenValue<'a> {
    /// The value of a literal.
    pub fn from_literal(literal: &Literal) -> (r: Self)
        ensures
            r@ == literal_view(*literal),
    {
        match literal {
            Literal::Bool(b) => TokenValue::Bool(*b),
            Literal::Number(n) => TokenValue::Number(*n),
            Literal::String(s) => TokenValue::String(s.clone()),
            Literal::Nil => TokenValue::Nil,
        }
    }

    /// Whether `==` of the language holds of the two values.
    pub fn equals(&self, other: &TokenValue<'a>) -> (r: bool)
        ensures
            r == values_equal(self@, other@),
    {
        match (self, other) {
            (TokenValue::Bool(x), TokenValue::Bool(y)) => *x == *y,
            (TokenValue::Number(x), TokenValue::Number(y)) => equal(*x, *y),
            (TokenValue::String(x), TokenValue::String(y)) => *x == *y,
            (TokenValue::Nil, TokenValue::Nil) => true,
            (TokenValue::Function(x), TokenValue::Function(y)) => x.same_parameters(y),
            (TokenValue::Class(x), TokenValue::Class(y)) => *x == *y,
            (TokenValue::Instance(x), TokenValue::Instance(y)) => *x == *y,
            _ => false,
        }
    }

    /// The truth value that this value counts as, if it has one.
    pub fn truthy(&self) -> (r: Option<bool>)
        ensures
            r == truthiness(self@),
    {
        match self {
            TokenValue::Bool(b) => Some(*b),
            TokenValue::Number(n) => Some(!zero(*n)),
            TokenValue::String(s) => Some(!s.as_str().is_empty()),
            TokenValue::Nil => Some(false),
            _ => None,
        }
    }

    /// The word for the kind of this value.
    pub fn kind(&self) -> (r: &'static str)
        ensures
            r@ == kind_name(self@),
    {
        match self {
            TokenValue::Bool(_) => "bool",
            TokenValue::Number(_) => "number",
            TokenValue::String(_) => "string",
            TokenValue::Function(_) => "function",
            TokenValue::Class(_) => "class",
            TokenValue::Instance(_) => "instance",
            TokenValue::Nil => "nil",
        }
    }
}

/// Whether two values are of the same kind.
pub open spec fn same_kind(a: ValueView, b: ValueView) -> bool {
    match (a, b) {
        (ValueView::Bool(_), ValueView::Bool(_)) => true,
        (ValueView::Number(_), ValueView::Number(_)) => true,
        (ValueView::String(_), ValueView::String(_)) => true,
        (ValueView::Function(_), ValueView::Function(_)) => true,
        (ValueView::Class(_), ValueView::Class(_)) => true,
        (ValueView::Instance(_), ValueView::Instance(_)) => true,
        (ValueView::Nil, ValueView::Nil) => true,
        _ => false,
    }
}

/// `==` does not convert: values of different kinds are never equal. So
/// `nil` equals `nil` and not `false`. The order of the operands does not
/// matter.
pub proof fn law_no_conversion_in_equality(a: ValueView, b: ValueView)
    ensures
        values_equal(a, b) ==> same_kind(a, b),
        values_equal(ValueView::Nil, ValueView::Nil),
        !values_equal(ValueView::Nil, ValueView::Bool(false)),
        values_equal(a, b) == values_equal(b, a),
{
}

} // verus!
