//! The stack of frames: one for each scope that is open.

use crate::interpreter::error::{
    ErrorView, InterpreterError, InterpreterErrorMessage, MessageView,
};
use crate::memory::environment::{undefined_variable, Environment};
use crate::token::Token;
use crate::value::{TokenValue, ValueView};
use vstd::prelude::*;

verus! {

/// A stack of frames, the innermost last. It never holds fewer than one:
/// the first frame lives as long as the stack and holds what is built in.
#[derive(Debug)]
pub struct EnvironmentHandler<'a> {
    environments: Vec<Environment<'a>>,
}

/// The frames of a stack, the innermost last.
pub type Scopes<'a> = Seq<Map<Seq<char>, ValueView<'a>>>;

/// The value of `name`: that of the innermost frame that holds the name.
pub open spec fn lookup<'a>(scopes: Scopes<'a>, name: Seq<char>) -> Option<ValueView<'a>>
    decreases scopes.len(),
{
    if scopes.len() == 0 {
        None
    } else if scopes.last().dom().contains(name) {
        Some(scopes.last()[name])
    } else {
        lookup(scopes.drop_last(), name)
    }
}

/// The frames after `name` was defined as `value`: the innermost frame holds
/// it, the others are as they were.
pub open spec fn defined<'a>(scopes: Scopes<'a>, name: Seq<char>, value: ValueView<'a>) -> Scopes<
    'a,
> {
    if scopes.len() == 0 {
        scopes
    } else {
        scopes.update(scopes.len() - 1, scopes.last().insert(name, value))
    }
}

/// The frames after `value` was assigned to `name`: the innermost frame that
/// holds the name holds the new value. Where no frame holds it, there is no
/// such stack.
pub open spec fn assigned<'a>(scopes: Scopes<'a>, name: Seq<char>, value: ValueView<'a>) -> Option<
    Scopes<'a>,
>
    decreases scopes.len(),
{
    if scopes.len() == 0 {
        None
    } else if scopes.last().dom().contains(name) {
        Some(scopes.update(scopes.len() - 1, scopes.last().insert(name, value)))
    } else {
        match assigned(scopes.drop_last(), name, value) {
            Some(below) => Some(below.push(scopes.last())),
            None => None,
        }
    }
}

/// The error for an attempt to close the one frame that must stay.
pub open spec fn last_frame_error<'a>() -> ErrorView<'a> {
    ErrorView { message: MessageView::Unreachable, token: None }
}

impl<'a> View for EnvironmentHandler<'a> {
    type V = Scopes<'a>;

    closed spec fn view(&self) -> Scopes<'a> {
        Seq::new(self.environments@.len(), |i: int| self.environments@[i]@)
    }
}

impl<'a> EnvironmentHandler<'a> {
    /// There is at least one frame, and each frame is in order.
    pub closed spec fn wf(&self) -> bool {
        &&& self.environments@.len() >= 1
        &&& forall|i: int| 0 <= i < self.environments@.len() ==> self.environments@[i].wf()
    }

    /// A stack in order has a frame.
    pub proof fn lemma_never_empty(&self)
        requires
            self.wf(),
        ensures
            self@.len() >= 1,
    {
    }

    /// How many frames are open.
    pub fn depth(&self) -> (n: usize)
        ensures
            n == self@.len(),
    {
        self.environments.len()
    }

    /// Opens a frame, which becomes the innermost.
    pub fn create_environment(&mut self)
        requires
            old(self).wf(),
        ensures
            final(self).wf(),
            final(self)@ == old(self)@.push(Map::empty()),
    {
        self.environments.push(Environment::new());
        proof {
            assert(final(self)@ =~= old(self)@.push(Map::empty()));
        }
    }

    /// Closes the innermost frame. The first frame cannot be closed: the
    /// attempt changes nothing and is an error.
    pub fn delete_environment(&mut self) -> (r: Result<(), InterpreterError<'a>>)
        requires
            old(self).wf(),
        ensures
            final(self).wf(),
            match r {
                Ok(_) => old(self)@.len() > 1 && final(self)@ == old(self)@.drop_last(),
                Err(e) => old(self)@.len() <= 1 && final(self)@ == old(self)@ && e@
                    == last_frame_error(),
            },
    {
        if self.environments.len() <= 1 {
            return Err(InterpreterError::unreachable());
        }
        self.environments.pop();
        proof {
            assert(final(self)@ =~= old(self)@.drop_last());
        }
        Ok(())
    }

    /// Defines `name` in the innermost frame. Outer frames are not touched,
    /// so that a name defined in a scope is gone when the scope is left.
    pub fn define(&mut self, name: String, value: TokenValue<'a>) -> (r: Result<
        (),
        InterpreterError<'a>,
    >)
        requires
            old(self).wf(),
        ensures
            final(self).wf(),
            r is Ok,
            final(self)@ == defined(old(self)@, name@, value@),
    {
        let top = self.environments.len() - 1;
        self.environments[top].define(name, value);
        proof {
            assert(final(self)@ =~= defined(old(self)@, name@, value@));
        }
        Ok(())
    }

    /// The value of the variable called `name` in the innermost frame that
    /// holds one of that name.
    pub fn value_of(&self, name: &String) -> (r: Option<TokenValue<'a>>)
        requires
            self.wf(),
        ensures
            match r {
                Some(v) => lookup(self@, name@) == Some(v@),
                None => lookup(self@, name@) is None,
            },
    {
        let mut i: usize = self.environments.len();
        proof {
            assert(self@.take(self@.len() as int) =~= self@);
        }
        while i > 0
            invariant
                self.wf(),
                i <= self.environments@.len(),
                lookup(self@, name@) == lookup(self@.take(i as int), name@),
            decreases i,
        {
            i -= 1;
            proof {
                assert(self@.take(i + 1).drop_last() =~= self@.take(i as int));
            }
            match self.environments[i].value_of(name) {
                Some(v) => {
                    return Some(v);
                },
                None => {},
            }
        }
        None
    }

    /// The value of `name` in the innermost frame that holds it.
    pub fn get(&self, name: &Token) -> (r: Option<TokenValue<'a>>)
        requires
            self.wf(),
        ensures
            match r {
                Some(v) => lookup(self@, name.lexeme@) == Some(v@),
                None => lookup(self@, name.lexeme@) is None,
            },
    {
        self.value_of(&name.lexeme)
    }

    /// Assigns `value` to `name` in the innermost frame that holds the name.
    /// Assignment declares nothing: where no frame holds the name, nothing
    /// changes and the error says that the variable is undefined.
    pub fn assign(&mut self, name: &Token, value: TokenValue<'a>) -> (r: Result<
        (),
        InterpreterError<'a>,
    >)
        requires
            old(self).wf(),
        ensures
            final(self).wf(),
            match r {
                Ok(_) => assigned(old(self)@, name.lexeme@, value@) == Some(final(self)@),
                Err(e) => {
                    &&& assigned(old(self)@, name.lexeme@, value@) is None
                    &&& final(self)@ == old(self)@
                    &&& e@ == undefined_variable(*name)
                },
            },
    {
        let mut i: usize = self.environments.len();
        while i > 0
            invariant
                self.wf(),
                *self == *old(self),
                i <= self.environments@.len(),
                forall|j: int|
                    i <= j < self.environments@.len() ==> !self@[j].dom().contains(name.lexeme@),
            decreases i,
        {
            i -= 1;
            if self.environments[i].contains(&name.lexeme) {
                self.environments[i].define(name.lexeme.clone(), value);
                proof {
                    lemma_assigned_at(old(self)@, i as int, name.lexeme@, value@);
                    assert(final(self)@ =~= old(self)@.update(
                        i as int,
                        old(self)@[i as int].insert(name.lexeme@, value@),
                    ));
                }
                return Ok(());
            }
        }
        proof {
            lemma_assigned_nowhere(self@, name.lexeme@, value@);
        }
        Err(
            InterpreterError {
                message: InterpreterErrorMessage::UndefinedVariable { lexeme: name.lexeme.clone() },
                token: Some(name.clone()),
            },
        )
    }
}

/// Where the frame at `index` holds the name and no frame above it does,
/// assignment changes that frame and no other.
pub proof fn lemma_assigned_at<'a>(
    scopes: Scopes<'a>,
    index: int,
    name: Seq<char>,
    value: ValueView<'a>,
)
    requires
        0 <= index < scopes.len(),
        scopes[index].dom().contains(name),
        forall|j: int| index < j < scopes.len() ==> !scopes[j].dom().contains(name),
    ensures
        assigned(scopes, name, value) == Some(
            scopes.update(index, scopes[index].insert(name, value)),
        ),
    decreases scopes.len(),
{
    if index == scopes.len() - 1 {
    } else {
        let below = scopes.drop_last();
        lemma_assigned_at(below, index, name, value);
        assert(below.update(index, below[index].insert(name, value)).push(scopes.last())
            =~= scopes.update(index, scopes[index].insert(name, value)));
    }
}

/// Where no frame holds the name, assignment fails and lookup finds nothing.
pub proof fn lemma_assigned_nowhere<'a>(scopes: Scopes<'a>, name: Seq<char>, value: ValueView<'a>)
    requires
        forall|j: int| 0 <= j < scopes.len() ==> !scopes[j].dom().contains(name),
    ensures
        assigned(scopes, name, value) is None,
        lookup(scopes, name) is None,
    decreases scopes.len(),
{
    if scopes.len() > 0 {
        lemma_assigned_nowhere(scopes.drop_last(), name, value);
    }
}

/// A definition in an inner scope does not leak: while the scope is open
/// the name has the new value, and when it is closed every name has the
/// value that it had before the scope was opened.
pub proof fn law_definition_does_not_leak<'a>(
    scopes: Scopes<'a>,
    name: Seq<char>,
    value: ValueView<'a>,
)
    requires
        scopes.len() >= 1,
    ensures
        lookup(defined(scopes.push(Map::empty()), name, value), name) == Some(value),
        defined(scopes.push(Map::empty()), name, value).drop_last() == scopes,
        forall|other: Seq<char>|
            lookup(defined(scopes.push(Map::empty()), name, value).drop_last(), other) == lookup(
                scopes,
                other,
            ),
{
    let inner = defined(scopes.push(Map::empty()), name, value);
    assert(inner.last().dom().contains(name));
    assert(inner.drop_last() =~= scopes);
}

/// A definition touches the innermost frame only, and reading finds the
/// value of the innermost frame that holds the name.
pub proof fn law_definition_is_innermost<'a>(
    scopes: Scopes<'a>,
    name: Seq<char>,
    value: ValueView<'a>,
    other: Seq<char>,
)
    requires
        scopes.len() >= 1,
    ensures
        defined(scopes, name, value).len() == scopes.len(),
        defined(scopes, name, value).drop_last() == scopes.drop_last(),
        lookup(defined(scopes, name, value), name) == Some(value),
        other != name ==> lookup(defined(scopes, name, value), other) == lookup(scopes, other),
{
    let after = defined(scopes, name, value);
    assert(after.drop_last() =~= scopes.drop_last());
    assert(after.last().dom().contains(name));
}

impl<'a> Default for EnvironmentHandler<'a> {
    fn default() -> (r: Self)
        ensures
            r.wf(),
            r@ == seq![Map::<Seq<char>, ValueView<'a>>::empty()],
    {
        let mut environments: Vec<Environment<'a>> = Vec::new();
        environments.push(Environment::new());
        let r = EnvironmentHandler { environments };
        proof {
            assert(r@ =~= seq![Map::<Seq<char>, ValueView<'a>>::empty()]);
        }
        r
    }
}

} // verus!
