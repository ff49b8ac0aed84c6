//! One frame: the variables of one lexical scope.

use crate::interpreter::error::{ErrorView, InterpreterError, InterpreterErrorMessage, MessageView};
use crate::token::Token;
use crate::value::{TokenValue, ValueView};
use vstd::prelude::*;

verus! {

/// A frame: a finite map from names to values. Each name is held once.
#[derive(Debug)]
pub struct Environment<'a> {
    names: Vec<String>,
    values: Vec<TokenValue<'a>>,
}

impl<'a> Environment<'a> {
    /// Whether `index` is a place at which `name` is held.
    pub closed spec fn holds_at(&self, index: int, name: Seq<char>) -> bool {
        0 <= index < self.names@.len() && self.names@[index]@ == name
    }

    /// Every name has a value, and no name is held twice.
    pub closed spec fn wf(&self) -> bool {
        &&& self.names@.len() == self.values@.len()
        &&& forall|i: int, j: int|
            0 <= i < j < self.names@.len() ==> self.names@[i]@ != self.names@[j]@
    }

    pub closed spec fn place_of(&self, name: Seq<char>) -> int {
        choose|i: int| self.holds_at(i, name)
    }

    proof fn lemma_place(&self, index: int, name: Seq<char>)
        requires
            self.wf(),
            self.holds_at(index, name),
        ensures
            self.place_of(name) == index,
            self@.dom().contains(name),
            self@[name] == self.values@[index]@,
    {
        let chosen = self.place_of(name);
        assert(self.holds_at(chosen, name));
        if chosen < index {
            assert(self.names@[chosen]@ != self.names@[index]@);
        } else if index < chosen {
            assert(self.names@[index]@ != self.names@[chosen]@);
        }
    }

    /// A frame without variables.
    pub fn new() -> (r: Self)
        ensures
            r.wf(),
            r@ == Map::<Seq<char>, ValueView<'a>>::empty(),
    {
        let r = Environment { names: Vec::new(), values: Vec::new() };
        proof {
            assert(r@ =~= Map::<Seq<char>, ValueView<'a>>::empty());
        }
        r
    }

    fn find(&self, name: &String) -> (r: Option<usize>)
        requires
            self.wf(),
        ensures
            match r {
                Some(i) => self.holds_at(i as int, name@),
                None => !self@.dom().contains(name@),
            },
    {
        let mut i: usize = 0;
        while i < self.names.len()
            invariant
                i <= self.names@.len(),
                forall|j: int| 0 <= j < i ==> self.names@[j]@ != name@,
            decreases self.names@.len() - i,
        {
            if self.names[i] == *name {
                return Some(i);
            }
            i += 1;
        }
        proof {
            assert(forall|j: int| !self.holds_at(j, name@));
        }
        None
    }

    /// Whether the frame holds a variable of this name.
    pub fn contains(&self, name: &String) -> (r: bool)
        requires
            self.wf(),
        ensures
            r == self@.dom().contains(name@),
    {
        match self.find(name) {
            Some(i) => {
                proof {
                    self.lemma_place(i as int, name@);
                }
                true
            },
            None => false,
        }
    }

    /// Gives the variable `name` the value `value`, whether or not the frame
    /// held it before.
    pub fn define(&mut self, name: String, value: TokenValue<'a>)
        requires
            old(self).wf(),
        ensures
            final(self).wf(),
            final(self)@ == old(self)@.insert(name@, value@),
    {
        match self.find(&name) {
            Some(i) => {
                self.values.set(i, value);
                proof {
                    let before = *old(self);
                    let after = *final(self);
                    assert forall|n: Seq<char>| after@.dom().contains(n) implies #[trigger] after@[n]
                        == before@.insert(name@, value@)[n] by {
                        let p = after.place_of(n);
                        assert(after.holds_at(p, n));
                        after.lemma_place(p, n);
                        assert(before.holds_at(p, n));
                        before.lemma_place(p, n);
                        if n == name@ {
                            before.lemma_place(i as int, n);
                        }
                    }
                    assert(before.holds_at(i as int, name@));
                    assert(after@.dom() =~= before@.insert(name@, value@).dom()) by {
                        assert forall|n: Seq<char>|
                            after@.dom().contains(n) == before@.insert(
                                name@,
                                value@,
                            ).dom().contains(n) by {
                            if after@.dom().contains(n) {
                                assert(before.holds_at(after.place_of(n), n));
                            }
                            if before@.dom().contains(n) {
                                assert(after.holds_at(before.place_of(n), n));
                            }
                            if n == name@ {
                                assert(after.holds_at(i as int, n));
                            }
                        }
                    }
                    assert(after@ =~= before@.insert(name@, value@));
                }
            },
            None => {
                let ghost last = self.names@.len() as int;
                self.names.push(name);
                self.values.push(value);
                proof {
                    let before = *old(self);
                    let after = *final(self);
                    assert forall|i: int, j: int| 0 <= i < j < after.names@.len() implies after.names@[i]@
                        != after.names@[j]@ by {
                        if j == last {
                            assert(!before.holds_at(i, name@));
                        }
                    }
                    assert(after.holds_at(last, name@));
                    assert forall|n: Seq<char>|
                        after@.dom().contains(n) == before@.insert(name@, value@).dom().contains(
                            n,
                        ) by {
                        if after@.dom().contains(n) {
                            let p = after.place_of(n);
                            if p < last {
                                assert(before.holds_at(p, n));
                            }
                        }
                        if before@.dom().contains(n) {
                            assert(after.holds_at(before.place_of(n), n));
                        }
                    }
                    assert forall|n: Seq<char>| after@.dom().contains(n) implies #[trigger] after@[n]
                        == before@.insert(name@, value@)[n] by {
                        let p = after.place_of(n);
                        assert(after.holds_at(p, n));
                        after.lemma_place(p, n);
                        if p < last {
                            assert(before.holds_at(p, n));
                            before.lemma_place(p, n);
                        }
                    }
                    assert(after@ =~= before@.insert(name@, value@));
                }
            },
        }
    }

    /// The value of the variable called `name`, if the frame holds it.
    pub fn value_of(&self, name: &String) -> (r: Option<TokenValue<'a>>)
        requires
            self.wf(),
        ensures
            match r {
                Some(v) => self@.dom().contains(name@) && v@ == self@[name@],
                None => !self@.dom().contains(name@),
            },
    {
        match self.find(name) {
            Some(i) => {
                proof {
                    self.lemma_place(i as int, name@);
                }
                Some(self.values[i].clone())
            },
            None => None,
        }
    }

    /// The value of the variable that `name` names, if the frame holds it.
    pub fn get(&self, name: &Token) -> (r: Option<TokenValue<'a>>)
        requires
            self.wf(),
        ensures
            match r {
                Some(v) => self@.dom().contains(name.lexeme@) && v@ == self@[name.lexeme@],
                None => !self@.dom().contains(name.lexeme@),
            },
    {
        self.value_of(&name.lexeme)
    }

    /// Gives a new value to a variable that the frame holds already. Where
    /// it holds none of that name, nothing changes and the error says so.
    pub fn assign(&mut self, name: &Token, value: TokenValue<'a>) -> (r: Result<
        (),
        InterpreterError<'a>,
    >)
        requires
            old(self).wf(),
        ensures
            final(self).wf(),
            match r {
                Ok(_) => {
                    &&& old(self)@.dom().contains(name.lexeme@)
                    &&& final(self)@ == old(self)@.insert(name.lexeme@, value@)
                },
                Err(e) => {
                    &&& !old(self)@.dom().contains(name.lexeme@)
                    &&& final(self)@ == old(self)@
                    &&& e@ == undefined_variable(*name)
                },
            },
    {
        if self.contains(&name.lexeme) {
            self.define(name.lexeme.clone(), value);
            Ok(())
        } else {
            Err(
                InterpreterError {
                    message: InterpreterErrorMessage::UndefinedVariable {
                        lexeme: name.lexeme.clone(),
                    },
                    token: Some(name.clone()),
                },
            )
        }
    }
}

/// The error for a name that no frame holds.
pub open spec fn undefined_variable<'a>(name: Token) -> ErrorView<'a> {
    ErrorView {
        message: MessageView::UndefinedVariable { lexeme: name.lexeme@ },
        token: Some(name),
    }
}

impl<'a> View for Environment<'a> {
    type V = Map<Seq<char>, ValueView<'a>>;

    closed spec fn view(&self) -> Map<Seq<char>, ValueView<'a>> {
        Map::new(
            |name: Seq<char>| exists|i: int| self.holds_at(i, name),
            |name: Seq<char>| self.values@[self.place_of(name)]@,
        )
    }
}

impl<'a> Default for Environment<'a> {
    fn default() -> (r: Self)
        ensures
            r.wf(),
            r@ == Map::<Seq<char>, ValueView<'a>>::empty(),
    {
        Environment::new()
    }
}

} // verus!
