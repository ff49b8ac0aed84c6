//! Classes and instances.

use crate::memory::environment::Environment;
use crate::parser::node::Statement;
use crate::token::Token;
use crate::value::{Function, TokenValue, ValueView};
use vstd::prelude::*;

verus! {

/// A class: the token that names it, the class above it if it has one, and
/// its methods, where the program text holds them. A class does not change
/// once it is made. The class above is named by the number under which the
/// interpreter keeps it.
#[derive(Debug, Clone, Copy, PartialEq)]
pub struct Class<'a> {
    pub name: &'a Token,
    pub superclass: Option<usize>,
    pub methods: &'a Vec<Statement>,
}

/// An instance: the number of its class, and its fields.
#[derive(Debug)]
pub struct Instance<'a> {
    pub class: usize,
    pub fields: Environment<'a>,
}

/// The view of an instance.
pub struct InstanceView<'a> {
    pub class: usize,
    pub fields: Map<Seq<char>, ValueView<'a>>,
}

impl<'a> View for Instance<'a> {
    type V = InstanceView<'a>;

    open spec fn view(&self) -> InstanceView<'a> {
        InstanceView { class: self.class, fields: self.fields@ }
    }
}

/// The view of each instance of a list, in order.
pub open spec fn instances_view<'a>(list: Seq<Instance<'a>>) -> Seq<InstanceView<'a>> {
    Seq::new(list.len(), |i: int| list[i]@)
}

/// Whether every method of the list is a function declaration.
pub open spec fn all_functions(methods: Seq<Statement>) -> bool {
    forall|i: int| 0 <= i < methods.len() ==> (#[trigger] methods[i]) is Function
}

/// The method that a list of declarations gives to `name`: the last
/// function of that name, as a later declaration replaces an earlier one.
/// It is bound to no instance.
pub open spec fn own_method<'a>(methods: Seq<Statement>, name: Seq<char>) -> Option<Function<'a>>
    decreases methods.len(),
{
    if methods.len() == 0 {
        None
    } else {
        match methods.last() {
            Statement::Function { name: method, params, body } if method.lexeme@ == name => Some(
                Function::Declared { params: &params, body: &*body, this: None },
            ),
            _ => own_method(methods.drop_last(), name),
        }
    }
}

/// The method that the class numbered `class` gives to `name`: its own, or
/// else that of the nearest class above it that has one. A class above has
/// a smaller number than the class below it.
pub open spec fn method_of<'a>(classes: Seq<Class<'a>>, class: int, name: Seq<char>) -> Option<
    Function<'a>,
>
    decreases class,
{
    if 0 <= class < classes.len() {
        match own_method(classes[class].methods@, name) {
            Some(f) => Some(f),
            None => inherited_method(classes, class, name),
        }
    } else {
        None
    }
}

/// The method that the classes above the class numbered `class` give to
/// `name`.
pub open spec fn inherited_method<'a>(classes: Seq<Class<'a>>, class: int, name: Seq<char>) -> Option<
    Function<'a>,
>
    decreases class, 0int,
{
    if 0 <= class < classes.len() {
        match classes[class].superclass {
            Some(above) if above < class => method_of(classes, above as int, name),
            _ => None,
        }
    } else {
        None
    }
}

impl<'a> Class<'a> {
    /// A class.
    pub fn new(name: &'a Token, superclass: Option<usize>, methods: &'a Vec<Statement>) -> (r:
        Self)
        ensures
            r == (Class { name, superclass, methods }),
    {
        Class { name, superclass, methods }
    }

    /// The method that this class itself declares under `identifier`.
    pub fn get_own(&self, identifier: &String) -> (r: Option<Function<'a>>)
        ensures
            r == own_method(self.methods@, identifier@),
    {
        let mut i: usize = self.methods.len();
        proof {
            assert(self.methods@.take(i as int) =~= self.methods@);
        }
        while i > 0
            invariant
                i <= self.methods@.len(),
                own_method(self.methods@, identifier@) == own_method(
                    self.methods@.take(i as int),
                    identifier@,
                ),
            decreases i,
        {
            i -= 1;
            proof {
                assert(self.methods@.take(i + 1).drop_last() =~= self.methods@.take(i as int));
            }
            let methods: &'a Vec<Statement> = self.methods;
            match &methods[i] {
                Statement::Function { name, params, body } => {
                    if name.lexeme == *identifier {
                        return Some(Function::Declared { params, body: &**body, this: None });
                    }
                },
                _ => {},
            }
        }
        None
    }
}

impl<'a> Class<'a> {
    /// The method that the class numbered `class` of `classes` gives to
    /// `identifier`: its own, or else that of the nearest class above it
    /// that has one.
    pub fn get(classes: &Vec<Class<'a>>, class: usize, identifier: &String) -> (r: Option<
        Function<'a>,
    >)
        ensures
            r == method_of(classes@, class as int, identifier@),
    {
        if class >= classes.len() {
            return None;
        }
        match classes[class].get_own(identifier) {
            Some(f) => Some(f),
            None => Class::get_from_super(classes, class, identifier),
        }
    }

    /// The method that the classes above the class numbered `class` give to
    /// `identifier`.
    pub fn get_from_super(classes: &Vec<Class<'a>>, class: usize, identifier: &String) -> (r:
        Option<Function<'a>>)
        ensures
            r == inherited_method(classes@, class as int, identifier@),
    {
        let mut current: usize = class;
        loop
            invariant
                inherited_method(classes@, class as int, identifier@) == inherited_method(
                    classes@,
                    current as int,
                    identifier@,
                ),
            decreases current,
        {
            if current >= classes.len() {
                return None;
            }
            let above = match classes[current].superclass {
                Some(above) => above,
                None => {
                    return None;
                },
            };
            if above >= current {
                return None;
            }
            match classes[above].get_own(identifier) {
                Some(f) => {
                    return Some(f);
                },
                None => {},
            }
            current = above;
        }
    }
}

/// What an instance gives for `name`: its field of that name; else the
/// method that its class gives to the name, bound to the instance, which
/// `this` is the number of; else nothing.
pub open spec fn member<'a>(
    instance: InstanceView<'a>,
    this: usize,
    classes: Seq<Class<'a>>,
    name: Seq<char>,
) -> Option<ValueView<'a>> {
    if instance.fields.dom().contains(name) {
        Some(instance.fields[name])
    } else {
        match method_of(classes, instance.class as int, name) {
            Some(f) => Some(ValueView::Function(f.bound_to(this))),
            None => None,
        }
    }
}

impl<'a> Instance<'a> {
    /// An instance of the class numbered `class`, without fields.
    pub fn new(class: usize) -> (r: Self)
        ensures
            r.fields.wf(),
            r@ == (InstanceView { class, fields: Map::empty() }),
    {
        Instance { class, fields: Environment::new() }
    }

    /// What this instance gives for `name`: a field before a method. A
    /// method is bound to the instance, which `this` is the number of.
    pub fn get(&self, this: usize, classes: &Vec<Class<'a>>, name: &Token) -> (r: Option<
        TokenValue<'a>,
    >)
        requires
            self.fields.wf(),
        ensures
            match r {
                Some(v) => member(self@, this, classes@, name.lexeme@) == Some(v@),
                None => member(self@, this, classes@, name.lexeme@) is None,
            },
    {
        if let Some(value) = self.fields.get(name) {
            return Some(value);
        }
        match Class::get(classes, self.class, &name.lexeme) {
            Some(method) => Some(TokenValue::Function(method.bind(this))),
            None => None,
        }
    }
}

} // verus!
