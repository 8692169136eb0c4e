//! Function values: natives that the host computes, and declared functions
//! with the scope they close over.

use crate::environment::{frames, Environment, Frame};
use crate::instance::Instance;
use crate::stmt::{share, Fun};
use crate::value::{Datum, Value};
use std::rc::Rc;
use vstd::prelude::*;

verus! {

#[derive(Debug)]
pub enum FunctionBody {
    /// A computation of the host, by the number it was registered under.
    Native(usize),
    /// A declaration with the scope that was current where it was
    /// declared. An initializer's call always yields the instance.
    Declared { declaration: Rc<Fun>, closure: Option<usize>, is_initializer: bool },
}

#[derive(Debug)]
pub struct Function {
    pub name: String,
    pub arity_nr: usize,
    pub body: FunctionBody,
}

impl Clone for FunctionBody {
    fn clone(&self) -> (r: Self)
        ensures
            r == *self,
    {
        match self {
            FunctionBody::Native(native) => FunctionBody::Native(*native),
            FunctionBody::Declared { declaration, closure, is_initializer } => {
                FunctionBody::Declared {
                    declaration: share(declaration),
                    closure: *closure,
                    is_initializer: *is_initializer,
                }
            },
        }
    }
}

impl Clone for Function {
    fn clone(&self) -> (r: Self)
        ensures
            r == *self,
    {
        Function { name: self.name.clone(), arity_nr: self.arity_nr, body: self.body.clone() }
    }
}

impl Function {
    pub fn new_native(name: &str, arity_nr: u8, native: usize) -> (r: Self)
        ensures
            r.name@ == name@,
            r.arity_nr == arity_nr,
            r.body == FunctionBody::Native(native),
    {
        Function {
            name: String::from_str(name),
            arity_nr: arity_nr as usize,
            body: FunctionBody::Native(native),
        }
    }

    /// The function that `declaration` declares in the scope `closure`.
    pub fn new_lox(declaration: Rc<Fun>, closure: Option<usize>, is_initializer: bool) -> (r:
        Self)
        ensures
            r.name == declaration.0.lexeme,
            r.arity_nr == declaration.1@.len(),
            r.body == (FunctionBody::Declared { declaration, closure, is_initializer }),
    {
        let name = declaration.0.lexeme.clone();
        let arity_nr = declaration.1.len();
        Function {
            name,
            arity_nr,
            body: FunctionBody::Declared { declaration, closure, is_initializer },
        }
    }

    pub fn arity(&self) -> (r: usize)
        ensures
            r == self.arity_nr,
    {
        self.arity_nr
    }

    /// The scope that a declared function closes over.
    pub open spec fn closure(self) -> Option<usize> {
        match self.body {
            FunctionBody::Declared { closure, .. } => closure,
            FunctionBody::Native(_) => None,
        }
    }

    /// What `bind` returns when the new scope has index `scope`.
    pub open spec fn bound_to(self, scope: usize) -> Function {
        match self.body {
            FunctionBody::Declared { declaration, closure, is_initializer } => Function {
                name: self.name,
                arity_nr: self.arity_nr,
                body: FunctionBody::Declared { declaration, closure: Some(scope), is_initializer },
            },
            FunctionBody::Native(_) => self,
        }
    }

    /// The method bound to `instance`: the same declaration, closing over
    /// a new scope that holds `this` alone and lies inside the method's own
    /// closure. A native has no scope and is returned as it is.
    pub fn bind(&self, scopes: &mut Vec<Environment>, instance: Instance) -> (r: Self)
        ensures
            r == self.bound_to(old(scopes)@.len() as usize),
            frames(final(scopes)@) == self.binding(frames(old(scopes)@), instance),
    {
        match &self.body {
            FunctionBody::Native(_) => self.clone(),
            FunctionBody::Declared { declaration, closure, is_initializer } => {
                let mut environment = Environment::new(*closure);
                environment.define("this", Value::LoxInstance(instance));
                let scope = Environment::push(scopes, environment);
                Function {
                    name: self.name.clone(),
                    arity_nr: self.arity_nr,
                    body: FunctionBody::Declared {
                        declaration: share(declaration),
                        closure: Some(scope),
                        is_initializer: *is_initializer,
                    },
                }
            },
        }
    }

    /// The scopes after binding this function to `instance`: a declared
    /// function gets one new scope; a native changes nothing.
    pub open spec fn binding(self, frames: Seq<Frame>, instance: Instance) -> Seq<Frame> {
        if self.body is Native {
            frames
        } else {
            frames.push(
                Frame {
                    enclosing: self.closure(),
                    values: Map::<Seq<char>, Datum>::empty().insert(
                        "this"@,
                        Datum::Instance(instance),
                    ),
                },
            )
        }
    }
}

} // verus!
