//! Instances: a class and an identity under which the class keeps the
//! instance's fields.

use crate::class::{cores, lemma_cores_update, method_of, pool_fields, Class, ClassCore, ClassModel};
use crate::environment::{data, frames, lemma_data_insert, Environment, Frame};
use crate::errors::{ending, error_at, outcome, RuntimeBreak, Stop};
use crate::table::Table;
use crate::text::join3;
use crate::token::Token;
use crate::value::{Datum, Value};
use vstd::prelude::*;

verus! {

/// A handle to an instance. Copies of it name the same fields.
#[derive(Debug, Clone, Copy, PartialEq, Eq, Structural)]
pub struct Instance {
    pub class: Class,
    pub id: usize,
}

pub struct InstanceData {
    pub fields: Table<Value>,
}

/// The fields of an instance, if its class keeps any for its identity.
pub open spec fn fields_of(classes: Seq<ClassModel>, instance: Instance) -> Option<
    Map<Seq<char>, Datum>,
> {
    if instance.class.core < classes.len() && instance.id < classes[instance.class.core as int].pool.len() {
        Some(classes[instance.class.core as int].pool[instance.id as int])
    } else {
        None
    }
}

/// The classes with the fields `fields` kept for `instance`.
pub open spec fn with_fields(
    classes: Seq<ClassModel>,
    instance: Instance,
    fields: Map<Seq<char>, Datum>,
) -> Seq<ClassModel> {
    let class = classes[instance.class.core as int];
    classes.update(
        instance.class.core as int,
        ClassModel { pool: class.pool.update(instance.id as int, fields), ..class },
    )
}

/// The classes after `class` got a new instance, and that instance: it
/// has no fields, and its identity is the number of instances that the
/// class had. Of a class that does not exist there is no instance: the
/// handle then names no fields.
pub open spec fn with_instance(classes: Seq<ClassModel>, class: Class) -> (
    Seq<ClassModel>,
    Instance,
) {
    if class.core < classes.len() {
        let core = classes[class.core as int];
        (
            classes.update(
                class.core as int,
                ClassModel { pool: core.pool.push(Map::empty()), ..core },
            ),
            Instance { class, id: core.pool.len() as usize },
        )
    } else {
        (classes, Instance { class, id: 0 })
    }
}

pub open spec fn uninitialized(name: Token) -> Stop {
    error_at(name, "Uninitialized instance"@)
}

pub open spec fn undefined_property_text(name: Seq<char>) -> Seq<char> {
    "Undefined property '"@ + name + "'"@
}

/// Writing the field `name` of an instance: the classes after, and
/// whether the write succeeded. A field is created by writing it.
pub open spec fn with_field(
    classes: Seq<ClassModel>,
    instance: Instance,
    name: Token,
    value: Datum,
) -> (Seq<ClassModel>, Result<(), Stop>) {
    match fields_of(classes, instance) {
        Some(fields) => (
            with_fields(classes, instance, fields.insert(name.lexeme@, value)),
            Ok(()),
        ),
        None => (classes, Err(uninitialized(name))),
    }
}

/// Reading the property `name` of an instance: a field if the instance
/// has one of that name, else the class's method of that name, bound to
/// the instance, for which a scope is made.
pub open spec fn property(
    classes: Seq<ClassModel>,
    frames: Seq<Frame>,
    instance: Instance,
    name: Token,
) -> (Seq<Frame>, Result<Datum, Stop>) {
    match fields_of(classes, instance) {
        None => (frames, Err(uninitialized(name))),
        Some(fields) => if fields.contains_key(name.lexeme@) {
            (frames, Ok(fields[name.lexeme@]))
        } else {
            match method_of(classes, instance.class.core as int, name.lexeme@) {
                Some(method) => (
                    method.binding(frames, instance),
                    Ok(Datum::Function(method.bound_to(frames.len() as usize))),
                ),
                None => (frames, Err(error_at(name, undefined_property_text(name.lexeme@)))),
            }
        },
    }
}

/// An instance's fields are its own: writing a field of one instance
/// changes the fields of no other, and the write is seen through every
/// copy of the handle.
pub proof fn lemma_fields_independent(
    classes: Seq<ClassModel>,
    instance: Instance,
    name: Token,
    value: Datum,
    other: Instance,
)
    ensures
        other != instance ==> fields_of(with_field(classes, instance, name, value).0, other)
            == fields_of(classes, other),
        fields_of(classes, instance) matches Some(fields) ==> fields_of(
            with_field(classes, instance, name, value).0,
            instance,
        ) == Some(fields.insert(name.lexeme@, value)),
{
}

/// A new instance has fields of its own: it had none before, has the
/// empty table after, and no other instance's fields change.
pub proof fn lemma_instance_fresh(classes: Seq<ClassModel>, class: Class, other: Instance)
    requires
        class.core < classes.len() ==> classes[class.core as int].pool.len() <= usize::MAX,
    ensures
        class.core < classes.len() ==> fields_of(classes, with_instance(classes, class).1)
            is None && fields_of(
            with_instance(classes, class).0,
            with_instance(classes, class).1,
        ) == Some(Map::<Seq<char>, Datum>::empty()),
        other != with_instance(classes, class).1 ==> fields_of(
            with_instance(classes, class).0,
            other,
        ) == fields_of(classes, other),
{
}

impl Instance {
    /// A new instance of `class`, with no fields.
    pub fn new(classes: &mut Vec<ClassCore>, class: Class) -> (r: Self)
        ensures
            (cores(final(classes)@), r) == with_instance(cores(old(classes)@), class),
    {
        if class.core < classes.len() {
            let core = &mut classes[class.core];
            let id = core.pool.len();
            let data = InstanceData { fields: Table::new() };
            proof {
                assert(pool_fields(core.pool@.push(data)) =~= pool_fields(core.pool@).push(
                    Map::empty(),
                )) by {
                    assert(crate::environment::data(data.fields@) =~= Map::<
                        Seq<char>,
                        Datum,
                    >::empty());
                }
            }
            core.pool.push(data);
            proof {
                lemma_cores_update(old(classes)@, class.core as int, classes@[class.core as int]);
                assert(classes@ =~= old(classes)@.update(
                    class.core as int,
                    classes@[class.core as int],
                ));
            }
            Instance { class, id }
        } else {
            Instance { class, id: 0 }
        }
    }

    pub fn get_class(&self) -> (r: Class)
        ensures
            r == self.class,
    {
        self.class
    }

    /// Reads the property `name`: a field of the instance if it has one of
    /// that name, else the class's method of that name, bound to the
    /// instance.
    pub fn get(&self, classes: &Vec<ClassCore>, scopes: &mut Vec<Environment>, name: &Token) -> (r:
        Result<Value, RuntimeBreak>)
        ensures
            (frames(final(scopes)@), outcome(r)) == property(
                cores(classes@),
                frames(old(scopes)@),
                *self,
                *name,
            ),
    {
        if self.class.core >= classes.len() {
            return Err(RuntimeBreak::error(name, "Uninitialized instance"));
        }
        let core = &classes[self.class.core];
        if self.id >= core.pool.len() {
            return Err(RuntimeBreak::error(name, "Uninitialized instance"));
        }
        match core.pool[self.id].fields.get(&name.lexeme) {
            Some(value) => {
                return Ok(value.clone());
            },
            None => {},
        }
        match ClassCore::find_method(classes, self.class.core, &name.lexeme) {
            Some(method) => Ok(Value::LoxFunction(method.bind(scopes, *self))),
            None => {
                let message = join3("Undefined property '", name.lexeme.as_str(), "'");
                Err(RuntimeBreak::raise(name.clone(), message))
            },
        }
    }

    /// Writes the field `name` of the instance, creating it if need be.
    pub fn set(&self, classes: &mut Vec<ClassCore>, name: &Token, value: Value) -> (r: Result<
        (),
        RuntimeBreak,
    >)
        ensures
            (cores(final(classes)@), ending(r)) == with_field(
                cores(old(classes)@),
                *self,
                *name,
                value@,
            ),
    {
        if self.class.core >= classes.len() {
            return Err(RuntimeBreak::error(name, "Uninitialized instance"));
        }
        if self.id >= classes[self.class.core].pool.len() {
            return Err(RuntimeBreak::error(name, "Uninitialized instance"));
        }
        let core = &mut classes[self.class.core];
        let data = &mut core.pool[self.id];
        proof {
            lemma_data_insert(data.fields@, name.lexeme@, value);
        }
        data.fields.insert(name.lexeme.clone(), value);
        proof {
            let c = self.class.core as int;
            let before = old(classes)@[c];
            let after = classes@[c];
            assert(after.pool@ =~= before.pool@.update(self.id as int, after.pool@[self.id as int]));
            assert(pool_fields(after.pool@) =~= pool_fields(before.pool@).update(
                self.id as int,
                crate::environment::data(after.pool@[self.id as int].fields@),
            ));
            lemma_cores_update(old(classes)@, c, after);
            assert(classes@ =~= old(classes)@.update(c, after));
        }
        Ok(())
    }
}

} // verus!
