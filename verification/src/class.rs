//! Classes: a method table, an optional superclass and the field tables of
//! the class's instances.

use crate::environment::data;
use crate::function::Function;
use crate::instance::InstanceData;
use crate::table::Table;
use crate::value::Datum;
use vstd::prelude::*;

verus! {

/// A handle to a class: its index among the interpreter's classes. Two
/// class values are the same class exactly if their handles are equal.
#[derive(Debug, Clone, Copy, PartialEq, Eq, Structural)]
pub struct Class {
    pub core: usize,
}

pub struct ClassCore {
    pub name: String,
    pub superclass: Option<Class>,
    pub methods: Table<Function>,
    /// The field tables of the instances, by instance identity.
    pub pool: Vec<InstanceData>,
}

/// What a class is: its declaration and the fields of its instances.
pub struct ClassModel {
    pub name: Seq<char>,
    pub superclass: Option<Class>,
    pub methods: Map<Seq<char>, Function>,
    pub pool: Seq<Map<Seq<char>, Datum>>,
}

/// The fields of the instances in a pool.
pub open spec fn pool_fields(pool: Seq<InstanceData>) -> Seq<Map<Seq<char>, Datum>> {
    Seq::new(pool.len(), |i: int| data(pool[i].fields@))
}

impl View for ClassCore {
    type V = ClassModel;

    open spec fn view(&self) -> ClassModel {
        ClassModel {
            name: self.name@,
            superclass: self.superclass,
            methods: self.methods@,
            pool: pool_fields(self.pool@),
        }
    }
}

/// What the classes are.
pub open spec fn cores(classes: Seq<ClassCore>) -> Seq<ClassModel> {
    Seq::new(classes.len(), |i: int| classes[i]@)
}

pub proof fn lemma_cores_push(classes: Seq<ClassCore>, class: ClassCore)
    ensures
        cores(classes.push(class)) == cores(classes).push(class@),
{
    assert(cores(classes.push(class)) =~= cores(classes).push(class@));
}

pub proof fn lemma_cores_update(classes: Seq<ClassCore>, at: int, class: ClassCore)
    requires
        0 <= at < classes.len(),
    ensures
        cores(classes.update(at, class)) == cores(classes).update(at, class@),
{
    assert(cores(classes.update(at, class)) =~= cores(classes).update(at, class@));
}

/// The method that a class answers to `key` with: its own, or else the one
/// its superclass answers with. A superclass is always an older class, so
/// a link that does not lead to a smaller index ends the chain.
pub open spec fn method_of(classes: Seq<ClassModel>, class: int, key: Seq<char>) -> Option<
    Function,
>
    decreases class,
{
    if 0 <= class < classes.len() {
        if classes[class].methods.contains_key(key) {
            Some(classes[class].methods[key])
        } else {
            match classes[class].superclass {
                Some(parent) => if parent.core < class {
                    method_of(classes, parent.core as int, key)
                } else {
                    None
                },
                None => None,
            }
        }
    } else {
        None
    }
}

/// The classes and one more, the youngest, without instances.
pub open spec fn with_class(
    classes: Seq<ClassModel>,
    name: Seq<char>,
    methods: Map<Seq<char>, Function>,
    superclass: Option<Class>,
) -> Seq<ClassModel> {
    classes.push(ClassModel { name, superclass, methods, pool: Seq::empty() })
}

/// The number of arguments that a call of the class takes: that of its
/// initializer, or none.
pub open spec fn class_arity(classes: Seq<ClassModel>, class: Class) -> usize {
    match method_of(classes, class.core as int, "init"@) {
        Some(initializer) => initializer.arity_nr,
        None => 0,
    }
}

/// The name of a class; a handle that names no class has the empty name.
pub open spec fn class_name(classes: Seq<ClassModel>, class: Class) -> Seq<char> {
    if class.core < classes.len() {
        classes[class.core as int].name
    } else {
        ""@
    }
}

impl ClassCore {
    pub fn find_method<'a>(classes: &'a Vec<ClassCore>, class: usize, key: &String) -> (r:
        Option<&'a Function>)
        ensures
            match r {
                Some(f) => method_of(cores(classes@), class as int, key@) == Some(*f),
                None => method_of(cores(classes@), class as int, key@) is None,
            },
    {
        let mut current: usize = class;
        loop
            invariant
                method_of(cores(classes@), class as int, key@) == method_of(
                    cores(classes@),
                    current as int,
                    key@,
                ),
            decreases current,
        {
            if current >= classes.len() {
                return None;
            }
            match classes[current].methods.get(key) {
                Some(f) => {
                    return Some(f);
                },
                None => {},
            }
            match classes[current].superclass {
                Some(parent) => {
                    if parent.core < current {
                        current = parent.core;
                    } else {
                        return None;
                    }
                },
                None => {
                    return None;
                },
            }
        }
    }
}

impl Class {
    /// Adds a class to `classes` and returns its handle.
    pub fn new(
        classes: &mut Vec<ClassCore>,
        name: &str,
        methods: Table<Function>,
        superclass: Option<Class>,
    ) -> (r: Self)
        ensures
            r.core == old(classes)@.len(),
            cores(final(classes)@) == with_class(
                cores(old(classes)@),
                name@,
                methods@,
                superclass,
            ),
    {
        let core = classes.len();
        let class = ClassCore {
            name: String::from_str(name),
            superclass,
            methods,
            pool: Vec::new(),
        };
        proof {
            lemma_cores_push(classes@, class);
            assert(class@.pool =~= Seq::empty());
        }
        classes.push(class);
        Class { core }
    }

    /// The class's name, if the handle is one of `classes`.
    pub fn name<'a>(&self, classes: &'a Vec<ClassCore>) -> (r: Option<&'a String>)
        ensures
            r.is_some() == (self.core < classes@.len()),
            r matches Some(name) ==> name@ == class_name(cores(classes@), *self),
    {
        if self.core < classes.len() {
            Some(&classes[self.core].name)
        } else {
            None
        }
    }

    pub fn find_method<'a>(&self, classes: &'a Vec<ClassCore>, key: &String) -> (r: Option<
        &'a Function,
    >)
        ensures
            match r {
                Some(f) => method_of(cores(classes@), self.core as int, key@) == Some(*f),
                None => method_of(cores(classes@), self.core as int, key@) is None,
            },
    {
        ClassCore::find_method(classes, self.core, key)
    }

    pub fn arity(&self, classes: &Vec<ClassCore>) -> (r: usize)
        ensures
            r == class_arity(cores(classes@), *self),
    {
        let key = String::from_str("init");
        match ClassCore::find_method(classes, self.core, &key) {
            Some(initializer) => initializer.arity(),
            None => 0,
        }
    }
}

} // verus!
