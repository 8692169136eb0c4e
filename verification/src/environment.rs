//! Scopes: frames of bindings, each with a link to the scope around it.

use crate::errors::{ending, outcome, undefined_variable, RuntimeBreak, Stop};
use crate::table::Table;
use crate::token::Token;
use crate::value::{Datum, Value};
use vstd::prelude::*;

verus! {

/// One scope. Scopes live in a vector and name each other by index; a
/// scope is always younger than the one around it.
pub struct Environment {
    pub enclosing: Option<usize>,
    pub values: Table<Value>,
}

/// What a scope is: its bindings and the scope around it.
pub struct Frame {
    pub enclosing: Option<usize>,
    pub values: Map<Seq<char>, Datum>,
}

/// The bindings of a table of values.
pub open spec fn data(values: Map<Seq<char>, Value>) -> Map<Seq<char>, Datum> {
    values.map_values(|v: Value| v@)
}

impl View for Environment {
    type V = Frame;

    open spec fn view(&self) -> Frame {
        Frame { enclosing: self.enclosing, values: data(self.values@) }
    }
}

/// What the scopes are.
pub open spec fn frames(scopes: Seq<Environment>) -> Seq<Frame> {
    Seq::new(scopes.len(), |i: int| scopes[i]@)
}

pub proof fn lemma_data_insert(values: Map<Seq<char>, Value>, name: Seq<char>, value: Value)
    ensures
        data(values.insert(name, value)) == data(values).insert(name, value@),
{
    assert(data(values.insert(name, value)) =~= data(values).insert(name, value@));
}

pub proof fn lemma_frames_push(scopes: Seq<Environment>, scope: Environment)
    ensures
        frames(scopes.push(scope)) == frames(scopes).push(scope@),
{
    assert(frames(scopes.push(scope)) =~= frames(scopes).push(scope@));
}

pub proof fn lemma_frames_update(scopes: Seq<Environment>, at: int, scope: Environment)
    requires
        0 <= at < scopes.len(),
    ensures
        frames(scopes.update(at, scope)) == frames(scopes).update(at, scope@),
{
    assert(frames(scopes.update(at, scope)) =~= frames(scopes).update(at, scope@));
}

/// The scope that binds `name` for code running in scope `start`: `start`
/// itself, or else the nearest scope around it that has the name. A scope
/// is younger than the one around it, so a link that does not lead to a
/// smaller index ends the chain.
pub open spec fn holder(frames: Seq<Frame>, start: int, name: Seq<char>) -> Option<int>
    decreases start,
{
    if 0 <= start < frames.len() {
        if frames[start].values.contains_key(name) {
            Some(start)
        } else {
            match frames[start].enclosing {
                Some(outer) => if outer < start {
                    holder(frames, outer as int, name)
                } else {
                    None
                },
                None => None,
            }
        }
    } else {
        None
    }
}

/// The scope around scope `at`, if both exist.
pub open spec fn enclosing_of(frames: Seq<Frame>, at: int) -> Option<int> {
    if 0 <= at < frames.len() {
        match frames[at].enclosing {
            Some(outer) => if outer < frames.len() {
                Some(outer as int)
            } else {
                None
            },
            None => None,
        }
    } else {
        None
    }
}

/// The scope reached from `start` by `distance` links outward.
pub open spec fn ancestor_of(frames: Seq<Frame>, start: int, distance: nat) -> Option<int>
    decreases distance,
{
    if !(0 <= start < frames.len()) {
        None
    } else if distance == 0 {
        Some(start)
    } else {
        match frames[start].enclosing {
            Some(outer) => ancestor_of(frames, outer as int, (distance - 1) as nat),
            None => None,
        }
    }
}

/// The scope `distance` links outward of `start`, if it binds `name`.
pub open spec fn holder_at(frames: Seq<Frame>, start: int, distance: nat, name: Seq<char>) -> Option<
    int,
> {
    match ancestor_of(frames, start, distance) {
        Some(a) => if frames[a].values.contains_key(name) {
            Some(a)
        } else {
            None
        },
        None => None,
    }
}

/// The same scopes in the same chain; only what they bind may differ.
pub open spec fn same_links(before: Seq<Frame>, after: Seq<Frame>) -> bool {
    &&& after.len() == before.len()
    &&& forall|i: int| 0 <= i < before.len() ==> (#[trigger] after[i]).enclosing == before[i].enclosing
}

/// The scopes with `name` bound to `value` in scope `at`.
pub open spec fn bound(frames: Seq<Frame>, at: int, name: Seq<char>, value: Datum) -> Seq<Frame> {
    frames.update(
        at,
        Frame { enclosing: frames[at].enclosing, values: frames[at].values.insert(name, value) },
    )
}

/// Reading `name` in the scope `at`, if there is one.
pub open spec fn reading(frames: Seq<Frame>, at: Option<int>, name: Token) -> Result<Datum, Stop> {
    match at {
        Some(h) => Ok(frames[h].values[name.lexeme@]),
        None => Err(undefined_variable(name)),
    }
}

/// Writing `name` in the scope `at`, if there is one: the scopes after,
/// and whether the write succeeded.
pub open spec fn writing(frames: Seq<Frame>, at: Option<int>, name: Token, value: Datum) -> (
    Seq<Frame>,
    Result<(), Stop>,
) {
    match at {
        Some(h) => (bound(frames, h, name.lexeme@, value), Ok(())),
        None => (frames, Err(undefined_variable(name))),
    }
}

impl Environment {
    pub fn new(enclosing: Option<usize>) -> (r: Self)
        ensures
            r@ == (Frame { enclosing, values: Map::empty() }),
    {
        let r = Environment { enclosing, values: Table::new() };
        assert(data(r.values@) =~= Map::<Seq<char>, Datum>::empty());
        r
    }

    /// Binds `k` in this scope, in place of an earlier binding of `k`.
    pub fn define(&mut self, k: &str, v: Value)
        ensures
            final(self)@ == (Frame {
                enclosing: old(self).enclosing,
                values: old(self)@.values.insert(k@, v@),
            }),
    {
        proof {
            lemma_data_insert(self.values@, k@, v);
        }
        self.values.insert(String::from_str(k), v);
    }

    /// Binds `name` in the scope `at`.
    pub fn define_in(scopes: &mut Vec<Environment>, at: usize, name: &str, value: Value)
        requires
            at < old(scopes)@.len(),
        ensures
            frames(final(scopes)@) == bound(frames(old(scopes)@), at as int, name@, value@),
            final(scopes)@.len() == old(scopes)@.len(),
            same_links(frames(old(scopes)@), frames(final(scopes)@)),
    {
        let scope = &mut scopes[at];
        scope.define(name, value);
        proof {
            lemma_frames_update(old(scopes)@, at as int, scopes@[at as int]);
            assert(scopes@ =~= old(scopes)@.update(at as int, scopes@[at as int]));
        }
    }

    /// Adds a scope and gives its index.
    pub fn push(scopes: &mut Vec<Environment>, scope: Environment) -> (r: usize)
        ensures
            r == old(scopes)@.len(),
            frames(final(scopes)@) == frames(old(scopes)@).push(scope@),
            final(scopes)@.len() == old(scopes)@.len() + 1,
    {
        let r = scopes.len();
        proof {
            lemma_frames_push(scopes@, scope);
        }
        scopes.push(scope);
        r
    }

    /// Takes the scope around scope `at` out of the scopes: it is returned,
    /// and an empty scope without a scope around it stands in its place.
    /// There is nothing to take if scope `at` or the scope around it does
    /// not exist.
    pub fn take_enclosing(scopes: &mut Vec<Environment>, at: usize) -> (r: Option<Environment>)
        ensures
            final(scopes)@.len() == old(scopes)@.len(),
            match enclosing_of(frames(old(scopes)@), at as int) {
                Some(outer) => r matches Some(taken) && taken == old(scopes)@[outer] && frames(
                    final(scopes)@,
                ) == frames(old(scopes)@).update(
                    outer,
                    Frame { enclosing: None, values: Map::empty() },
                ),
                None => r is None && *final(scopes) == *old(scopes),
            },
    {
        if at >= scopes.len() {
            return None;
        }
        match scopes[at].enclosing {
            Some(outer) => {
                if outer < scopes.len() {
                    let mut taken = Environment::new(None);
                    proof {
                        lemma_frames_update(scopes@, outer as int, taken);
                    }
                    let place = &mut scopes[outer];
                    core::mem::swap(place, &mut taken);
                    Some(taken)
                } else {
                    None
                }
            },
            None => None,
        }
    }

    /// Finds the scope that binds `name`, searching outward from `start`.
    pub fn find_holder(scopes: &Vec<Environment>, start: usize, name: &String) -> (r: Option<
        usize,
    >)
        ensures
            match r {
                Some(h) => holder(frames(scopes@), start as int, name@) == Some(h as int) && h
                    < scopes@.len() && scopes@[h as int].values@.contains_key(name@),
                None => holder(frames(scopes@), start as int, name@) is None,
            },
    {
        let mut current: usize = start;
        loop
            invariant
                holder(frames(scopes@), start as int, name@) == holder(
                    frames(scopes@),
                    current as int,
                    name@,
                ),
            decreases current,
        {
            if current >= scopes.len() {
                return None;
            }
            if scopes[current].values.contains_key(name) {
                return Some(current);
            }
            match scopes[current].enclosing {
                Some(outer) => {
                    if outer < current {
                        current = outer;
                    } else {
                        return None;
                    }
                },
                None => {
                    return None;
                },
            }
        }
    }

    /// Walks `distance` links outward from `start`.
    pub fn ancestor(scopes: &Vec<Environment>, start: usize, distance: usize) -> (r: Option<
        usize,
    >)
        ensures
            match r {
                Some(a) => ancestor_of(frames(scopes@), start as int, distance as nat) == Some(
                    a as int,
                ) && a < scopes@.len(),
                None => ancestor_of(frames(scopes@), start as int, distance as nat) is None,
            },
    {
        let mut current: usize = start;
        let mut left: usize = distance;
        loop
            invariant
                ancestor_of(frames(scopes@), start as int, distance as nat) == ancestor_of(
                    frames(scopes@),
                    current as int,
                    left as nat,
                ),
            decreases left,
        {
            if current >= scopes.len() {
                return None;
            }
            if left == 0 {
                return Some(current);
            }
            match scopes[current].enclosing {
                Some(outer) => {
                    current = outer;
                    left = left - 1;
                },
                None => {
                    return None;
                },
            }
        }
    }

    /// Finds the scope `distance` links outward of `start`, if it binds
    /// `name`.
    pub fn find_holder_at(scopes: &Vec<Environment>, start: usize, distance: usize, name: &String) -> (r:
        Option<usize>)
        ensures
            match r {
                Some(h) => holder_at(frames(scopes@), start as int, distance as nat, name@)
                    == Some(h as int) && h < scopes@.len() && scopes@[h as int].values@.contains_key(
                    name@,
                ),
                None => holder_at(frames(scopes@), start as int, distance as nat, name@) is None,
            },
    {
        match Environment::ancestor(scopes, start, distance) {
            Some(a) => {
                if scopes[a].values.contains_key(name) {
                    Some(a)
                } else {
                    None
                }
            },
            None => None,
        }
    }

    /// Reads `name` in the scope `at`.
    fn read_in(scopes: &Vec<Environment>, at: Option<usize>, name: &Token) -> (r: Result<
        Value,
        RuntimeBreak,
    >)
        requires
            at matches Some(h) ==> h < scopes@.len() && scopes@[h as int].values@.contains_key(
                name.lexeme@,
            ),
        ensures
            outcome(r) == reading(
                frames(scopes@),
                match at {
                    Some(h) => Some(h as int),
                    None => None,
                },
                *name,
            ),
    {
        match at {
            Some(h) => {
                match scopes[h].values.get(&name.lexeme) {
                    Some(value) => Ok(value.clone()),
                    None => Err(RuntimeBreak::undefined_variable(name)),
                }
            },
            None => Err(RuntimeBreak::undefined_variable(name)),
        }
    }

    /// Writes `name` in the scope `at`.
    fn write_in(scopes: &mut Vec<Environment>, at: Option<usize>, name: &Token, value: Value) -> (r:
        Result<(), RuntimeBreak>)
        requires
            at matches Some(h) ==> h < old(scopes)@.len(),
        ensures
            same_links(frames(old(scopes)@), frames(final(scopes)@)),
            (frames(final(scopes)@), ending(r)) == writing(
                frames(old(scopes)@),
                match at {
                    Some(h) => Some(h as int),
                    None => None,
                },
                *name,
                value@,
            ),
    {
        match at {
            Some(h) => {
                Environment::define_in(scopes, h, name.lexeme.as_str(), value);
                Ok(())
            },
            None => Err(RuntimeBreak::undefined_variable(name)),
        }
    }

    /// Reads `name` from the nearest scope that binds it.
    pub fn get(scopes: &Vec<Environment>, start: usize, name: &Token) -> (r: Result<
        Value,
        RuntimeBreak,
    >)
        ensures
            outcome(r) == reading(
                frames(scopes@),
                holder(frames(scopes@), start as int, name.lexeme@),
                *name,
            ),
    {
        let at = Environment::find_holder(scopes, start, &name.lexeme);
        Environment::read_in(scopes, at, name)
    }

    /// Writes `name` in the nearest scope that binds it. A name that no
    /// scope binds is an error, and nothing changes.
    pub fn assign(scopes: &mut Vec<Environment>, start: usize, name: &Token, v: Value) -> (r:
        Result<(), RuntimeBreak>)
        ensures
            same_links(frames(old(scopes)@), frames(final(scopes)@)),
            (frames(final(scopes)@), ending(r)) == writing(
                frames(old(scopes)@),
                holder(frames(old(scopes)@), start as int, name.lexeme@),
                *name,
                v@,
            ),
    {
        let at = Environment::find_holder(scopes, start, &name.lexeme);
        Environment::write_in(scopes, at, name, v)
    }

    /// Reads `name` from the scope `distance` links outward of `start`,
    /// and from no other.
    pub fn get_at(scopes: &Vec<Environment>, start: usize, distance: usize, name: &Token) -> (r:
        Result<Value, RuntimeBreak>)
        ensures
            outcome(r) == reading(
                frames(scopes@),
                holder_at(frames(scopes@), start as int, distance as nat, name.lexeme@),
                *name,
            ),
    {
        let at = Environment::find_holder_at(scopes, start, distance, &name.lexeme);
        Environment::read_in(scopes, at, name)
    }

    /// Writes `name` in the scope `distance` links outward of `start`, if
    /// that scope binds it.
    pub fn assign_at(
        scopes: &mut Vec<Environment>,
        start: usize,
        distance: usize,
        name: &Token,
        value: Value,
    ) -> (r: Result<(), RuntimeBreak>)
        ensures
            same_links(frames(old(scopes)@), frames(final(scopes)@)),
            (frames(final(scopes)@), ending(r)) == writing(
                frames(old(scopes)@),
                holder_at(frames(old(scopes)@), start as int, distance as nat, name.lexeme@),
                *name,
                value@,
            ),
    {
        let at = Environment::find_holder_at(scopes, start, distance, &name.lexeme);
        Environment::write_in(scopes, at, name, value)
    }
}

} // verus!
