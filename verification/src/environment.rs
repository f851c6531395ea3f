//! Environments: chains of scopes that bind names to values.

use vstd::prelude::*;
use vstd::string::*;
use vstd::hash_map::StringHashMap;
use crate::error::{ErrorKind, LoxError, SpecErrorKind, SpecLoxError};
use crate::token::{SpecToken, Token};
use crate::token_type::{Literal, SpecLiteral};

verus! {

/// The bindings of one scope.
pub type Bindings = Map<Seq<char>, SpecLiteral>;

/// The mathematical model of an environment: its scopes, innermost first.
pub type Scopes = Seq<Bindings>;

/// The value that `name` is bound to in the nearest scope that binds it.
pub open spec fn lookup(scopes: Scopes, name: Seq<char>) -> Option<SpecLiteral>
    decreases scopes.len(),
{
    if scopes.len() == 0 {
        None
    } else if scopes[0].contains_key(name) {
        Some(scopes[0][name])
    } else {
        lookup(scopes.drop_first(), name)
    }
}

/// The scopes after `name` is bound to `value` in the innermost scope,
/// whether or not it was bound there before.
pub open spec fn define(scopes: Scopes, name: Seq<char>, value: SpecLiteral) -> Scopes {
    seq![scopes[0].insert(name, value)] + scopes.drop_first()
}

/// The scopes after `value` replaces the value of `name` in the nearest
/// scope that binds it; `None` when no scope does.
pub open spec fn assign(scopes: Scopes, name: Seq<char>, value: SpecLiteral) -> Option<Scopes>
    decreases scopes.len(),
{
    if scopes.len() == 0 {
        None
    } else if scopes[0].contains_key(name) {
        Some(seq![scopes[0].insert(name, value)] + scopes.drop_first())
    } else {
        match assign(scopes.drop_first(), name, value) {
            Some(outer) => Some(seq![scopes[0]] + outer),
            None => None,
        }
    }
}

/// The diagnostic for a use of a name that no scope binds.
pub open spec fn undefined_variable(name: SpecToken) -> SpecLoxError {
    SpecLoxError {
        kind: SpecErrorKind::UndefinedVariable(name.lexeme),
        line: name.line,
        at: Some(name.lexeme),
        message: "Undefined variable '"@ + name.lexeme + "'."@,
    }
}

/// The models of the values of one scope.
pub open spec fn bindings_of(values: Map<Seq<char>, Literal>) -> Bindings {
    values.map_values(|value: Literal| value@)
}

/// One scope of bindings and, optionally, the scope that encloses it.
pub struct Environment {
    enclosing: Option<Box<Environment>>,
    values: StringHashMap<Literal>,
}

/// The scopes of an environment, innermost first.
pub closed spec fn scopes_of(environment: Environment) -> Scopes
    decreases environment,
{
    seq![bindings_of(environment.values@)] + match environment.enclosing {
        Some(outer) => scopes_of(*outer),
        None => Seq::empty(),
    }
}

impl View for Environment {
    type V = Scopes;

    open spec fn view(&self) -> Scopes {
        scopes_of(*self)
    }
}

fn undefined(name: &Token) -> (error: LoxError)
    ensures
        error@ == undefined_variable(name@),
{
    let mut message = String::from_str("Undefined variable '");
    message.append(name.lexeme.as_str());
    message.append("'.");
    LoxError::with_kind(
        ErrorKind::UndefinedVariable(name.lexeme.clone()),
        name.line,
        Some(name.lexeme.clone()),
        message.as_str(),
    )
}

impl Environment {
    /// An environment with one empty scope inside `enclosing`.
    pub fn new(enclosing: Option<Environment>) -> (environment: Self)
        ensures
            environment@ == seq![Map::<Seq<char>, SpecLiteral>::empty()] + match enclosing {
                Some(outer) => outer@,
                None => Seq::empty(),
            },
    {
        let values: StringHashMap<Literal> = StringHashMap::new();
        assert(bindings_of(values@) == Map::<Seq<char>, SpecLiteral>::empty());
        Environment {
            enclosing: match enclosing {
                Some(outer) => Some(Box::new(outer)),
                None => None,
            },
            values,
        }
    }

    /// The value of `name`, from the nearest scope that binds it.
    pub fn get(&self, name: &Token) -> (result: Result<Literal, LoxError>)
        ensures
            match lookup(self@, name@.lexeme) {
                Some(value) => result matches Ok(found) && found@ == value,
                None => result matches Err(error) && error@ == undefined_variable(name@),
            },
        decreases self,
    {
        proof {
            assert(self@.drop_first() == match self.enclosing {
                Some(outer) => outer@,
                None => Seq::empty(),
            });
        }
        proof {
            assert(self@[0] == bindings_of(self.values@));
            assert(self@[0].dom() == self.values@.dom());
        }
        match self.values.get(name.lexeme.as_str()) {
            Some(value) => {
                return Ok(value.clone());
            },
            None => {},
        }
        match &self.enclosing {
            Some(outer) => {
                let result = outer.get(name);
                assert(self@.drop_first() == outer@);
                assert(lookup(self@, name@.lexeme) == lookup(outer@, name@.lexeme));
                result
            },
            None => {
                assert(self@.drop_first().len() == 0);
                assert(lookup(self@, name@.lexeme) == lookup(self@.drop_first(), name@.lexeme));
                assert(lookup(self@, name@.lexeme) is None);
                Err(undefined(name))
            },
        }
    }

    /// Binds `name` to `value` in the innermost scope.
    pub fn define(&mut self, name: String, value: Literal)
        ensures
            final(self)@ == define(old(self)@, name@, value@),
    {
        proof {
            assert(self@.drop_first() == match self.enclosing {
                Some(outer) => outer@,
                None => Seq::empty(),
            });
        }
        let ghost before = self.values@;
        self.values.insert(name, value);
        proof {
            assert(bindings_of(before.insert(name@, value)) == bindings_of(before).insert(
                name@,
                value@,
            ));
        }
    }

    /// Replaces the value of `name` in the nearest scope that binds it.
    /// Binds nothing when no scope does.
    pub fn assign(&mut self, name: &Token, value: Literal) -> (result: Result<(), LoxError>)
        ensures
            match assign(old(self)@, name@.lexeme, value@) {
                Some(scopes) => result is Ok && final(self)@ == scopes,
                None => {
                    &&& final(self)@ == old(self)@
                    &&& result matches Err(error)
                    &&& error@ == undefined_variable(name@)
                },
            },
        decreases old(self)@.len(),
    {
        proof {
            assert(self@.drop_first() == match self.enclosing {
                Some(outer) => outer@,
                None => Seq::empty(),
            });
        }
        let ghost before = self.values@;
        if self.values.contains_key(name.lexeme.as_str()) {
            self.values.insert(name.lexeme.clone(), value);
            proof {
                assert(bindings_of(before.insert(name@.lexeme, value)) == bindings_of(
                    before,
                ).insert(name@.lexeme, value@));
            }
            return Ok(());
        }
        let ghost inner = bindings_of(self.values@);
        proof {
            assert(self@[0] == inner);
            assert(inner.dom() == self.values@.dom());
        }
        match &mut self.enclosing {
            Some(outer) => {
                let ghost outer_before = outer@;
                let result = outer.assign(name, value);
                proof {
                    assert(old(self)@ == seq![inner] + outer_before);
                    assert(old(self)@.drop_first() == outer_before);
                    assert(self@ == seq![inner] + outer@);
                }
                result
            },
            None => {
                proof {
                    assert(old(self)@.drop_first().len() == 0);
                    assert(assign(old(self)@.drop_first(), name@.lexeme, value@) is None);
                }
                Err(undefined(name))
            },
        }
    }
}

/// A name has the value it was last defined with.
pub proof fn lemma_define_then_lookup(scopes: Scopes, name: Seq<char>, value: SpecLiteral)
    requires
        scopes.len() > 0,
    ensures
        lookup(define(scopes, name, value), name) == Some(value),
{
}

/// Defining a name leaves every other name as it was.
pub proof fn lemma_define_keeps_others(
    scopes: Scopes,
    name: Seq<char>,
    value: SpecLiteral,
    other: Seq<char>,
)
    requires
        scopes.len() > 0,
        other != name,
    ensures
        lookup(define(scopes, name, value), other) == lookup(scopes, other),
{
    assert(define(scopes, name, value).drop_first() == scopes.drop_first());
}

/// Assignment succeeds exactly on the names that are bound, gives the name
/// its new value, and leaves every other name as it was: it binds no new
/// name.
pub proof fn lemma_assign_then_lookup(
    scopes: Scopes,
    name: Seq<char>,
    value: SpecLiteral,
    other: Seq<char>,
)
    ensures
        assign(scopes, name, value) is Some <==> lookup(scopes, name) is Some,
        assign(scopes, name, value) matches Some(after) ==> {
            &&& after.len() == scopes.len()
            &&& lookup(after, name) == Some(value)
            &&& other != name ==> lookup(after, other) == lookup(scopes, other)
        },
    decreases scopes.len(),
{
    if scopes.len() > 0 {
        if scopes[0].contains_key(name) {
            let after = seq![scopes[0].insert(name, value)] + scopes.drop_first();
            assert(after.drop_first() == scopes.drop_first());
        } else {
            lemma_assign_then_lookup(scopes.drop_first(), name, value, other);
            if let Some(outer) = assign(scopes.drop_first(), name, value) {
                let after = seq![scopes[0]] + outer;
                assert(after.drop_first() == outer);
            }
        }
    }
}

} // verus!
