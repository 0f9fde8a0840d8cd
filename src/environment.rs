//! The variable environment: names bound to text values, and the
//! conditions evaluated against it.
use vstd::prelude::*;
use crate::text::{chars_of, same_text, text_of};

verus! {

/// The map formed by binding `keys[i]` to `vals[i]`, later bindings
/// replacing earlier ones.
pub open spec fn assoc<V>(keys: Seq<Seq<char>>, vals: Seq<V>) -> Map<Seq<char>, V>
    decreases keys.len(),
{
    if keys.len() == 0 || vals.len() == 0 {
        Map::empty()
    } else {
        assoc(keys.drop_last(), vals.drop_last()).insert(keys.last(), vals.last())
    }
}

/// The texts held by a sequence of strings.
pub open spec fn texts(v: Seq<String>) -> Seq<Seq<char>> {
    v.map_values(|s: String| s@)
}

/// A name is bound exactly when it is among the keys.
pub proof fn lemma_assoc_domain<V>(keys: Seq<Seq<char>>, vals: Seq<V>, k: Seq<char>)
    requires
        keys.len() == vals.len(),
    ensures
        assoc(keys, vals).contains_key(k) <==> keys.contains(k),
    decreases keys.len(),
{
    if keys.len() > 0 {
        lemma_assoc_domain(keys.drop_last(), vals.drop_last(), k);
        if keys.contains(k) && k != keys.last() {
            let i = choose|i: int| 0 <= i < keys.len() && keys[i] == k;
            assert(keys.drop_last()[i] == k);
        }
        if keys.drop_last().contains(k) {
            let i = choose|i: int| 0 <= i < keys.len() - 1 && keys.drop_last()[i] == k;
            assert(keys[i] == k);
        }
        if k == keys.last() {
            assert(keys[keys.len() - 1] == k);
        }
    }
}

/// With distinct keys, each key is bound to the value beside it.
pub proof fn lemma_assoc_index<V>(keys: Seq<Seq<char>>, vals: Seq<V>, i: int)
    requires
        keys.len() == vals.len(),
        keys.no_duplicates(),
        0 <= i < keys.len(),
    ensures
        assoc(keys, vals).contains_key(keys[i]),
        assoc(keys, vals)[keys[i]] == vals[i],
    decreases keys.len(),
{
    if i < keys.len() - 1 {
        lemma_assoc_index(keys.drop_last(), vals.drop_last(), i);
        assert(keys.drop_last()[i] == keys[i]);
    }
}

/// With distinct keys, replacing a value rebinds its key.
pub proof fn lemma_assoc_update<V>(keys: Seq<Seq<char>>, vals: Seq<V>, i: int, v: V)
    requires
        keys.len() == vals.len(),
        keys.no_duplicates(),
        0 <= i < keys.len(),
    ensures
        assoc(keys, vals.update(i, v)) == assoc(keys, vals).insert(keys[i], v),
    decreases keys.len(),
{
    let m = assoc(keys, vals);
    let n = assoc(keys, vals.update(i, v));
    if i == keys.len() - 1 {
        assert(vals.update(i, v).drop_last() =~= vals.drop_last());
        assert(n =~= m.insert(keys[i], v));
    } else {
        assert(vals.update(i, v).drop_last() =~= vals.drop_last().update(i, v));
        lemma_assoc_update(keys.drop_last(), vals.drop_last(), i, v);
        assert(keys.drop_last()[i] == keys[i]);
        assert(keys[i] != keys.last());
        assert(n =~= m.insert(keys[i], v));
    }
}

/// Appending a binding inserts it.
pub proof fn lemma_assoc_push<V>(keys: Seq<Seq<char>>, vals: Seq<V>, k: Seq<char>, v: V)
    requires
        keys.len() == vals.len(),
    ensures
        assoc(keys.push(k), vals.push(v)) == assoc(keys, vals).insert(k, v),
{
    assert(keys.push(k).drop_last() =~= keys);
    assert(vals.push(v).drop_last() =~= vals);
}

/// A set of variable bindings, each name bound at most once.
#[derive(Debug)]
pub struct Environment {
    names: Vec<String>,
    values: Vec<String>,
}

impl View for Environment {
    type V = Map<Seq<char>, Seq<char>>;

    closed spec fn view(&self) -> Map<Seq<char>, Seq<char>> {
        assoc(texts(self.names@), texts(self.values@))
    }
}

impl Environment {
    #[verifier::type_invariant]
    spec fn well_formed(&self) -> bool {
        &&& self.names.len() == self.values.len()
        &&& texts(self.names@).no_duplicates()
    }

    /// The names bound so far, in the order they were first bound.
    pub closed spec fn order(&self) -> Seq<Seq<char>> {
        texts(self.names@)
    }

    /// An environment with no bindings.
    pub fn new() -> (r: Environment)
        ensures
            r@ == Map::<Seq<char>, Seq<char>>::empty(),
            r.order().len() == 0,
    {
        let r = Environment { names: Vec::new(), values: Vec::new() };
        assert(r@ =~= Map::<Seq<char>, Seq<char>>::empty());
        r
    }

    /// The number of bindings.
    pub fn len(&self) -> (r: usize)
        ensures
            r == self.order().len(),
            r == self@.dom().len(),
            self.order().no_duplicates(),
            forall|k: Seq<char>| self@.contains_key(k) <==> self.order().contains(k),
    {
        proof {
            use_type_invariant(self);
            self.lemma_domain_is_order();
        }
        self.names.len()
    }

    proof fn lemma_domain_is_order(&self)
        requires
            self.names.len() == self.values.len(),
            texts(self.names@).no_duplicates(),
        ensures
            self@.dom() == self.order().to_set(),
            self@.dom().len() == self.order().len(),
            self@.dom().finite(),
            forall|k: Seq<char>| self@.contains_key(k) <==> self.order().contains(k),
    {
        let keys = texts(self.names@);
        assert forall|k: Seq<char>| self@.dom().contains(k) <==> keys.to_set().contains(k) by {
            lemma_assoc_domain(keys, texts(self.values@), k);
        }
        assert(self@.dom() =~= keys.to_set());
        keys.unique_seq_to_set();
    }

    /// The position at which `name` is bound, if it is.
    fn position(&self, name: &String) -> (r: Option<usize>)
        ensures
            match r {
                Some(i) => i < self.names.len() && self.names@[i as int]@ == name@,
                None => !texts(self.names@).contains(name@),
            },
    {
        let mut i: usize = 0;
        while i < self.names.len()
            invariant
                i <= self.names.len(),
                forall|j: int| 0 <= j < i ==> self.names@[j]@ != name@,
            decreases self.names.len() - i,
        {
            if self.names[i] == *name {
                return Some(i);
            }
            i = i + 1;
        }
        proof {
            if texts(self.names@).contains(name@) {
                let j = choose|j: int|
                    0 <= j < texts(self.names@).len() && texts(self.names@)[j] == name@;
                assert(self.names@[j]@ == name@);
            }
        }
        None
    }

    /// Binds `name` to `value`, replacing any earlier value of `name`.
    pub fn insert(&mut self, name: String, value: String)
        ensures
            final(self)@ == old(self)@.insert(name@, value@),
            old(self)@.contains_key(name@) ==> final(self).order() == old(self).order(),
            !old(self)@.contains_key(name@) ==> final(self).order() == old(self).order().push(
                name@,
            ),
    {
        proof {
            use_type_invariant(&*self);
            lemma_assoc_domain(texts(self.names@), texts(self.values@), name@);
        }
        let ghost keys = texts(self.names@);
        let ghost vals = texts(self.values@);
        let found = self.position(&name);
        let mut taken = Environment::new();
        std::mem::swap(self, &mut taken);
        let Environment { mut names, mut values } = taken;
        match found {
            Some(i) => {
                proof {
                    lemma_assoc_update(keys, vals, i as int, value@);
                }
                values.set(i, value);
                proof {
                    assert(texts(values@) =~= vals.update(i as int, value@));
                    assert(keys[i as int] == name@);
                }
            },
            None => {
                proof {
                    lemma_assoc_push(keys, vals, name@, value@);
                }
                names.push(name);
                values.push(value);
                proof {
                    assert(texts(names@) =~= keys.push(name@));
                    assert(texts(values@) =~= vals.push(value@));
                    assert(keys.push(name@).no_duplicates());
                }
            },
        }
        *self = Environment { names, values };
    }

    /// The value bound to `name`, if any.
    pub fn get(&self, name: &String) -> (r: Option<&String>)
        ensures
            match r {
                Some(v) => self@.contains_key(name@) && v@ == self@[name@],
                None => !self@.contains_key(name@),
            },
    {
        proof {
            use_type_invariant(self);
            lemma_assoc_domain(texts(self.names@), texts(self.values@), name@);
        }
        match self.position(name) {
            Some(i) => {
                proof {
                    lemma_assoc_index(texts(self.names@), texts(self.values@), i as int);
                }
                Some(&self.values[i])
            },
            None => None,
        }
    }

    /// The `i`-th name in binding order.
    pub fn name_at(&self, i: usize) -> (r: &String)
        requires
            i < self.order().len(),
        ensures
            r@ == self.order()[i as int],
    {
        &self.names[i]
    }

    /// The value of the `i`-th name in binding order.
    pub fn value_at(&self, i: usize) -> (r: &String)
        requires
            i < self.order().len(),
        ensures
            self@.contains_key(self.order()[i as int]),
            r@ == self@[self.order()[i as int]],
    {
        proof {
            use_type_invariant(self);
            lemma_assoc_index(texts(self.names@), texts(self.values@), i as int);
        }
        &self.values[i]
    }
}

/// Whether `condition` holds in `env`. A condition names a variable and
/// holds when that variable is bound to `true`; a leading `!` negates it,
/// so that `!name` holds when `name` is unbound or bound to anything else.
pub open spec fn condition_holds(condition: Seq<char>, env: Map<Seq<char>, Seq<char>>) -> bool {
    if condition.len() > 0 && condition[0] == '!' {
        let name = condition.drop_first();
        !(env.contains_key(name) && env[name] == "true"@)
    } else {
        env.contains_key(condition) && env[condition] == "true"@
    }
}

/// Whether the variable named `name` is bound to `true`.
fn is_set(name: &String, variables: &Environment) -> (r: bool)
    ensures
        r == (variables@.contains_key(name@) && variables@[name@] == "true"@),
{
    match variables.get(name) {
        Some(v) => same_text(v, "true"),
        None => false,
    }
}

/// Evaluates a condition against the environment.
pub fn evaluate_condition(condition: &str, variables: &Environment) -> (r: bool)
    ensures
        r == condition_holds(condition@, variables@),
{
    let c = chars_of(condition);
    if c.len() > 0 && c[0] == '!' {
        let name = text_of(&c, 1, c.len());
        assert(name@ == condition@.drop_first());
        !is_set(&name, variables)
    } else {
        let name = text_of(&c, 0, c.len());
        assert(name@ =~= condition@);
        is_set(&name, variables)
    }
}

/// A condition and its negation disagree on every environment, provided
/// the condition is not itself negated; an unbound name fails as a
/// condition and passes once negated.
pub proof fn lemma_negation(condition: Seq<char>, env: Map<Seq<char>, Seq<char>>)
    requires
        condition.len() == 0 || condition[0] != '!',
    ensures
        env.contains_key(condition) ==> condition_holds(seq!['!'] + condition, env)
            == !condition_holds(condition, env),
        !env.contains_key(condition) ==> !condition_holds(condition, env) && condition_holds(
            seq!['!'] + condition,
            env,
        ),
{
    let negated = seq!['!'] + condition;
    assert(negated[0] == '!');
    assert(negated.drop_first() =~= condition);
}

} // verus!
