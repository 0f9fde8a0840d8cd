//! Placeholder substitution: `{name}` in a text is replaced by the value
//! bound to `name`.
use vstd::prelude::*;
use crate::environment::Environment;
use crate::text::{chars_at, chars_of, has_infix, infix_at};

verus! {

/// The placeholder written for the variable `key`: `{key}`.
pub open spec fn placeholder(key: Seq<char>) -> Seq<char> {
    seq!['{'] + key + seq!['}']
}

/// Whether `text` begins with the placeholder of `key`.
pub open spec fn starts_with_placeholder(text: Seq<char>, key: Seq<char>) -> bool {
    &&& key.len() + 2 <= text.len()
    &&& text[0] == '{'
    &&& text.subrange(1, key.len() as int + 1) == key
    &&& text[key.len() as int + 1] == '}'
}

/// `key` is bound in `env`, `text` begins with its placeholder, and no
/// longer bound name's placeholder also begins `text`. At most one name
/// is such, so the choice is independent of the order of the bindings.
pub open spec fn longest_placeholder(
    text: Seq<char>,
    env: Map<Seq<char>, Seq<char>>,
    key: Seq<char>,
) -> bool {
    &&& env.contains_key(key)
    &&& starts_with_placeholder(text, key)
    &&& forall|k: Seq<char>|
        env.contains_key(k) && #[trigger] starts_with_placeholder(text, k) ==> k.len() <= key.len()
}

/// `text` with its placeholders replaced, scanning left to right in a
/// single pass: where placeholders of bound names begin, the longest one
/// is replaced by its value and scanning resumes after it; substituted
/// values are never scanned again. Placeholders of unbound names stay.
pub open spec fn expand(text: Seq<char>, env: Map<Seq<char>, Seq<char>>) -> Seq<char>
    decreases text.len(),
{
    if text.len() == 0 {
        seq![]
    } else if exists|k: Seq<char>| longest_placeholder(text, env, k) {
        let k = choose|k: Seq<char>| longest_placeholder(text, env, k);
        env[k] + expand(text.skip(k.len() as int + 2), env)
    } else {
        seq![text[0]] + expand(text.drop_first(), env)
    }
}

/// Whether the placeholder of `key` stands in `t` at position `i`.
pub open spec fn placeholder_at(t: Seq<char>, i: int, key: Seq<char>) -> bool {
    &&& 0 <= i
    &&& i + key.len() + 2 <= t.len()
    &&& t[i] == '{'
    &&& infix_at(t, i + 1, key)
    &&& t[i + key.len() + 1] == '}'
}

proof fn lemma_placeholder_at(t: Seq<char>, i: int, key: Seq<char>)
    requires
        0 <= i <= t.len(),
    ensures
        starts_with_placeholder(t.skip(i), key) == placeholder_at(t, i, key),
{
    if i + key.len() + 2 <= t.len() {
        assert(t.skip(i).subrange(1, key.len() as int + 1) =~= t.subrange(i + 1, i + 1 + key.len()));
    }
}

/// Two bound names that are both longest at the start of `text` are one.
proof fn lemma_longest_unique(
    text: Seq<char>,
    env: Map<Seq<char>, Seq<char>>,
    a: Seq<char>,
    b: Seq<char>,
)
    requires
        longest_placeholder(text, env, a),
        longest_placeholder(text, env, b),
    ensures
        a == b,
{
    assert(a.len() == b.len());
    assert(a =~= b);
}

/// Among the bound names whose placeholder stands in `t` at `i`, the
/// position in `keys` of the longest one.
fn longest_at(t: &Vec<char>, i: usize, keys: &Vec<Vec<char>>, variables: &Environment) -> (r:
    Option<usize>)
    requires
        i < t.len(),
        keys.len() == variables.order().len(),
        forall|m: int| 0 <= m < keys.len() ==> (#[trigger] keys@[m])@ == variables.order()[m],
    ensures
        match r {
            Some(j) => j < keys.len() && longest_placeholder(
                t@.skip(i as int),
                variables@,
                variables.order()[j as int],
            ),
            None => forall|k: Seq<char>|
                variables@.contains_key(k) ==> !#[trigger] starts_with_placeholder(
                    t@.skip(i as int),
                    k,
                ),
        },
{
    let n = variables.len();
    let mut best: Option<usize> = None;
    let mut best_len: usize = 0;
    let mut j: usize = 0;
    while j < n
        invariant
            i < t.len(),
            n == keys.len(),
            keys.len() == variables.order().len(),
            forall|m: int| 0 <= m < keys.len() ==> (#[trigger] keys@[m])@ == variables.order()[m],
            j <= n,
            match best {
                Some(b) => b < j && keys@[b as int].len() == best_len && placeholder_at(
                    t@,
                    i as int,
                    keys@[b as int]@,
                ),
                None => true,
            },
            forall|m: int|
                0 <= m < j && placeholder_at(t@, i as int, #[trigger] keys@[m]@) ==> (best is Some
                    && keys@[m].len() <= best_len),
        decreases n - j,
    {
        let k = &keys[j];
        let fits = t[i] == '{' && k.len() < t.len() - i - 1 && chars_at(t, i + 1, k) && t[i + 1
            + k.len()] == '}';
        assert(fits == placeholder_at(t@, i as int, k@));
        if fits && (best.is_none() || k.len() > best_len) {
            best = Some(j);
            best_len = k.len();
        }
        j = j + 1;
    }
    proof {
        assert forall|k: Seq<char>| variables@.contains_key(k) && #[trigger] starts_with_placeholder(
            t@.skip(i as int),
            k,
        ) implies best is Some && k.len() <= best_len by {
            lemma_placeholder_at(t@, i as int, k);
            assert(variables.order().contains(k));
            let m = choose|m: int| 0 <= m < variables.order().len() && variables.order()[m] == k;
            assert(keys@[m]@ == k);
        }
        match best {
            Some(b) => {
                lemma_placeholder_at(t@, i as int, keys@[b as int]@);
                assert(variables@.contains_key(variables.order()[b as int])) by {
                    assert(variables.order().contains(variables.order()[b as int]));
                }
            },
            None => {},
        }
    }
    best
}

/// Replaces the placeholder of every bound variable in `text` by its value.
pub fn expand_variables(text: &str, variables: &Environment) -> (r: String)
    ensures
        r@ == expand(text@, variables@),
{
    let t = chars_of(text);
    let n = variables.len();
    let mut keys: Vec<Vec<char>> = Vec::new();
    let mut j: usize = 0;
    while j < n
        invariant
            n == variables.order().len(),
            j <= n,
            keys.len() == j,
            forall|m: int| 0 <= m < j ==> (#[trigger] keys@[m])@ == variables.order()[m],
        decreases n - j,
    {
        keys.push(chars_of(variables.name_at(j).as_str()));
        j = j + 1;
    }
    let mut r = String::new();
    let mut i: usize = 0;
    assert(t@.skip(0) =~= t@);
    while i < t.len()
        invariant
            t@ == text@,
            i <= t.len(),
            keys.len() == variables.order().len(),
            forall|m: int| 0 <= m < keys.len() ==> (#[trigger] keys@[m])@ == variables.order()[m],
            r@ + expand(t@.skip(i as int), variables@) == expand(text@, variables@),
        decreases t.len() - i,
    {
        let ghost rest = t@.skip(i as int);
        match longest_at(&t, i, &keys, variables) {
            Some(j) => {
                let ghost key = variables.order()[j as int];
                proof {
                    let k = choose|k: Seq<char>| longest_placeholder(rest, variables@, k);
                    lemma_longest_unique(rest, variables@, k, key);
                    assert(rest.skip(key.len() as int + 2) =~= t@.skip(i + key.len() + 2));
                }
                let value = variables.value_at(j);
                r.append(value.as_str());
                i = i + keys[j].len() + 2;
            },
            None => {
                proof {
                    assert(rest.drop_first() =~= t@.skip(i + 1));
                }
                r.push(t[i]);
                i = i + 1;
            },
        }
    }
    r
}

/// Substituting with no bindings leaves a text unchanged.
pub proof fn lemma_expand_nothing_bound(text: Seq<char>)
    ensures
        expand(text, Map::empty()) == text,
    decreases text.len(),
{
    if text.len() > 0 {
        lemma_expand_nothing_bound(text.drop_first());
        assert(seq![text[0]] + text.drop_first() =~= text);
    }
}

/// Substituting leaves unchanged a text in which no bound variable's
/// placeholder occurs.
pub proof fn lemma_expand_without_placeholders(text: Seq<char>, env: Map<Seq<char>, Seq<char>>)
    requires
        forall|k: Seq<char>| env.contains_key(k) ==> !has_infix(text, #[trigger] placeholder(k)),
    ensures
        expand(text, env) == text,
    decreases text.len(),
{
    if text.len() > 0 {
        assert forall|k: Seq<char>| env.contains_key(k) implies !#[trigger] starts_with_placeholder(
            text,
            k,
        ) by {
            if starts_with_placeholder(text, k) {
                let p = placeholder(k);
                assert(text.subrange(0, 0 + p.len() as int) =~= p);
                assert(has_infix(text, p));
            }
        }
        let rest = text.drop_first();
        assert forall|k: Seq<char>| env.contains_key(k) implies !has_infix(
            rest,
            #[trigger] placeholder(k),
        ) by {
            let p = placeholder(k);
            if has_infix(rest, p) {
                let i = choose|i: int|
                    0 <= i && i + p.len() <= rest.len() && #[trigger] rest.subrange(i, i + p.len())
                        == p;
                assert(text.subrange(i + 1, i + 1 + p.len()) =~= rest.subrange(i, i + p.len()));
            }
        }
        lemma_expand_without_placeholders(rest, env);
        assert(seq![text[0]] + rest =~= text);
    }
}

} // verus!
