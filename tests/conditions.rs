use newnew::environment::{evaluate_condition, Environment};

fn env_of(pairs: &[(&str, &str)]) -> Environment {
    let mut env = Environment::new();
    for (k, v) in pairs {
        env.insert(k.to_string(), v.to_string());
    }
    env
}

#[test]
fn condition_true_only_for_true_text() {
    let env = env_of(&[("a", "true"), ("b", "false"), ("c", "TRUE")]);
    assert!(evaluate_condition("a", &env));
    assert!(!evaluate_condition("b", &env));
    assert!(!evaluate_condition("c", &env));
}

#[test]
fn negation_flips_a_bound_condition() {
    let env = env_of(&[("a", "true"), ("b", "no")]);
    assert_eq!(evaluate_condition("!a", &env), !evaluate_condition("a", &env));
    assert_eq!(evaluate_condition("!b", &env), !evaluate_condition("b", &env));
}

#[test]
fn unbound_condition_fails_and_its_negation_passes() {
    let env = env_of(&[("a", "true")]);
    assert!(!evaluate_condition("missing", &env));
    assert!(evaluate_condition("!missing", &env));
}

#[test]
fn environment_insert_replaces_value() {
    let mut env = Environment::new();
    env.insert("x".to_string(), "1".to_string());
    env.insert("x".to_string(), "2".to_string());
    assert_eq!(env.len(), 1);
    assert_eq!(env.get(&"x".to_string()).map(|s| s.as_str()), Some("2"));
    assert_eq!(env.get(&"y".to_string()), None);
}
