use newnew::environment::Environment;
use newnew::substitution::expand_variables;

fn env_of(pairs: &[(&str, &str)]) -> Environment {
    let mut env = Environment::new();
    for (k, v) in pairs {
        env.insert(k.to_string(), v.to_string());
    }
    env
}

#[test]
fn empty_environment_changes_nothing() {
    let env = Environment::new();
    let text = "Hello {name}, {unknown} {} {";
    assert_eq!(expand_variables(text, &env), text);
}

#[test]
fn text_without_placeholders_is_unchanged() {
    let env = env_of(&[("name", "demo"), ("kind", "lib")]);
    let text = "name kind {nam} {kind {other}";
    assert_eq!(expand_variables(text, &env), text);
}

#[test]
fn placeholders_are_replaced_everywhere() {
    let env = env_of(&[("project_name", "demo"), ("kind", "lib")]);
    assert_eq!(
        expand_variables("{project_name}/{kind}-{project_name}.txt", &env),
        "demo/lib-demo.txt"
    );
}

#[test]
fn unknown_placeholders_stay() {
    let env = env_of(&[("a", "1")]);
    assert_eq!(expand_variables("{a}{b}", &env), "1{b}");
}

#[test]
fn substituted_values_are_not_rescanned() {
    let env = env_of(&[("a", "{b}"), ("b", "x")]);
    assert_eq!(expand_variables("{a}", &env), "{b}");
    let env = env_of(&[("b", "x"), ("a", "{b}")]);
    assert_eq!(expand_variables("{a}{b}", &env), "{b}x");
}

#[test]
fn longest_bound_placeholder_wins() {
    let env = env_of(&[("a", "short"), ("a}b", "long")]);
    assert_eq!(expand_variables("{a}b}", &env), "long");
    assert_eq!(expand_variables("{a}c", &env), "shortc");
}

#[test]
fn substitution_keeps_non_ascii_text() {
    let env = env_of(&[("emoji", "🦀")]);
    assert_eq!(expand_variables("ä {emoji} ö", &env), "ä 🦀 ö");
}
