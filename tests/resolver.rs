use newnew::environment::Environment;
use newnew::resolver::{initial_environment, Prompt, Reply, ReplyError, Resolver};
use newnew::template::TemplateVariable;

fn variable(name: &str, kind: Option<&str>) -> TemplateVariable {
    TemplateVariable {
        name: name.to_string(),
        prompt: format!("{}?", name),
        type_: kind.map(|k| k.to_string()),
        default: None,
        if_condition: None,
        if_not: None,
        options: None,
    }
}

fn value(env: &Environment, name: &str) -> Option<String> {
    env.get(&name.to_string()).cloned()
}

#[test]
fn skipped_variable_is_never_asked_nor_bound() {
    let a = variable("A", None);
    let mut b = variable("B", None);
    b.if_condition = Some("A".to_string());
    let mut r = Resolver::new(vec![a, b], initial_environment("demo"));
    match r.next_prompt() {
        Some(Prompt::Text { prompt }) => assert_eq!(prompt, "A?"),
        _ => panic!("expected a text prompt for A"),
    }
    assert_eq!(r.answer(Reply::Text("false".to_string())), Ok(()));
    assert!(r.next_prompt().is_none());
    let env = r.finish();
    assert_eq!(value(&env, "A"), Some("false".to_string()));
    assert_eq!(value(&env, "B"), None);
    assert_eq!(value(&env, "project_name"), Some("demo".to_string()));
}

#[test]
fn enabled_conditional_variable_is_asked() {
    let a = variable("A", Some("boolean"));
    let mut b = variable("B", None);
    b.if_condition = Some("A".to_string());
    let mut c = variable("C", None);
    c.if_not = Some("A".to_string());
    let mut r = Resolver::new(vec![a, b, c], Environment::new());
    assert!(matches!(r.next_prompt(), Some(Prompt::Confirm { default: false, .. })));
    assert_eq!(r.answer(Reply::Confirm(true)), Ok(()));
    match r.next_prompt() {
        Some(Prompt::Text { prompt }) => assert_eq!(prompt, "B?"),
        _ => panic!("expected B"),
    }
    assert_eq!(r.answer(Reply::Text("x".to_string())), Ok(()));
    assert!(r.next_prompt().is_none());
    let env = r.finish();
    assert_eq!(value(&env, "A"), Some("true".to_string()));
    assert_eq!(value(&env, "B"), Some("x".to_string()));
    assert_eq!(value(&env, "C"), None);
}

#[test]
fn text_default_is_shown_and_used_for_empty_answer() {
    let mut v = variable("author", Some("string"));
    v.default = Some("me".to_string());
    let mut r = Resolver::new(vec![v], Environment::new());
    match r.next_prompt() {
        Some(Prompt::Text { prompt }) => assert_eq!(prompt, "author? (default: me)"),
        _ => panic!("expected a text prompt"),
    }
    assert_eq!(r.answer(Reply::Text(String::new())), Ok(()));
    assert_eq!(value(&r.finish(), "author"), Some("me".to_string()));
}

#[test]
fn text_without_default_gives_empty_value() {
    let v = variable("note", None);
    let mut r = Resolver::new(vec![v], Environment::new());
    assert!(r.next_prompt().is_some());
    assert_eq!(r.answer(Reply::Text(String::new())), Ok(()));
    assert_eq!(value(&r.finish(), "note"), Some(String::new()));
}

#[test]
fn boolean_default_comes_from_definition() {
    let mut v = variable("git", Some("boolean"));
    v.default = Some("true".to_string());
    let mut r = Resolver::new(vec![v], Environment::new());
    assert!(matches!(r.next_prompt(), Some(Prompt::Confirm { default: true, .. })));
    assert_eq!(r.answer(Reply::Confirm(false)), Ok(()));
    assert_eq!(value(&r.finish(), "git"), Some("false".to_string()));
}

#[test]
fn select_and_multiselect_values() {
    let mut s = variable("kind", Some("select"));
    s.options = Some(vec!["lib".to_string(), "bin".to_string()]);
    let mut m = variable("features", Some("multiselect"));
    m.options = Some(vec!["a".to_string(), "b".to_string(), "c".to_string()]);
    let mut r = Resolver::new(vec![s, m], Environment::new());
    match r.next_prompt() {
        Some(Prompt::Select { options, .. }) => assert_eq!(options, vec!["lib", "bin"]),
        _ => panic!("expected a select prompt"),
    }
    assert_eq!(r.answer(Reply::Choice(2)), Err(ReplyError::NoSuchOption));
    assert_eq!(r.answer(Reply::Text("lib".to_string())), Err(ReplyError::WrongKind));
    assert_eq!(r.answer(Reply::Choice(1)), Ok(()));
    assert!(matches!(r.next_prompt(), Some(Prompt::MultiSelect { .. })));
    assert_eq!(r.answer(Reply::Choices(vec![2, 0])), Ok(()));
    let env = r.finish();
    assert_eq!(value(&env, "kind"), Some("bin".to_string()));
    assert_eq!(value(&env, "features"), Some("c,a".to_string()));
}

#[test]
fn empty_multiselect_gives_empty_value() {
    let mut m = variable("features", Some("multiselect"));
    m.options = Some(vec!["a".to_string()]);
    let mut r = Resolver::new(vec![m], Environment::new());
    assert!(r.next_prompt().is_some());
    assert_eq!(r.answer(Reply::Choices(vec![])), Ok(()));
    assert_eq!(value(&r.finish(), "features"), Some(String::new()));
}

#[test]
fn answer_without_prompt_is_refused() {
    let mut r = Resolver::new(vec![variable("x", None)], Environment::new());
    assert_eq!(r.answer(Reply::Text("v".to_string())), Err(ReplyError::NothingAsked));
    assert!(r.next_prompt().is_some());
    assert_eq!(r.answer(Reply::Text("v".to_string())), Ok(()));
    assert_eq!(r.answer(Reply::Text("w".to_string())), Err(ReplyError::NothingAsked));
}
