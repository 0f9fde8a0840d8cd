use newnew::loader::{load_templates, mentions_legacy_variables, template_name_of, LoadError, TemplateSource};
use newnew::template::{validate_template, Template, TemplateError, TemplateVariable};

fn template(name: &str) -> Template {
    Template {
        name: name.to_string(),
        description: format!("{} projects", name),
        emoji: "🦀".to_string(),
        variables: vec![],
        steps: vec![],
    }
}

fn source(file: &str, parsed: Result<Template, String>) -> TemplateSource {
    TemplateSource { file_name: file.to_string(), parsed }
}

#[test]
fn malformed_file_is_skipped() {
    let sources = vec![
        source("rust.yml", Ok(template("Rust"))),
        source("broken.yml", Err("did not find expected key at line 3".to_string())),
    ];
    let set = match load_templates(sources) {
        Ok(set) => set,
        Err(_) => panic!("loading should succeed"),
    };
    assert_eq!(set.len(), 1);
    assert_eq!(set.name_at(0), "rust");
    assert_eq!(set.get(0).name, "Rust");
    assert_eq!(set.find(&"broken".to_string()), None);
}

#[test]
fn empty_directory_fails() {
    assert!(matches!(load_templates(vec![]), Err(LoadError::NoTemplates)));
}

#[test]
fn non_template_files_are_ignored() {
    let sources = vec![
        source("README.md", Err("not yaml".to_string())),
        source(".yml", Ok(template("hidden"))),
        source("notes.yaml", Ok(template("other"))),
    ];
    assert!(matches!(load_templates(sources), Err(LoadError::NoTemplates)));
}

#[test]
fn only_unusable_templates_fail_with_hint() {
    let sources = vec![source(
        "node.yml",
        Err("variables: invalid type: map, expected a sequence at line 4".to_string()),
    )];
    assert!(matches!(
        load_templates(sources),
        Err(LoadError::NoValidTemplates { legacy_variables: true })
    ));
    let sources = vec![source("node.yml", Err("bad indentation".to_string()))];
    assert!(matches!(
        load_templates(sources),
        Err(LoadError::NoValidTemplates { legacy_variables: false })
    ));
}

#[test]
fn ill_formed_variables_reject_template() {
    let mut t = template("Python");
    t.variables.push(TemplateVariable {
        name: "kind".to_string(),
        prompt: "Kind?".to_string(),
        type_: Some("select".to_string()),
        default: None,
        if_condition: None,
        if_not: None,
        options: None,
    });
    assert!(matches!(validate_template(&t), Err(TemplateError::MissingOptions { variable }) if variable == "kind"));
    let sources = vec![source("python.yml", Ok(t))];
    assert!(matches!(
        load_templates(sources),
        Err(LoadError::NoValidTemplates { legacy_variables: false })
    ));
}

#[test]
fn unknown_variable_type_is_refused() {
    let mut t = template("Go");
    t.variables.push(TemplateVariable {
        name: "n".to_string(),
        prompt: "N?".to_string(),
        type_: Some("number".to_string()),
        default: None,
        if_condition: None,
        if_not: None,
        options: None,
    });
    assert!(matches!(validate_template(&t), Err(TemplateError::UnknownKind { variable }) if variable == "n"));
}

#[test]
fn later_file_of_same_name_replaces_earlier() {
    let sources = vec![
        source("a.yml", Ok(template("first"))),
        source("b.yml", Ok(template("second"))),
        source("a.yml", Ok(template("third"))),
    ];
    let set = match load_templates(sources) {
        Ok(set) => set,
        Err(_) => panic!("loading should succeed"),
    };
    assert_eq!(set.len(), 2);
    let i = set.find(&"a".to_string()).unwrap();
    assert_eq!(set.get(i).name, "third");
    let labels = set.labels();
    assert_eq!(labels[i], "🦀 a third projects");
}

#[test]
fn template_names_from_file_names() {
    assert_eq!(template_name_of("rust.yml"), Some("rust".to_string()));
    assert_eq!(template_name_of("my.app.yml"), Some("my.app".to_string()));
    assert_eq!(template_name_of("..yml"), Some(".".to_string()));
    assert_eq!(template_name_of(".yml"), None);
    assert_eq!(template_name_of("rust.yaml"), None);
    assert_eq!(template_name_of("rust"), None);
}

#[test]
fn legacy_layout_is_recognised() {
    assert!(mentions_legacy_variables("x: variables: invalid type: map, expected a sequence"));
    assert!(!mentions_legacy_variables("variables: invalid type: string"));
}
