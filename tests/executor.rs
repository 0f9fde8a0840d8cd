use newnew::environment::Environment;
use newnew::executor::{plan_steps, with_project_dir, Action, StepError};
use newnew::resolver::{initial_environment, Prompt, Reply, Resolver};
use newnew::substitution::expand_variables;
use newnew::template::{CopyStep, Step, TemplateVariable};

fn step(name: &str) -> Step {
    Step {
        name: name.to_string(),
        if_condition: None,
        if_not: None,
        run: None,
        check: None,
        error: None,
        copy: None,
    }
}

#[test]
fn if_not_step_is_skipped_when_condition_holds() {
    let mut s = step("docker");
    s.if_not = Some("use_docker".to_string());
    s.copy = Some(CopyStep { from: "Dockerfile".to_string(), to: "Dockerfile".to_string() });
    s.run = Some("docker build .".to_string());
    s.check = Some("docker".to_string());
    let mut env = Environment::new();
    env.insert("use_docker".to_string(), "true".to_string());
    let plan = plan_steps(&vec![s], &env, "/t", "/p");
    assert_eq!(plan.len(), 1);
    assert!(matches!(&plan[0], Action::Begin { name } if name == "docker"));
}

#[test]
fn if_not_step_runs_when_condition_fails() {
    let mut s = step("docker");
    s.if_not = Some("use_docker".to_string());
    s.run = Some("docker build .".to_string());
    let mut env = Environment::new();
    env.insert("use_docker".to_string(), "false".to_string());
    let plan = plan_steps(&vec![s], &env, "/t", "/p");
    assert_eq!(plan.len(), 2);
    assert!(matches!(&plan[1], Action::Run { command } if command.argv == vec!["docker", "build", "."]));
}

#[test]
fn end_to_end_select_and_copy() {
    let var = TemplateVariable {
        name: "project_type".to_string(),
        prompt: "Type".to_string(),
        type_: Some("select".to_string()),
        default: None,
        if_condition: None,
        if_not: None,
        options: Some(vec!["lib".to_string(), "bin".to_string()]),
    };
    let mut r = Resolver::new(vec![var], initial_environment("demo"));
    assert!(matches!(r.next_prompt(), Some(Prompt::Select { .. })));
    assert_eq!(r.answer(Reply::Choice(0)), Ok(()));
    assert!(r.next_prompt().is_none());
    let env = with_project_dir(r.finish(), "/home/u/Dev/demo");
    let mut s = step("scaffold");
    s.copy = Some(CopyStep { from: "skeleton.txt".to_string(), to: "{project_name}.txt".to_string() });
    let plan = plan_steps(&vec![s], &env, "/home/u/.config/newnew/templates", "/home/u/Dev/demo");
    assert_eq!(plan.len(), 2);
    match &plan[1] {
        Action::Copy { source, destination } => {
            assert_eq!(source, "/home/u/.config/newnew/templates/skeleton.txt");
            assert_eq!(destination, "/home/u/Dev/demo/demo.txt");
        }
        _ => panic!("expected a copy"),
    }
    assert_eq!(expand_variables("Type: {project_type}", &env), "Type: lib");
    assert_eq!(expand_variables("{project_dir}", &env), "/home/u/Dev/demo");
}

#[test]
fn step_actions_come_in_order() {
    let mut s = step("rust");
    s.check = Some("cargo".to_string());
    s.copy = Some(CopyStep { from: "a".to_string(), to: "b/c".to_string() });
    s.run = Some("cargo init\ncargo build".to_string());
    let plain = step("announce");
    let plan = plan_steps(&vec![plain, s], &Environment::new(), "t", "p/");
    assert_eq!(plan.len(), 6);
    assert!(matches!(&plan[0], Action::Begin { name } if name == "announce"));
    assert!(matches!(&plan[1], Action::Begin { name } if name == "rust"));
    assert!(matches!(&plan[2], Action::Check { program, message } if program == "cargo" && message == "cargo is not installed"));
    assert!(matches!(&plan[3], Action::Copy { source, destination } if source == "t/a" && destination == "p/b/c"));
    assert!(matches!(&plan[4], Action::Run { command } if command.text == "cargo init"));
    assert!(matches!(&plan[5], Action::Run { command } if command.text == "cargo build"));
}

#[test]
fn check_uses_custom_message() {
    let mut s = step("python");
    s.check = Some("poetry".to_string());
    s.error = Some("Install Poetry first".to_string());
    let plan = plan_steps(&vec![s], &Environment::new(), "t", "p");
    assert!(matches!(&plan[1], Action::Check { message, .. } if message == "Install Poetry first"));
}

#[test]
fn if_step_needs_true_condition() {
    let mut s = step("git");
    s.if_condition = Some("use_git".to_string());
    s.run = Some("git init".to_string());
    let plan = plan_steps(&vec![s.clone()], &Environment::new(), "t", "p");
    assert_eq!(plan.len(), 1);
    let mut env = Environment::new();
    env.insert("use_git".to_string(), "true".to_string());
    assert_eq!(plan_steps(&vec![s], &env, "t", "p").len(), 2);
}

#[test]
fn absolute_copy_destination_is_kept() {
    let mut s = step("abs");
    s.copy = Some(CopyStep { from: "/etc/x".to_string(), to: "/tmp/y".to_string() });
    let plan = plan_steps(&vec![s], &Environment::new(), "t", "p");
    assert!(matches!(&plan[1], Action::Copy { source, destination } if source == "/etc/x" && destination == "/tmp/y"));
}

#[test]
fn step_error_messages() {
    let e = StepError::MissingCommand { message: "git is not installed".to_string() };
    assert_eq!(e.message(), "git is not installed");
    let e = StepError::ReadFailed { path: "/t/a".to_string(), reason: "gone".to_string() };
    assert_eq!(e.message(), "Failed to read template file '/t/a': gone");
    let e = StepError::WriteFailed { path: "/p/b".to_string(), reason: "denied".to_string() };
    assert_eq!(e.message(), "Failed to write file '/p/b': denied");
    let e = StepError::CommandFailed { command: "false".to_string(), reason: "exit status: 1".to_string() };
    assert_eq!(e.message(), "Failed to run command 'false': exit status: 1");
}
