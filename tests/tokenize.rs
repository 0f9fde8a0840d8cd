use newnew::command::{command_lines, split_lines, tokenize};
use newnew::environment::Environment;

fn strings(v: &[&str]) -> Vec<String> {
    v.iter().map(|s| s.to_string()).collect()
}

#[test]
fn tokenize_honours_quotes() {
    assert_eq!(tokenize("a 'b c' \"d e\""), strings(&["a", "b c", "d e"]));
}

#[test]
fn tokenize_blank_line_gives_nothing() {
    assert_eq!(tokenize("  "), Vec::<String>::new());
    assert_eq!(tokenize(""), Vec::<String>::new());
}

#[test]
fn tokenize_keeps_other_quote_inside_span() {
    assert_eq!(tokenize("echo \"it's\" 'say \"hi\"'"), strings(&["echo", "it's", "say \"hi\""]));
}

#[test]
fn tokenize_joins_adjacent_quoted_text() {
    assert_eq!(tokenize("git commit -m'Initial commit'"), strings(&["git", "commit", "-mInitial commit"]));
}

#[test]
fn tokenize_drops_empty_quotes_and_splits_on_tabs() {
    assert_eq!(tokenize("a '' b\tc"), strings(&["a", "b", "c"]));
    assert_eq!(tokenize("''"), Vec::<String>::new());
}

#[test]
fn tokenize_unclosed_quote_runs_to_end() {
    assert_eq!(tokenize("echo 'a b"), strings(&["echo", "a b"]));
}

#[test]
fn split_lines_at_line_feeds() {
    assert_eq!(split_lines("a\nb\n"), strings(&["a", "b", ""]));
    assert_eq!(split_lines(""), strings(&[""]));
}

#[test]
fn command_lines_trim_expand_and_skip_blank() {
    let mut env = Environment::new();
    env.insert("project_name".to_string(), "demo".to_string());
    let cmds = command_lines("  cargo init {project_name}  \n\n   \n''\necho 'x y'\r\n", &env);
    assert_eq!(cmds.len(), 2);
    assert_eq!(cmds[0].text, "cargo init demo");
    assert_eq!(cmds[0].argv, strings(&["cargo", "init", "demo"]));
    assert_eq!(cmds[1].text, "echo 'x y'");
    assert_eq!(cmds[1].argv, strings(&["echo", "x y"]));
}
